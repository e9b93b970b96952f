use diskann3_rest::args::{parse_args, Args, ArgsError};
use diskann3_rest::text::NumberError;

fn argv(args: &[&str]) -> Vec<String> {
    args.iter().map(|s| s.to_string()).collect()
}

fn accepted(args: &[&str]) -> Args {
    parse_args(&argv(args)).expect("accepted")
}

fn refused(args: &[&str]) -> ArgsError {
    parse_args(&argv(args)).expect_err("refused")
}

#[test]
fn query_file_alone_leaves_the_defaults() {
    let a = accepted(&["--queries", "queries.fbin"]);
    assert_eq!(a.server, "http://127.0.0.1:8080");
    assert_eq!(a.queries, "queries.fbin");
    assert_eq!(a.k, 10);
    assert_eq!(a.search_list, 100);
    assert_eq!(a.beam_width, 4);
    assert!(!a.flat);
    assert_eq!(a.limit, None);
    assert_eq!(a.concurrency, 1);
    assert!(!a.batch);
    assert!(!a.quiet);
}

#[test]
fn every_option_is_taken() {
    let a = accepted(&[
        "--server", "http://h:9/", "--queries", "q", "--k", "3", "--search-list", "7", "--beam",
        "2", "--limit", "11", "--concurrency", "16", "--flat", "--batch", "--quiet",
    ]);
    assert_eq!(a.server, "http://h:9/");
    assert_eq!(a.queries, "q");
    assert_eq!((a.k, a.search_list, a.beam_width), (3, 7, 2));
    assert_eq!(a.limit, Some(11));
    assert_eq!(a.concurrency, 16);
    assert!(a.flat && a.batch && a.quiet);
}

#[test]
fn documented_command_lines_are_accepted() {
    let a = accepted(&["--queries", "queries.fbin", "--k", "10", "--search-list", "100"]);
    assert_eq!((a.k, a.search_list), (10, 100));
    let a = accepted(&["--queries", "queries.fbin", "--concurrency", "16", "--quiet"]);
    assert_eq!(a.concurrency, 16);
    assert!(a.quiet);
    assert!(accepted(&["--queries", "queries.fbin", "--batch"]).batch);
}

#[test]
fn different_options_may_be_given_in_any_order() {
    let options: [&[&str]; 4] = [&["--queries", "q"], &["--k", "3"], &["--batch"], &["--limit", "5"]];
    let first = format!("{:?}", accepted(&options.concat()));
    for i in 0..4 {
        for j in 0..4 {
            let mut swapped = options;
            swapped.swap(i, j);
            assert_eq!(format!("{:?}", accepted(&swapped.concat())), first);
        }
    }
    let e = refused(&["--k", "x", "--flat"]);
    assert_eq!(e.message(), refused(&["--flat", "--k", "x"]).message());
    assert_eq!(refused(&["--k", "x", "--beam", "y"]).message(), "--k");
    assert_eq!(refused(&["--beam", "y", "--k", "x"]).message(), "--beam");
}

#[test]
fn the_first_mistake_is_told_of() {
    assert_eq!(refused(&["--k", "x", "--bogus"]).message(), "--k");
    assert_eq!(refused(&["--bogus", "--k", "x"]).message(), "unknown argument: --bogus");
    assert_eq!(refused(&["--k"]).message(), "missing value after --k");
    assert_eq!(accepted(&["--queries", "--k"]).queries, "--k");
}

#[test]
fn the_last_of_two_values_counts() {
    let a = accepted(&["--k", "5", "--queries", "a", "--k", "6", "--queries", "b"]);
    assert_eq!(a.k, 6);
    assert_eq!(a.queries, "b");
}

#[test]
fn no_thread_at_all_becomes_one() {
    assert_eq!(accepted(&["--queries", "q", "--concurrency", "0"]).concurrency, 1);
    assert_eq!(accepted(&["--queries", "q", "--concurrency", "2"]).concurrency, 2);
}

#[test]
fn an_option_may_be_the_value_of_another() {
    assert_eq!(accepted(&["--queries", "--flat"]).queries, "--flat");
    assert!(!accepted(&["--queries", "--flat"]).flat);
}

#[test]
fn a_missing_value_is_refused() {
    let e = refused(&["--queries", "q", "--k"]);
    assert!(matches!(e, ArgsError::MissingValue(_)));
    assert_eq!(e.message(), "missing value after --k");
    assert_eq!(e.cause(), None);
}

#[test]
fn a_bad_number_is_refused_with_its_cause() {
    let e = refused(&["--queries", "q", "--k", "ten"]);
    assert!(matches!(e, ArgsError::BadNumber(_, NumberError::InvalidDigit)));
    assert_eq!(e.message(), "--k");
    assert_eq!(e.cause(), Some("invalid digit found in string"));
    let e = refused(&["--search-list", "4294967296"]);
    assert_eq!(e.message(), "--search-list");
    assert_eq!(e.cause(), Some("number too large to fit in target type"));
    for flag in ["--beam", "--limit", "--concurrency"] {
        let e = refused(&[flag, ""]);
        assert_eq!(e.message(), flag);
        assert_eq!(e.cause(), Some("cannot parse integer from empty string"));
    }
}

#[test]
fn an_unknown_option_is_refused() {
    let e = refused(&["--queries", "q", "--verbose"]);
    assert_eq!(e.message(), "unknown argument: --verbose");
    assert_eq!(refused(&["queries.fbin"]).message(), "unknown argument: queries.fbin");
}

#[test]
fn a_query_file_is_required() {
    assert_eq!(refused(&[]).message(), "--queries <file.fbin> is required");
    assert_eq!(refused(&["--queries", ""]).message(), "--queries <file.fbin> is required");
}

#[test]
fn a_search_list_below_k_is_refused() {
    let e = refused(&["--queries", "q", "--k", "101"]);
    assert!(matches!(e, ArgsError::ListBelowK { search_list: 100, k: 101 }));
    assert_eq!(e.message(), "--search-list (100) must be >= --k (101)");
    assert_eq!(accepted(&["--queries", "q", "--k", "100"]).k, 100);
}

#[test]
fn the_first_error_from_the_left_decides() {
    assert_eq!(refused(&["--k", "x", "--what"]).message(), "--k");
    assert_eq!(refused(&["--what", "--k", "x"]).message(), "unknown argument: --what");
}
