use diskann3_rest::args::{parse_args, Args};
use diskann3_rest::client::{http_error, is_success, preview, refusal, select_queries, total_comparisons};
use diskann3_rest::config::{Params, SearchDefaults};
use diskann3_rest::serve::{route, Ctx, Method, Neighbor, Route, Stage};
use diskann_vector::distance::Metric;

fn args(extra: &[&str]) -> Args {
    let mut v = vec!["--queries".to_string(), "q".to_string()];
    for e in extra {
        v.push(e.to_string());
    }
    parse_args(&v).unwrap()
}

#[test]
fn all_queries_are_sent_without_a_limit() {
    assert_eq!(select_queries(vec![vec![1], vec![2]], None), Ok(vec![vec![1], vec![2]]));
}

#[test]
fn a_limit_keeps_the_first_queries() {
    assert_eq!(select_queries(vec![vec![1], vec![2]], Some(1)), Ok(vec![vec![1]]));
    assert_eq!(select_queries(vec![vec![1], vec![2]], Some(5)), Ok(vec![vec![1], vec![2]]));
}

#[test]
fn nothing_to_send_is_an_error() {
    assert_eq!(select_queries(vec![], None), Err("no queries to send"));
    assert_eq!(select_queries(vec![vec![1]], Some(0)), Err("no queries to send"));
}

#[test]
fn requests_go_to_the_search_routes() {
    assert_eq!(args(&[]).url(), "http://127.0.0.1:8080/search");
    assert_eq!(args(&["--batch"]).url(), "http://127.0.0.1:8080/search/batch");
    assert_eq!(args(&["--server", "http://h:1//"]).url(), "http://h:1/search");
    assert_eq!(args(&["--server", ""]).url(), "/search");
    assert_eq!(route(Method::Post, &args(&["--server", ""]).url()), Route::Search);
    assert_eq!(route(Method::Post, &args(&["--server", "/", "--batch"]).url()), Route::Batch);
}

#[test]
fn requests_carry_the_parameters() {
    let a = args(&["--k", "3", "--search-list", "9", "--beam", "2", "--flat"]);
    let r = a.search_request(vec![7]);
    assert_eq!(r.query, vec![7]);
    assert_eq!((r.k, r.search_list, r.beam_width, r.flat), (Some(3), Some(9), Some(2), Some(true)));
    let r = a.batch_request(vec![vec![7], vec![8]]);
    assert_eq!(r.queries, vec![vec![7], vec![8]]);
    assert_eq!((r.k, r.search_list, r.beam_width, r.flat), (Some(3), Some(9), Some(2), Some(true)));
}

#[test]
fn an_accepted_command_line_passes_the_servers_checks() {
    let defaults = SearchDefaults { k: 50, search_list: 5, beam_width: 1, flat: true };
    let ctx = Ctx { dims: 1, num_points: 1, metric: Metric::L2, defaults };
    match ctx.search(args(&["--k", "100"]).search_request(vec![0])) {
        Stage::Search(job) => {
            assert_eq!(job.params, Params { k: 100, l: 100, beam: 4, flat: false })
        }
        other => panic!("{other:?}"),
    }
    match ctx.batch(args(&[]).batch_request(vec![vec![0]])) {
        Stage::Batch(run) => {
            assert_eq!(run.search_params(), Params { k: 10, l: 100, beam: 4, flat: false })
        }
        other => panic!("{other:?}"),
    }
}

#[test]
fn answers_are_printed_by_a_single_thread_that_is_not_quiet() {
    assert!(args(&[]).verbose());
    assert!(!args(&["--quiet"]).verbose());
    assert!(!args(&["--concurrency", "2"]).verbose());
}

#[test]
fn statuses_other_than_success_are_errors() {
    assert!(is_success(200) && is_success(204) && is_success(299));
    assert!(!is_success(199) && !is_success(300) && !is_success(404) && !is_success(503));
    for status in [200u16, 204, 299] {
        assert_eq!(refusal(status, "ignored"), None);
    }
    assert_eq!(refusal(199, " a \n"), Some("HTTP 199: a".to_string()));
    assert_eq!(refusal(404, "{}"), Some("HTTP 404: {}".to_string()));
    assert_eq!(http_error(300, ""), "HTTP 300: ");
    assert_eq!(http_error(404, " \ta b\n"), "HTTP 404: a b");
    assert_eq!(
        http_error(503, "{\"error\":\"server busy, retry later\"}\n"),
        "HTTP 503: {\"error\":\"server busy, retry later\"}"
    );
}

#[test]
fn at_most_five_neighbours_are_shown() {
    let all: Vec<Neighbor> = (0..7u32).map(|i| Neighbor { id: 10 + i, distance: 0 }).collect();
    assert_eq!(preview(&all), (vec![10, 11, 12, 13, 14], true));
    assert_eq!(preview(&all[..5].to_vec()), (vec![10, 11, 12, 13, 14], false));
    assert_eq!(preview(&all[..2].to_vec()), (vec![10, 11], false));
    assert_eq!(preview(&vec![]), (vec![], false));
}

#[test]
fn comparisons_are_summed() {
    assert_eq!(total_comparisons(&vec![]), 0);
    assert_eq!(total_comparisons(&vec![312, u32::MAX, u32::MAX]), 312 + 2 * (u32::MAX as u64));
}
