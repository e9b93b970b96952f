use diskann3_rest::text::{
    parse_u32, parse_usize, push_decimal, same_text, trim, trim_end_slashes, NumberError,
};

fn written(n: u128) -> String {
    let mut s = String::from("n=");
    push_decimal(&mut s, n);
    s
}

#[test]
fn decimals_are_written_as_std_writes_them() {
    for n in [0u128, 1, 9, 10, 11, 99, 100, 1005, 4294967295, u64::MAX as u128, u128::MAX] {
        assert_eq!(written(n), format!("n={n}"));
    }
}

#[test]
fn numbers_are_read_as_std_reads_them() {
    let texts = [
        "", "+", "-", "0", "7", "+7", "-7", "-0", "007", "+007", "++7", "7+", " 7", "7 ", "1_000",
        "4294967295", "4294967296", "+4294967295", "99999999999x", "4294967296x", "429496729x6",
        "5000000000", "x", "\u{0663}", "12.0", "1e3", "18446744073709551615",
        "18446744073709551616", "00000000000000000000000000000001",
    ];
    for t in texts {
        match (parse_u32(t), t.parse::<u32>()) {
            (Ok(a), Ok(b)) => assert_eq!(a, b),
            (Err(a), Err(b)) => assert_eq!(a.message(), b.to_string(), "{t:?}"),
            (a, b) => panic!("{t:?}: {a:?} but {b:?}"),
        }
        match (parse_usize(t), t.parse::<usize>()) {
            (Ok(a), Ok(b)) => assert_eq!(a, b),
            (Err(a), Err(b)) => assert_eq!(a.message(), b.to_string(), "{t:?}"),
            (a, b) => panic!("{t:?}: {a:?} but {b:?}"),
        }
    }
}

#[test]
fn number_errors_tell_what_is_wrong() {
    assert_eq!(parse_u32(""), Err(NumberError::Empty));
    assert_eq!(parse_u32("ten"), Err(NumberError::InvalidDigit));
    assert_eq!(parse_u32("4294967296"), Err(NumberError::PosOverflow));
    assert_eq!(NumberError::Empty.message(), "cannot parse integer from empty string");
    assert_eq!(NumberError::InvalidDigit.message(), "invalid digit found in string");
    assert_eq!(NumberError::PosOverflow.message(), "number too large to fit in target type");
}

#[test]
fn written_numbers_are_read_back() {
    for n in [0u32, 5, 10, 12345, u32::MAX] {
        let mut s = String::new();
        push_decimal(&mut s, n as u128);
        assert_eq!(parse_u32(&s), Ok(n));
    }
}

#[test]
fn texts_are_compared_by_content() {
    assert!(same_text("", ""));
    assert!(same_text("/search", "/search"));
    assert!(!same_text("/search", "/search/"));
    assert!(!same_text("/search", "/Search"));
    assert!(same_text("\u{e9}\u{1f600}", "\u{e9}\u{1f600}"));
    assert!(!same_text("\u{e9}", "e"));
}

#[test]
fn every_character_is_trimmed_as_std_trims_it() {
    let mut u: u32 = 0;
    while u <= 0x3100 {
        if let Some(c) = char::from_u32(u) {
            let s: String = [c, 'a', c, 'b', c, c].iter().collect();
            assert_eq!(trim(&s), s.trim(), "{u:x}");
        }
        u += 1;
    }
    for c in ['\u{feff}', '\u{200b}', '\u{180e}', '\u{10ffff}'] {
        let s: String = [c, 'a', c].iter().collect();
        assert_eq!(trim(&s), s.trim());
    }
}

#[test]
fn white_space_alone_is_trimmed_away() {
    assert_eq!(trim(""), "");
    assert_eq!(trim(" \t\r\n"), "");
    assert_eq!(trim("  two words\n"), "two words");
}

#[test]
fn slashes_at_the_end_are_taken_off() {
    for s in ["", "/", "///", "http://h:1", "http://h:1/", "http://h:1//", "a/b/", "/a"] {
        assert_eq!(trim_end_slashes(s), s.trim_end_matches('/'));
    }
    assert_eq!(trim_end_slashes("http://h:1//"), "http://h:1");
}
