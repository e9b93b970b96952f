use diskann3_rest::double::round_to_double;
use diskann3_rest::summary::{percentile, summarize, Tally};

fn bits(ms: &[f64]) -> Vec<u64> {
    ms.iter().map(|x| x.to_bits()).collect()
}

fn by_floats(n: usize, p: f64) -> usize {
    let idx = ((p / 100.0) * (n as f64 - 1.0)).round() as usize;
    idx.min(n - 1)
}

#[test]
fn percentiles_of_nothing_are_zero() {
    for p in [0u8, 50, 95, 99, 100, 255] {
        assert_eq!(f64::from_bits(percentile(&vec![], p)), 0.0);
    }
}

#[test]
fn percentiles_stand_where_floating_point_puts_them() {
    let mut sorted: Vec<u64> = Vec::new();
    for n in 1..1200usize {
        sorted.push(n as u64 - 1);
        for p in 0..=255u8 {
            assert_eq!(percentile(&sorted, p) as usize, by_floats(n, p as f64), "{n} {p}");
        }
    }
}

#[test]
fn halves_are_rounded_as_the_share_is() {
    assert_eq!(percentile(&vec![1, 2], 50), 2);
    assert_eq!(percentile(&vec![1, 2, 3], 50), 2);
    let eleven: Vec<u64> = (0..11).collect();
    assert_eq!(percentile(&eleven, 95), 10);
    assert_eq!(percentile(&eleven, 50), 5);
    let ninety_one: Vec<u64> = (0..91).collect();
    assert_eq!(percentile(&ninety_one, 35), 31);
    assert_eq!(by_floats(91, 35.0), 31);
}

#[test]
fn percentiles_reach_from_the_first_to_the_last() {
    let sorted: Vec<u64> = (10..60).collect();
    assert_eq!(percentile(&sorted, 0), 10);
    for p in [100u8, 101, 255] {
        assert_eq!(percentile(&sorted, p), 59);
    }
    for p in 0..255u8 {
        assert!(percentile(&sorted, p) <= percentile(&sorted, p + 1));
    }
}

#[test]
fn whole_numbers_are_rounded_as_doubles_are() {
    for x in [
        0u64,
        1,
        (1 << 53) - 1,
        1 << 53,
        (1 << 53) + 1,
        (1 << 53) + 2,
        (1 << 53) + 3,
        (1 << 54) + 2,
        (1 << 54) + 6,
        u64::MAX,
        u64::MAX - 1024,
        u64::MAX - 1023,
        0x1234_5678_9abc_def0,
    ] {
        assert_eq!(round_to_double(x as u128, 1), x as f64 as u128, "{x}");
    }
    for p in 0..=255u64 {
        let scaled = (p as f64 / 100.0) * 576460752303423488.0;
        assert_eq!(round_to_double(p as u128 * (1 << 59), 100), scaled as u128, "{p}");
    }
}

#[test]
fn negative_values_come_first() {
    let mut t = Tally::new();
    for ms in bits(&[2.0, -1.0, 0.5, -3.5, f64::INFINITY, f64::NEG_INFINITY]) {
        t.record_ok(ms);
    }
    let s = summarize(t);
    assert_eq!(
        s.latencies,
        bits(&[f64::NEG_INFINITY, -3.5, -1.0, 0.5, 2.0, f64::INFINITY])
    );
    let mut t = Tally::new();
    for ms in bits(&[-1.0, 2.0]) {
        t.record_ok(ms);
    }
    assert_eq!(f64::from_bits(summarize(t).max), 2.0);
}

#[test]
fn zeros_of_either_sign_keep_their_order() {
    let ms = [0.0, -0.0, 1.0, -0.0, 0.0, -1.0];
    let mut by_float = ms;
    by_float.sort_by(|a: &f64, b: &f64| a.partial_cmp(b).unwrap());
    let mut t = Tally::new();
    for b in bits(&ms) {
        t.record_ok(b);
    }
    assert_eq!(summarize(t).latencies, bits(&by_float));
}

#[test]
fn a_single_latency_is_reported_whatever_it_is() {
    let mut t = Tally::new();
    t.record_ok(f64::NAN.to_bits());
    let s = summarize(t);
    assert!(f64::from_bits(s.p50).is_nan() && f64::from_bits(s.max).is_nan());
}

#[test]
fn a_run_is_tallied() {
    let mut t = Tally::new();
    t.record_ok(5);
    t.record_failure("first".to_string());
    t.record_ok(3);
    t.record_failure("second".to_string());
    assert_eq!(t.latencies, vec![5, 3]);
    assert_eq!(t.failed, 2);
    assert_eq!(t.first_error.as_deref(), Some("first"));
}

#[test]
fn tallies_of_threads_are_added() {
    let mut all = Tally::new();
    let mut a = Tally::new();
    a.record_ok(9);
    let mut b = Tally::new();
    b.record_failure("b".to_string());
    b.record_ok(1);
    let mut c = Tally::new();
    c.record_failure("c".to_string());
    all.absorb(a);
    assert_eq!(all.first_error, None);
    all.absorb(b);
    all.absorb(c);
    all.absorb(Tally::new());
    assert_eq!(all.latencies, vec![9, 1]);
    assert_eq!(all.failed, 2);
    assert_eq!(all.first_error.as_deref(), Some("b"));
}

#[test]
fn a_run_is_summarized() {
    let mut t = Tally::new();
    for ms in bits(&[2.5, 0.75, 11.0, 1.5, 0.0]) {
        t.record_ok(ms);
    }
    t.record_failure("x".to_string());
    let s = summarize(t);
    assert_eq!((s.sent, s.ok, s.failed), (6, 5, 1));
    assert_eq!(s.latencies, bits(&[0.0, 0.75, 1.5, 2.5, 11.0]));
    assert_eq!(f64::from_bits(s.p50), 1.5);
    assert_eq!(f64::from_bits(s.p95), 11.0);
    assert_eq!(f64::from_bits(s.p99), 11.0);
    assert_eq!(f64::from_bits(s.max), 11.0);
    assert!(s.p50 <= s.p95 && s.p95 <= s.p99 && s.p99 <= s.max);
}

#[test]
fn the_order_of_answers_makes_no_difference() {
    let mut a = Tally::new();
    let mut b = Tally::new();
    for ms in [4u64, 1, 3, 2, 2] {
        a.record_ok(ms);
    }
    for ms in [2u64, 2, 3, 4, 1] {
        b.record_ok(ms);
    }
    let (s, t) = (summarize(a), summarize(b));
    assert_eq!(s.latencies, vec![1, 2, 2, 3, 4]);
    assert_eq!(s.latencies, t.latencies);
    assert_eq!((s.p50, s.p95, s.p99, s.max), (t.p50, t.p95, t.p99, t.max));
}

#[test]
fn a_run_without_answers_is_summarized() {
    let mut t = Tally::new();
    t.record_failure("refused".to_string());
    let s = summarize(t);
    assert_eq!((s.sent, s.ok, s.failed), (1, 0, 1));
    assert_eq!((s.p50, s.p95, s.p99, s.max), (0, 0, 0, 0));
    assert!(s.latencies.is_empty());
}
