//! The report on a run of the client: how many queries were answered, and how
//! fast.
//!
//! Latencies are held as the bit patterns of their milliseconds, an `f64`.

use crate::double::{
    half_even, lemma_double_is_kept, lemma_nearest_double_is_near, lemma_nearest_double_reaches,
    lemma_nearest_double_rises, nearest_double, round_to_double, unit,
};
use vstd::arithmetic::div_mod::lemma_fundamental_div_mod_converse;
use vstd::arithmetic::power2::{
    lemma2_to64, lemma2_to64_rest, lemma_pow2_pos, lemma_pow2_strictly_increases,
    lemma_pow2_unfold, pow2,
};
use vstd::prelude::*;

verus! {

/// Where the `f64` with the bits `b` stands among all of them, but for those
/// that are no number: the sign bit turns the order of the others around, and
/// the two zeros stand at the same place.
pub open spec fn float_order(b: u64) -> int {
    if b < 0x8000_0000_0000_0000 {
        b as int
    } else {
        0x8000_0000_0000_0000 - b
    }
}

/// Whether `b` are the bits of an `f64` that is no number.
pub open spec fn is_nan(b: u64) -> bool {
    b % 0x8000_0000_0000_0000 > 0x7ff0_0000_0000_0000
}

/// Where the `f64` with the bits `b` stands among all of them.
fn float_key(b: u64) -> (k: i64)
    ensures
        k == float_order(b),
{
    if b < 0x8000_0000_0000_0000 {
        b as i64
    } else {
        -((b - 0x8000_0000_0000_0000) as i64)
    }
}

/// Whether `s` is in ascending order.
pub open spec fn ascending(s: Seq<u64>) -> bool {
    forall|i: int, j: int| 0 <= i <= j < s.len() ==> float_order(s[i]) <= float_order(s[j])
}

/// Whether the values of `s` can be put in order: every number can be compared
/// with every other, and a single value has nothing to be compared with.
pub open spec fn comparable(s: Seq<u64>) -> bool {
    s.len() <= 1 || forall|i: int| 0 <= i < s.len() ==> !is_nan(s[i])
}

/// The values of `s` that stand at the place `k`, in the order of `s`.
pub open spec fn standing_at(s: Seq<u64>, k: int) -> Seq<u64> {
    s.filter(|b: u64| float_order(b) == k)
}

/// `slice::sort_by_key` of the standard library, with the place of an `f64` among
/// all of them as the key: the slice holds the same values, in ascending order,
/// and values with equal keys keep their order.
#[verifier::external_body]
fn sort(v: &mut Vec<u64>)
    ensures
        ascending(final(v)@),
        final(v)@.to_multiset() == old(v)@.to_multiset(),
        forall|k: int| #[trigger] standing_at(final(v)@, k) == standing_at(old(v)@, k),
{
    v.sort_by_key(|b| float_key(*b));
}

/// The share that `percent` hundredths are, as a double, in units of 2^-59.
pub open spec fn share(percent: nat) -> nat {
    nearest_double(percent * 0x800_0000_0000_0000, 100)
}

/// The position of a percentile among `n` values in ascending order: its share
/// of the way from the first to the last, rounded to the nearest position,
/// halves up, and never beyond the last. The share, the way and their product
/// are doubles.
pub open spec fn rank(n: nat, percent: nat) -> int {
    let way = nearest_double((nearest_double(n, 1) - 1) as nat, 1);
    let nearest = (nearest_double(share(percent) * way, 1) + 0x400_0000_0000_0000) as nat
        / 0x800_0000_0000_0000;
    if nearest < n {
        nearest as int
    } else {
        n - 1
    }
}

/// A percentile of `sorted`; of nothing it is zero.
pub open spec fn percentile_of(sorted: Seq<u64>, percent: nat) -> u64 {
    if sorted.len() == 0 {
        0
    } else {
        sorted[rank(sorted.len(), percent)]
    }
}

/// The largest of `sorted`; of nothing it is zero.
pub open spec fn max_of(sorted: Seq<u64>) -> u64 {
    if sorted.len() == 0 {
        0
    } else {
        sorted.last()
    }
}

/// The percentile of `sorted` at `percent` hundredths; of nothing it is zero.
pub fn percentile(sorted: &Vec<u64>, percent: u8) -> (v: u64)
    ensures
        v == percentile_of(sorted@, percent as nat),
{
    if sorted.len() == 0 {
        return 0;
    }
    let n: u128 = sorted.len() as u128;
    let part: u128 = round_to_double((percent as u128) * 0x800_0000_0000_0000, 100);
    let rounded: u128 = round_to_double(n, 1);
    proof {
        lemma_nearest_double_is_near(n as nat, 1);
        lemma_nearest_double_is_near((rounded - 1) as nat, 1);
        lemma_nearest_double_rises(
            percent as nat * 0x800_0000_0000_0000,
            255 * 0x800_0000_0000_0000,
            100,
        );
        lemma_nearest_double_is_near(255 * 0x800_0000_0000_0000, 100);
    }
    let way: u128 = round_to_double(rounded - 1, 1);
    assert(part * way <= 0x1500_0000_0000_0000 * 0x1_1000_0000_0000_0000) by (nonlinear_arith)
        requires
            0 <= part <= 0x1500_0000_0000_0000,
            0 <= way <= 0x1_1000_0000_0000_0000,
    ;
    let product: u128 = round_to_double(part * way, 1);
    proof {
        lemma_nearest_double_is_near((part * way) as nat, 1);
    }
    let nearest: u128 = (product + 0x400_0000_0000_0000) / 0x800_0000_0000_0000;
    if nearest < n {
        sorted[nearest as usize]
    } else {
        sorted[sorted.len() - 1]
    }
}

/// What came of the queries that were sent.
#[derive(Debug)]
pub struct Tally {
    /// The latency of each query that was answered.
    pub latencies: Vec<u64>,
    /// How many queries failed.
    pub failed: usize,
    /// The error of the first of them.
    pub first_error: Option<String>,
}

/// The contents of a [`Tally`].
pub struct TallyView {
    pub latencies: Seq<u64>,
    pub failed: nat,
    pub first_error: Option<Seq<char>>,
}

impl View for Tally {
    type V = TallyView;

    open spec fn view(&self) -> TallyView {
        TallyView {
            latencies: self.latencies@,
            failed: self.failed as nat,
            first_error: match self.first_error {
                Some(e) => Some(e@),
                None => None,
            },
        }
    }
}

impl TallyView {
    /// Of no query at all.
    pub open spec fn nothing() -> TallyView {
        TallyView { latencies: Seq::empty(), failed: 0, first_error: None }
    }

    /// An error is kept just when a query failed.
    pub open spec fn wf(self) -> bool {
        self.first_error is Some <==> self.failed > 0
    }

    /// How many queries were sent.
    pub open spec fn sent(self) -> nat {
        self.latencies.len() + self.failed
    }

    /// Of the queries of `self`, then of those of `other`.
    pub open spec fn and(self, other: TallyView) -> TallyView {
        TallyView {
            latencies: self.latencies + other.latencies,
            failed: self.failed + other.failed,
            first_error: if self.first_error is Some {
                self.first_error
            } else {
                other.first_error
            },
        }
    }

    /// Of one query that was answered after `ms`.
    pub open spec fn answered(ms: u64) -> TallyView {
        TallyView { latencies: seq![ms], failed: 0, first_error: None }
    }

    /// Of one query that failed with `e`.
    pub open spec fn failure(e: Seq<char>) -> TallyView {
        TallyView { latencies: Seq::empty(), failed: 1, first_error: Some(e) }
    }
}

impl Tally {
    /// Of no query at all.
    pub fn new() -> (t: Tally)
        ensures
            t@ == TallyView::nothing(),
    {
        Tally { latencies: Vec::new(), failed: 0, first_error: None }
    }

    /// Counts a query that was answered after `ms`.
    pub fn record_ok(&mut self, ms: u64)
        ensures
            final(self)@ == old(self)@.and(TallyView::answered(ms)),
    {
        self.latencies.push(ms);
        assert(self@.latencies =~= old(self)@.latencies + seq![ms]);
    }

    /// Counts a query that failed with `e`.
    pub fn record_failure(&mut self, e: String)
        requires
            old(self).failed < usize::MAX,
        ensures
            final(self)@ == old(self)@.and(TallyView::failure(e@)),
    {
        self.failed += 1;
        if self.first_error.is_none() {
            self.first_error = Some(e);
        }
        assert(self@.latencies =~= old(self)@.latencies + Seq::empty());
    }

    /// Adds the queries of `other` after its own.
    pub fn absorb(&mut self, other: Tally)
        requires
            old(self).failed + other.failed <= usize::MAX,
        ensures
            final(self)@ == old(self)@.and(other@),
    {
        let Tally { latencies, failed, first_error } = other;
        let mut latencies = latencies;
        self.latencies.append(&mut latencies);
        self.failed += failed;
        if self.first_error.is_none() {
            self.first_error = first_error;
        }
    }
}

/// The report on a run.
#[derive(Debug)]
pub struct Summary {
    pub sent: usize,
    pub ok: usize,
    pub failed: usize,
    /// The latencies in ascending order.
    pub latencies: Vec<u64>,
    pub p50: u64,
    pub p95: u64,
    pub p99: u64,
    pub max: u64,
}

/// Whether `s` is the report on the run that `t` tells of.
pub open spec fn reports(t: TallyView, s: Summary) -> bool {
    &&& s.sent == t.sent()
    &&& s.ok == t.latencies.len()
    &&& s.failed == t.failed
    &&& ascending(s.latencies@)
    &&& s.latencies@.to_multiset() == t.latencies.to_multiset()
    &&& forall|k: int| #[trigger] standing_at(s.latencies@, k) == standing_at(t.latencies, k)
    &&& s.p50 == percentile_of(s.latencies@, 50)
    &&& s.p95 == percentile_of(s.latencies@, 95)
    &&& s.p99 == percentile_of(s.latencies@, 99)
    &&& s.max == max_of(s.latencies@)
}

/// The report on a run.
pub fn summarize(tally: Tally) -> (s: Summary)
    requires
        tally@.sent() <= usize::MAX,
        comparable(tally@.latencies),
    ensures
        reports(tally@, s),
{
    let ok: usize = tally.latencies.len();
    let failed: usize = tally.failed;
    let mut latencies = tally.latencies;
    sort(&mut latencies);
    let p50 = percentile(&latencies, 50);
    let p95 = percentile(&latencies, 95);
    let p99 = percentile(&latencies, 99);
    let max = if latencies.len() == 0 {
        0
    } else {
        latencies[latencies.len() - 1]
    };
    Summary { sent: ok + failed, ok, failed, latencies, p50, p95, p99, max }
}

/// However the queries are shared out among threads, what the threads tell adds
/// up to the same.
pub proof fn tallies_add_up(a: TallyView, b: TallyView, c: TallyView)
    ensures
        a.and(b).and(c) == a.and(b.and(c)),
        a.and(b).sent() == a.sent() + b.sent(),
        TallyView::nothing().and(a) == a,
        a.and(TallyView::nothing()) == a,
{
    assert(a.and(b).and(c).latencies =~= a.and(b.and(c)).latencies);
    assert(TallyView::nothing().and(a).latencies =~= a.latencies);
    assert(a.and(TallyView::nothing()).latencies =~= a.latencies);
}

/// An error is kept just when a query failed: at the start, and after every
/// query that is counted and every tally that is added.
pub proof fn errors_are_kept(a: TallyView, b: TallyView, ms: u64, e: Seq<char>)
    requires
        a.wf(),
        b.wf(),
    ensures
        TallyView::nothing().wf(),
        a.and(TallyView::answered(ms)).wf(),
        a.and(TallyView::failure(e)).wf(),
        a.and(b).wf(),
{
}

/// A larger percentage of the same values gives no smaller percentile.
pub proof fn percentiles_rise_with_the_percentage(sorted: Seq<u64>, p: nat, q: nat)
    requires
        ascending(sorted),
        p <= q,
    ensures
        float_order(percentile_of(sorted, p)) <= float_order(percentile_of(sorted, q)),
{
    let n = sorted.len();
    if n > 0 {
        let way = nearest_double((nearest_double(n, 1) - 1) as nat, 1);
        lemma_nearest_double_rises(p * 0x800_0000_0000_0000, q * 0x800_0000_0000_0000, 100);
        let (a, b) = (share(p), share(q));
        assert(a * way <= b * way) by (nonlinear_arith)
            requires
                a <= b,
        ;
        lemma_nearest_double_rises(a * way, b * way, 1);
    }
}

proof fn lemma_shares()
    ensures
        share(0) == 0,
        share(100) == 0x800_0000_0000_0000,
{
    assert(unit(0) == 1);
    assert(half_even(0, 100) == 0);
    assert(nearest_double(0, 100) == half_even(0, 100 * 1) * 1);
    reveal_with_fuel(unit, 8);
    assert(unit(0x800_0000_0000_0000) == 128);
    let whole: nat = 100 * 0x800_0000_0000_0000;
    assert(whole / 100 == 0x800_0000_0000_0000);
    assert(half_even(whole, 12800) == 0x10_0000_0000_0000);
    assert(nearest_double(whole, 100) == half_even(whole, 100 * 128) * 128);
}

proof fn lemma_whole_way(n: nat)
    requires
        1 <= n <= 0x20_0000_0000_0000,
    ensures
        nearest_double((nearest_double(n, 1) - 1) as nat, 1) == n - 1,
{
    lemma2_to64();
    lemma2_to64_rest();
    lemma_double_is_kept((n - 1) as nat, 0);
    if n < 0x20_0000_0000_0000 {
        lemma_double_is_kept(n, 0);
    } else {
        lemma_double_is_kept(1, 53);
    }
}

/// Nothing of the way leads to the first value. The whole way or more leads to
/// the last, as long as there are no more than 2^53 values.
pub proof fn percentiles_at_the_ends(sorted: Seq<u64>, percent: nat)
    requires
        sorted.len() > 0,
    ensures
        percentile_of(sorted, 0) == sorted.first(),
        percent >= 100 && sorted.len() <= 0x20_0000_0000_0000 ==> percentile_of(sorted, percent)
            == sorted.last(),
{
    let n = sorted.len();
    lemma_nearest_double_is_near(0, 1);
    lemma_shares();
    if percent >= 100 && n <= 0x20_0000_0000_0000 {
        lemma_whole_way(n);
        lemma2_to64_rest();
        lemma_nearest_double_rises(
            100 * 0x800_0000_0000_0000,
            percent * 0x800_0000_0000_0000,
            100,
        );
        let way = (n - 1) as nat;
        lemma_double_is_kept(way, 59);
        let s = share(percent);
        assert(0x800_0000_0000_0000 * way <= s * way) by (nonlinear_arith)
            requires
                0x800_0000_0000_0000 <= s,
        ;
        lemma_nearest_double_rises(way * 0x800_0000_0000_0000, s * way, 1);
    }
}

/// Up to the whole way, a percentile stands at the position nearest to its share
/// of the way, as long as there are no more than 2^45 values.
pub proof fn percentiles_stand_nearest(n: nat, percent: nat)
    requires
        1 <= n <= 0x2000_0000_0000,
        percent <= 100,
    ensures
        -50 <= 100 * rank(n, percent) - percent * (n - 1) <= 50,
{
    let way = (n - 1) as nat;
    let s = share(percent);
    let product = s * way;
    let x = nearest_double(product, 1);
    lemma_whole_way(n);
    if percent == 0 {
        lemma_shares();
    } else {
        lemma_nearest_double_is_near(percent * 0x800_0000_0000_0000, 100);
    }
    assert(-64 * percent <= 100 * s - percent * 0x800_0000_0000_0000 <= 64 * percent);
    lemma_nearest_double_is_near(product, 1);
    let exact = percent * way;
    assert(-64 * exact <= 100 * product - exact * 0x800_0000_0000_0000 <= 64 * exact)
        by (nonlinear_arith)
        requires
            -64 * percent <= 100 * s - percent * 0x800_0000_0000_0000 <= 64 * percent,
            product == s * way,
            exact == percent * way,
    ;
    assert(exact <= 100 * 0x2000_0000_0000) by (nonlinear_arith)
        requires
            exact == percent * way,
            percent <= 100,
            way <= 0x2000_0000_0000,
    ;
    let nearest = (x + 0x400_0000_0000_0000) as nat / 0x800_0000_0000_0000;
    assert(-50 <= 100 * nearest - exact <= 50);
    assert(exact <= 100 * way) by (nonlinear_arith)
        requires
            exact == percent * way,
            percent <= 100,
    ;
}

/// The percentiles of a report rise, up to its maximum, and where a query was
/// answered each of them is the latency of an answer.
pub proof fn percentiles_rise(t: TallyView, s: Summary)
    requires
        reports(t, s),
    ensures
        float_order(s.p50) <= float_order(s.p95) <= float_order(s.p99) <= float_order(s.max),
        t.latencies.len() > 0 ==> t.latencies.contains(s.p50) && t.latencies.contains(s.p95)
            && t.latencies.contains(s.p99) && t.latencies.contains(s.max),
        forall|i: int|
            0 <= i < t.latencies.len() ==> float_order(#[trigger] t.latencies[i]) <= float_order(
                s.max,
            ),
{
    broadcast use vstd::seq_lib::group_to_multiset_ensures;

    let l = s.latencies@;
    percentiles_rise_with_the_percentage(l, 50, 95);
    percentiles_rise_with_the_percentage(l, 95, 99);
    if l.len() > 0 {
        assert(l.to_multiset().count(s.p50) > 0);
        assert(l.to_multiset().count(s.p95) > 0);
        assert(l.to_multiset().count(s.p99) > 0);
        assert(l.to_multiset().count(s.max) > 0);
    }
    assert(l.to_multiset().len() == t.latencies.to_multiset().len());
    assert forall|i: int| 0 <= i < t.latencies.len() implies float_order(
        #[trigger] t.latencies[i],
    ) <= float_order(s.max) by {
        assert(t.latencies.to_multiset().count(t.latencies[i]) > 0);
        assert(l.contains(t.latencies[i]));
    }
}

/// The places of the values of `s`.
pub open spec fn places(s: Seq<u64>) -> Seq<int> {
    s.map_values(|b: u64| float_order(b))
}

proof fn lemma_same_places(a: Seq<u64>, b: Seq<u64>)
    requires
        a.to_multiset() == b.to_multiset(),
    ensures
        places(a).to_multiset() == places(b).to_multiset(),
    decreases a.len(),
{
    broadcast use vstd::seq_lib::group_to_multiset_ensures;

    assert(a.len() == a.to_multiset().len());
    assert(b.len() == b.to_multiset().len());
    if a.len() == 0 {
        assert(places(a) =~= places(b));
    } else {
        let x = a.last();
        assert(a.to_multiset().count(x) > 0);
        assert(b.contains(x));
        let i = b.index_of(x);
        assert(a =~= a.drop_last().push(x));
        assert(a.drop_last().to_multiset() =~= b.remove(i).to_multiset());
        lemma_same_places(a.drop_last(), b.remove(i));
        assert(places(a) =~= places(a.drop_last()).push(float_order(x)));
        assert(places(b.remove(i)) =~= places(b).remove(i));
        assert(places(b)[i] == float_order(x));
        assert(places(b).to_multiset() =~= places(b).remove(i).to_multiset().insert(
            float_order(x),
        ));
    }
}

/// A report does not depend on the order in which the answers came in, but for
/// the sign of a zero.
pub proof fn order_of_answers_is_no_matter(a: TallyView, b: TallyView, s: Summary, t: Summary)
    requires
        a.latencies.to_multiset() == b.latencies.to_multiset(),
        a.failed == b.failed,
        reports(a, s),
        reports(b, t),
    ensures
        places(s.latencies@) == places(t.latencies@),
        s.sent == t.sent,
        s.ok == t.ok,
        float_order(s.p50) == float_order(t.p50),
        float_order(s.p95) == float_order(t.p95),
        float_order(s.p99) == float_order(t.p99),
        float_order(s.max) == float_order(t.max),
{
    broadcast use vstd::seq_lib::group_to_multiset_ensures;

    assert(a.latencies.len() == a.latencies.to_multiset().len());
    assert(b.latencies.len() == b.latencies.to_multiset().len());
    let (x, y) = (places(s.latencies@), places(t.latencies@));
    lemma_same_places(s.latencies@, t.latencies@);
    let leq = |i: int, j: int| i <= j;
    vstd::seq_lib::lemma_sorted_unique(x, y, leq);
    assert(x.len() == y.len());
    if x.len() > 0 {
        assert(x[rank(x.len(), 50)] == y[rank(x.len(), 50)]);
        assert(x[rank(x.len(), 95)] == y[rank(x.len(), 95)]);
        assert(x[rank(x.len(), 99)] == y[rank(x.len(), 99)]);
        assert(x.last() == y.last());
    }
}

/// What the bits `b` of an `f64` without its sign stand for, in units of the
/// smallest `f64` above zero.
pub open spec fn magnitude(b: u64) -> int {
    let fraction = b as int % 0x10_0000_0000_0000;
    let exponent = b as int / 0x10_0000_0000_0000;
    if exponent == 0 {
        fraction
    } else {
        (0x10_0000_0000_0000 + fraction) * pow2((exponent - 1) as nat)
    }
}

/// What the bits `b` of an `f64` stand for, in units of the smallest `f64` above
/// zero.
pub open spec fn value(b: u64) -> int {
    if b < 0x8000_0000_0000_0000 {
        magnitude(b)
    } else {
        -magnitude((b - 0x8000_0000_0000_0000) as u64)
    }
}

proof fn lemma_magnitude_rises(a: u64, b: u64)
    requires
        a < b,
    ensures
        0 <= magnitude(a) < magnitude(b),
{
    let (fa, fb) = (a as int % 0x10_0000_0000_0000, b as int % 0x10_0000_0000_0000);
    let (ea, eb) = (a as int / 0x10_0000_0000_0000, b as int / 0x10_0000_0000_0000);
    if ea > 0 {
        lemma_pow2_pos((ea - 1) as nat);
    }
    if eb > 0 {
        lemma_pow2_pos((eb - 1) as nat);
    }
    if ea == eb {
        if ea > 0 {
            let p = pow2((ea - 1) as nat);
            assert(0 <= (0x10_0000_0000_0000 + fa) * p < (0x10_0000_0000_0000 + fb) * p)
                by (nonlinear_arith)
                requires
                    0 <= fa < fb,
                    p > 0,
            ;
        }
    } else if ea == 0 {
        let p = pow2((eb - 1) as nat);
        assert((0x10_0000_0000_0000 + fb) * p >= 0x10_0000_0000_0000) by (nonlinear_arith)
            requires
                fb >= 0,
                p >= 1,
        ;
    } else {
        let (p, q) = (pow2((ea - 1) as nat), pow2((eb - 1) as nat));
        lemma_pow2_unfold(ea as nat);
        if ea < eb - 1 {
            lemma_pow2_strictly_increases(ea as nat, (eb - 1) as nat);
        }
        assert(0 <= (0x10_0000_0000_0000 + fa) * p < (0x10_0000_0000_0000 + fb) * q)
            by (nonlinear_arith)
            requires
                0 <= fa < 0x10_0000_0000_0000,
                fb >= 0,
                p > 0,
                2 * p <= q,
        ;
    }
}

/// Numbers are put in order by what they stand for, negative ones too, and what
/// is no number is told by its bits: the largest exponent with a fraction.
pub proof fn floats_are_ordered_by_value(a: u64, b: u64)
    ensures
        float_order(a) <= float_order(b) <==> value(a) <= value(b),
        float_order(a) == float_order(b) <==> value(a) == value(b),
        a < 0x8000_0000_0000_0000 && b < 0x8000_0000_0000_0000 ==> (float_order(a) <= float_order(b)
            <==> a <= b),
        a >= 0x8000_0000_0000_0000 && b >= 0x8000_0000_0000_0000 ==> (float_order(a)
            <= float_order(b) <==> a >= b),
        a >= 0x8000_0000_0000_0000 && b < 0x8000_0000_0000_0000 ==> float_order(a) <= float_order(
            b,
        ),
        is_nan(a) <==> a / 0x10_0000_0000_0000 % 0x800 == 0x7ff && a % 0x10_0000_0000_0000 != 0,
{
    let (x, y) = (
        if a < 0x8000_0000_0000_0000 {
            a
        } else {
            (a - 0x8000_0000_0000_0000) as u64
        },
        if b < 0x8000_0000_0000_0000 {
            b
        } else {
            (b - 0x8000_0000_0000_0000) as u64
        },
    );
    if x < y {
        lemma_magnitude_rises(x, y);
    } else if y < x {
        lemma_magnitude_rises(y, x);
    }
    if x > 0 {
        lemma_magnitude_rises(0, x);
    }
    if y > 0 {
        lemma_magnitude_rises(0, y);
    }
}

proof fn lemma_share(percent: nat, s: nat)
    requires
        0x10_0000_0000_0000 <= percent * 0x800_0000_0000_0000 / 100 / 64 < 0x20_0000_0000_0000,
        s % 64 == 0,
        -3200 < 100 * s - percent * 0x800_0000_0000_0000 < 3200,
    ensures
        share(percent) == s,
{
    let num = percent * 0x800_0000_0000_0000;
    let q = num / 100;
    reveal_with_fuel(unit, 8);
    assert(unit(q) == 64);
    let h = s / 64;
    if num >= 6400 * h {
        lemma_fundamental_div_mod_converse(num as int, 6400, h as int, num - 6400 * h);
    } else {
        lemma_fundamental_div_mod_converse(num as int, 6400, h - 1, num - 6400 * (h - 1));
    }
    assert(half_even(num, 100 * 64) == h);
    assert(nearest_double(num, 100) == half_even(num, 100 * unit(q)) * unit(q));
}

/// Among `n` values the 50th, the 95th and the 99th percentile stand just at the
/// position nearest to their part of the way from the first to the last, and at
/// the higher one where two are nearest, as long as there are no more than 2^45
/// values.
pub proof fn reported_positions_are_exact(n: nat)
    requires
        1 <= n <= 0x2000_0000_0000,
    ensures
        rank(n, 50) == (50 * (n - 1) + 50) / 100,
        rank(n, 95) == (95 * (n - 1) + 50) / 100,
        rank(n, 99) == (99 * (n - 1) + 50) / 100,
{
    lemma_share(50, 0x400_0000_0000_0000);
    lemma_share(95, 0x799_9999_9999_9980);
    lemma_share(99, 0x7eb_851e_b851_eb80);
    lemma_exact_position(n, 50, 0x400_0000_0000_0000);
    lemma_exact_position(n, 95, 0x799_9999_9999_9980);
    lemma_exact_position(n, 99, 0x7eb_851e_b851_eb80);
}

proof fn lemma_exact_position(n: nat, percent: nat, s: nat)
    requires
        1 <= n <= 0x2000_0000_0000,
        percent <= 100,
        share(percent) == s,
        0x40_0000_0000_0000 * (percent * 0x800_0000_0000_0000 - 100 * s) < 100 * s,
        s > 0,
    ensures
        rank(n, percent) == (percent * (n - 1) + 50) / 100,
{
    percentiles_stand_nearest(n, percent);
    let way = (n - 1) as nat;
    let exact = percent * way;
    assert(0 <= exact <= 100 * way) by (nonlinear_arith)
        requires
            exact == percent * way,
            percent <= 100,
    ;
    if exact % 100 == 50 {
        let m = exact / 100;
        let x = (2 * m + 1) as nat;
        lemma_whole_way(n);
        lemma2_to64_rest();
        assert(pow2(58) == 0x400_0000_0000_0000);
        let tie = x * pow2(58);
        let product = s * way;
        assert(100 * tie == exact * 0x800_0000_0000_0000);
        assert(0x40_0000_0000_0000 * (tie - product) < product) by (nonlinear_arith)
            requires
                100 * tie == exact * 0x800_0000_0000_0000,
                exact == percent * way,
                product == s * way,
                way > 0,
                0x40_0000_0000_0000 * (percent * 0x800_0000_0000_0000 - 100 * s) < 100 * s,
        ;
        lemma_nearest_double_reaches(product, x, 58);
        assert(rank(n, percent) >= m + 1);
    }
}

/// The percentile at any percentage is one of the values: the first for nothing
/// of the way, the last for all of it or more, and in between the one nearest to
/// its part of the way, as long as there are no more than 2^45 values. Of
/// nothing it is zero.
pub proof fn percentiles_are_values_at_their_positions(sorted: Vec<u64>, percent: u8, v: u64)
    requires
        call_ensures(percentile, (&sorted, percent), v),
        sorted@.len() <= 0x2000_0000_0000,
    ensures
        sorted@.len() == 0 ==> v == 0,
        sorted@.len() > 0 ==> {
            let n = sorted@.len();
            &&& percent == 0 ==> v == sorted@[0]
            &&& percent >= 100 ==> v == sorted@[n - 1]
            &&& percent == 50 || percent == 95 || percent == 99 ==> v == sorted@[(percent * (n - 1)
                + 50) / 100]
            &&& percent <= 100 ==> exists|i: int|
                0 <= i < n && -50 <= 100 * i - percent * (n - 1) <= 50 && v == #[trigger] sorted@[i]
        },
{
    let n = sorted@.len();
    if n > 0 {
        percentiles_at_the_ends(sorted@, percent as nat);
        reported_positions_are_exact(n);
        if percent <= 100 {
            percentiles_stand_nearest(n, percent as nat);
            assert(v == sorted@[rank(n, percent as nat)]);
        }
    }
}

/// The report on a run: every query is counted once, as answered or as failed;
/// the latencies are those of the answers, from the smallest to the largest; the
/// three percentiles are the latencies at the positions nearest to their part of
/// the way, the higher one where two are nearest; and the maximum is the largest
/// of all. Without answers they are zero.
pub proof fn reports_tell_of_the_run(t: Tally, s: Summary)
    requires
        call_ensures(summarize, (t,), s),
        t.latencies@.len() <= 0x2000_0000_0000,
    ensures
        s.sent == t.latencies@.len() + t.failed,
        s.ok == t.latencies@.len(),
        s.failed == t.failed,
        s.latencies@.len() == t.latencies@.len(),
        s.latencies@.to_multiset() == t.latencies@.to_multiset(),
        forall|i: int, j: int|
            0 <= i <= j < s.latencies@.len() ==> value(s.latencies@[i]) <= value(s.latencies@[j]),
        s.ok == 0 ==> s.p50 == 0 && s.p95 == 0 && s.p99 == 0 && s.max == 0,
        s.ok > 0 ==> {
            &&& s.p50 == s.latencies@[(50 * (s.ok - 1) + 50) / 100]
            &&& s.p95 == s.latencies@[(95 * (s.ok - 1) + 50) / 100]
            &&& s.p99 == s.latencies@[(99 * (s.ok - 1) + 50) / 100]
            &&& s.max == s.latencies@[s.ok - 1]
            &&& t.latencies@.contains(s.max)
            &&& forall|i: int|
                0 <= i < t.latencies@.len() ==> value(#[trigger] t.latencies@[i]) <= value(s.max)
        },
{
    broadcast use vstd::seq_lib::group_to_multiset_ensures;

    let l = s.latencies@;
    assert(l.len() == l.to_multiset().len());
    assert(t.latencies@.len() == t.latencies@.to_multiset().len());
    assert forall|i: int, j: int| 0 <= i <= j < l.len() implies value(l[i]) <= value(l[j]) by {
        floats_are_ordered_by_value(l[i], l[j]);
    }
    if l.len() > 0 {
        reported_positions_are_exact(l.len());
        percentiles_rise(t@, s);
        assert forall|i: int| 0 <= i < t.latencies@.len() implies value(
            #[trigger] t.latencies@[i],
        ) <= value(s.max) by {
            floats_are_ordered_by_value(t.latencies@[i], s.max);
        }
    }
}

/// Equal latencies stand in the order in which they came in.
pub proof fn equal_latencies_keep_their_order(t: Tally, s: Summary, v: int)
    requires
        call_ensures(summarize, (t,), s),
    ensures
        s.latencies@.filter(|b: u64| value(b) == v) == t.latencies@.filter(
            |b: u64| value(b) == v,
        ),
{
    let of_value = |b: u64| value(b) == v;
    if exists|b: u64| value(b) == v {
        let w = choose|b: u64| value(b) == v;
        let k = float_order(w);
        let at_place = |b: u64| float_order(b) == k;
        assert(of_value =~= at_place) by {
            assert forall|b: u64| #[trigger] of_value(b) == at_place(b) by {
                floats_are_ordered_by_value(b, w);
            }
        }
        assert(standing_at(s.latencies@, k) == standing_at(t.latencies@, k));
    } else {
        lemma_nothing_is_kept(s.latencies@, of_value);
        lemma_nothing_is_kept(t.latencies@, of_value);
    }
}

proof fn lemma_nothing_is_kept(s: Seq<u64>, p: spec_fn(u64) -> bool)
    requires
        forall|b: u64| !#[trigger] p(b),
    ensures
        s.filter(p) == Seq::<u64>::empty(),
    decreases s.len(),
{
    reveal(Seq::filter);
    if s.len() > 0 {
        lemma_nothing_is_kept(s.drop_last(), p);
    }
}

/// Counting an answer adds its latency after the others and changes nothing
/// else.
pub proof fn answers_are_counted(t: &mut Tally, ms: u64)
    requires
        call_ensures(Tally::record_ok, (t, ms), ()),
    ensures
        final(t).latencies@ == old(t).latencies@.push(ms),
        final(t).failed == old(t).failed,
        final(t).first_error is Some <==> old(t).first_error is Some,
        old(t).first_error matches Some(e) ==> final(t).first_error matches Some(f) ==> f@ == e@,
{
    assert(final(t)@.failed == old(t)@.failed);
    assert(final(t)@.latencies =~= old(t).latencies@.push(ms));
    assert(final(t)@.first_error == old(t)@.first_error);
}

/// Counting a failure keeps its error just when it is the first, and leaves the
/// latencies as they were.
pub proof fn failures_are_counted(t: &mut Tally, e: String)
    requires
        call_ensures(Tally::record_failure, (t, e), ()),
    ensures
        final(t).latencies@ == old(t).latencies@,
        final(t).failed == old(t).failed + 1,
        old(t).first_error is None ==> (final(t).first_error matches Some(f) && f@ == e@),
        old(t).first_error matches Some(o) ==> (final(t).first_error matches Some(f) && f@ == o@),
{
    assert(final(t)@.failed == old(t)@.failed + 1);
    assert(final(t)@.latencies =~= old(t).latencies@);
    assert(final(t)@.first_error is Some);
}

/// What another thread tells is added: its latencies after the others, its
/// failures to theirs, and its error where there was none.
pub proof fn threads_are_added(t: &mut Tally, other: Tally)
    requires
        call_ensures(Tally::absorb, (t, other), ()),
    ensures
        final(t).latencies@ == old(t).latencies@ + other.latencies@,
        final(t).failed == old(t).failed + other.failed,
        old(t).first_error matches Some(o) ==> (final(t).first_error matches Some(f) && f@ == o@),
        old(t).first_error is None ==> {
            &&& final(t).first_error is Some <==> other.first_error is Some
            &&& other.first_error matches Some(o) ==> (final(t).first_error matches Some(f) && f@
                == o@)
        },
{
    assert(final(t)@.failed == old(t)@.failed + other@.failed);
    assert(final(t)@.latencies == old(t)@.latencies + other@.latencies);
    assert(final(t)@.first_error == old(t)@.and(other@).first_error);
}

/// At the start nothing is counted.
pub proof fn nothing_is_counted_at_first(t: Tally)
    requires
        call_ensures(Tally::new, (), t),
    ensures
        t.latencies@.len() == 0,
        t.failed == 0,
        t.first_error is None,
{
    assert(t@.latencies.len() == 0 && t@.failed == 0 && t@.first_error is None);
}

/// Whatever the percentage and however many the values, the position is the
/// share of the way, computed with doubles, and rounded: to the nearest whole
/// position, the higher one where two are nearest, and no further than the last.
pub proof fn positions_are_rounded_shares(n: nat, percent: nat)
    requires
        n >= 1,
    ensures
        ({
            let one: nat = 0x800_0000_0000_0000;
            let share = nearest_double(percent * one, 100);
            let way = nearest_double((nearest_double(n, 1) - 1) as nat, 1);
            let x = nearest_double(share * way, 1);
            let i = rank(n, percent);
            &&& 0 <= i < n
            &&& 2 * x >= (2 * i - 1) * one
            &&& i < n - 1 ==> 2 * x < (2 * i + 1) * one
        }),
{
}

} // verus!
