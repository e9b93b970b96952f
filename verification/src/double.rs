//! Rounding as double-precision arithmetic does it, on whole numbers.
//!
//! A double has 53 significant bits; a result that needs more is rounded to the
//! nearest double, and to the one with the even last bit where two are nearest.

use vstd::arithmetic::div_mod::{
    lemma_div_denominator, lemma_div_is_ordered, lemma_fundamental_div_mod,
    lemma_fundamental_div_mod_converse, lemma_mod_multiples_basic,
};
use vstd::arithmetic::power2::{lemma2_to64, lemma_pow2_pos, lemma_pow2_unfold, pow2};
use vstd::prelude::*;

verus! {

/// The distance between doubles that are as large as `x`, as far as whole numbers
/// go: the smallest power of two that leaves 53 bits of `x`.
pub open spec fn unit(x: nat) -> nat
    decreases x,
{
    if x < 0x20_0000_0000_0000 {
        1
    } else {
        2 * unit(x / 2)
    }
}

/// The whole number nearest to `num / den`, the even one where two are nearest.
pub open spec fn half_even(num: nat, den: nat) -> nat {
    let below = num / den;
    let rest = num % den;
    if 2 * rest < den || (2 * rest == den && below % 2 == 0) {
        below
    } else {
        below + 1
    }
}

/// The double nearest to `num / den`, where that is a whole number or is at
/// least 2^52, from where on doubles are whole numbers.
pub open spec fn nearest_double(num: nat, den: nat) -> nat {
    half_even(num, den * unit(num / den)) * unit(num / den)
}

proof fn lemma_unit(x: nat)
    ensures
        unit(x) >= 1,
        x / unit(x) < 0x20_0000_0000_0000,
        unit(x) > 1 ==> x / unit(x) >= 0x10_0000_0000_0000,
        unit(x) > 1 <==> x >= 0x20_0000_0000_0000,
    decreases x,
{
    if x >= 0x20_0000_0000_0000 {
        lemma_unit(x / 2);
        let v = unit(x / 2);
        lemma_div_denominator(x as int, 2, v as int);
    }
}

proof fn lemma_unit_rises(x: nat, y: nat)
    requires
        x <= y,
    ensures
        unit(x) == unit(y) || 2 * unit(x) <= unit(y),
    decreases x,
{
    lemma_unit(x);
    lemma_unit(y);
    if x >= 0x20_0000_0000_0000 {
        lemma_unit_rises(x / 2, y / 2);
    } else if y >= 0x20_0000_0000_0000 {
        lemma_unit(y / 2);
    }
}

proof fn lemma_half_even_rises(a: nat, b: nat, den: nat)
    requires
        a <= b,
        den > 0,
    ensures
        half_even(a, den) <= half_even(b, den),
        a / den <= half_even(a, den) <= a / den + 1,
{
    lemma_div_is_ordered(a as int, b as int, den as int);
    lemma_fundamental_div_mod(a as int, den as int);
    lemma_fundamental_div_mod(b as int, den as int);
}

/// A larger quotient is rounded to no smaller double.
pub proof fn lemma_nearest_double_rises(a: nat, b: nat, den: nat)
    requires
        a <= b,
        den > 0,
    ensures
        nearest_double(a, den) <= nearest_double(b, den),
{
    let (x, y) = (a / den, b / den);
    let (u, v) = (unit(x), unit(y));
    lemma_div_is_ordered(a as int, b as int, den as int);
    lemma_unit(x);
    lemma_unit(y);
    lemma_unit_rises(x, y);
    assert(den * u > 0 && den * v > 0) by (nonlinear_arith)
        requires
            den > 0,
            u > 0,
            v > 0,
    ;
    lemma_half_even_rises(a, b, den * u);
    if u == v {
        assert(half_even(a, den * u) * u <= half_even(b, den * u) * u) by (nonlinear_arith)
            requires
                half_even(a, den * u) <= half_even(b, den * u),
                u > 0,
        ;
    } else {
        lemma_half_even_rises(b, b, den * v);
        lemma_div_denominator(a as int, den as int, u as int);
        lemma_div_denominator(b as int, den as int, v as int);
        let (h, k) = (half_even(a, den * u), half_even(b, den * v));
        assert(h <= 0x20_0000_0000_0000);
        assert(k >= 0x10_0000_0000_0000);
        assert(h * u <= k * v) by (nonlinear_arith)
            requires
                h <= 0x20_0000_0000_0000,
                k >= 0x10_0000_0000_0000,
                2 * u <= v,
                u > 0,
        ;
    }
}

/// A quotient is off its double by at most one part in 2^53.
pub proof fn lemma_nearest_double_is_near(num: nat, den: nat)
    requires
        den > 0,
        den == 1 || num / den >= 0x10_0000_0000_0000,
    ensures
        0x20_0000_0000_0000 * (nearest_double(num, den) * den - num) <= num,
        0x20_0000_0000_0000 * (num - nearest_double(num, den) * den) <= num,
{
    let q = num / den;
    let u = unit(q);
    let d = den * u;
    lemma_unit(q);
    assert(d > 0) by (nonlinear_arith)
        requires
            d == den * u,
            den > 0,
            u > 0,
    ;
    lemma_fundamental_div_mod(num as int, d as int);
    lemma_fundamental_div_mod(num as int, den as int);
    let h = half_even(num, d);
    assert(-(d as int) <= 2 * (h * d - num) <= d) by (nonlinear_arith)
        requires
            num == d * (num / d) + num % d,
            0 <= num % d < d,
            h == num / d && 2 * (num % d) <= d || h == num / d + 1 && 2 * (num % d) >= d,
    ;
    assert(h * d == h * u * den) by (nonlinear_arith)
        requires
            d == den * u,
    ;
    if u == 1 && den == 1 {
        assert(h == num);
    } else {
        assert(q >= 0x10_0000_0000_0000 * u) by {
            lemma_fundamental_div_mod(q as int, u as int);
            assert(u == 1 ==> q / u == q) by (nonlinear_arith);
            assert(u * (q / u) >= 0x10_0000_0000_0000 * u) by (nonlinear_arith)
                requires
                    q / u >= 0x10_0000_0000_0000,
                    u > 0,
            ;
        }
        assert(num >= 0x10_0000_0000_0000 * d) by (nonlinear_arith)
            requires
                num >= den * q,
                q >= 0x10_0000_0000_0000 * u,
                d == den * u,
                den > 0,
        ;
    }
}

proof fn lemma_unit_of_shifted(x: nat, k: nat)
    requires
        x < 0x20_0000_0000_0000,
    ensures
        pow2(k) % unit(x * pow2(k)) == 0,
    decreases k,
{
    let y = x * pow2(k);
    lemma_unit(y);
    if y >= 0x20_0000_0000_0000 {
        lemma_pow2_pos(k);
        if k == 0 {
            lemma2_to64();
            assert(y == x);
        } else {
            let half = pow2((k - 1) as nat);
            lemma_pow2_unfold(k);
            assert(y == 2 * (x * half)) by (nonlinear_arith)
                requires
                    y == x * pow2(k),
                    pow2(k) == 2 * half,
            ;
            lemma_unit_of_shifted(x, (k - 1) as nat);
            let v = unit(x * half);
            lemma_unit(x * half);
            lemma_fundamental_div_mod(half as int, v as int);
            lemma_mod_multiples_basic((half / v) as int, 2 * v as int);
            assert(pow2(k) == (half / v) * (2 * v)) by (nonlinear_arith)
                requires
                    pow2(k) == 2 * half,
                    half == v * (half / v),
            ;
        }
    }
}

/// A whole number of at most 53 bits, followed by any number of zero bits, is a
/// double.
pub proof fn lemma_double_is_kept(x: nat, k: nat)
    requires
        x < 0x20_0000_0000_0000,
    ensures
        nearest_double(x * pow2(k), 1) == x * pow2(k),
{
    let y = x * pow2(k);
    let u = unit(y);
    lemma_unit(y);
    lemma_unit_of_shifted(x, k);
    lemma_fundamental_div_mod(pow2(k) as int, u as int);
    let m = pow2(k) / u;
    assert(y == (x * m) * u) by (nonlinear_arith)
        requires
            y == x * pow2(k),
            pow2(k) == u * m,
    ;
    lemma_mod_multiples_basic((x * m) as int, u as int);
    lemma_fundamental_div_mod(y as int, u as int);
    assert((y / u) * u == u * (y / u)) by (nonlinear_arith);
}

/// The double nearest to `num / den`, where that is a whole number or is at
/// least 2^52.
pub fn round_to_double(num: u128, den: u128) -> (r: u128)
    requires
        0 < den <= 100,
        num < 0x4000_0000_0000_0000_0000_0000_0000_0000,
    ensures
        r == nearest_double(num as nat, den as nat),
{
    let mut q: u128 = num / den;
    let mut u: u128 = 1;
    let ghost whole = q;
    while q >= 0x20_0000_0000_0000
        invariant
            whole == num / den,
            0 < den <= 100,
            num < 0x4000_0000_0000_0000_0000_0000_0000_0000,
            u >= 1,
            q == whole / u,
            unit(whole as nat) == u * unit(q as nat),
        decreases q,
    {
        proof {
            lemma_div_denominator(whole as int, u as int, 2);
            lemma_fundamental_div_mod(whole as int, u as int);
            assert(u <= whole) by (nonlinear_arith)
                requires
                    whole == u * q + whole % u,
                    0 <= whole % u,
                    q >= 1,
                    u >= 1,
            ;
            assert(u * (2 * unit((q / 2) as nat)) == (u * 2) * unit((q / 2) as nat))
                by (nonlinear_arith);
        }
        q = q / 2;
        u = u * 2;
    }
    proof {
        assert(u * unit(q as nat) == u) by (nonlinear_arith)
            requires
                unit(q as nat) == 1,
        ;
        lemma_unit(whole as nat);
        lemma_fundamental_div_mod(num as int, den as int);
        lemma_fundamental_div_mod(whole as int, u as int);
        lemma_div_denominator(num as int, den as int, u as int);
        assert(u == 1 || u <= whole) by (nonlinear_arith)
            requires
                whole == u * q + whole % u,
                0 <= whole % u,
                u == 1 || q >= 1,
                u >= 1,
        ;
        assert(u == 1 || den * u <= num) by (nonlinear_arith)
            requires
                u == 1 || u <= whole,
                num >= den * whole,
                den > 0,
        ;
        assert((q + 1) * u <= whole + u) by (nonlinear_arith)
            requires
                whole == u * q + whole % u,
                0 <= whole % u,
        ;
        assert(q * u <= (q + 1) * u) by (nonlinear_arith)
            requires
                u >= 1,
        ;
    }
    let d: u128 = den * u;
    let below: u128 = num / d;
    let rest: u128 = num % d;
    let h: u128 = if 2 * rest < d || (2 * rest == d && below % 2 == 0) {
        below
    } else {
        below + 1
    };
    h * u
}

proof fn lemma_units_divide(x: nat, y: nat)
    requires
        x <= y,
    ensures
        unit(y) % unit(x) == 0,
    decreases y,
{
    lemma_unit(x);
    lemma_unit(y);
    if x < 0x20_0000_0000_0000 {
        assert(unit(x) == 1);
    } else {
        lemma_units_divide(x / 2, y / 2);
        let (u, v) = (unit(x / 2), unit(y / 2));
        lemma_unit(x / 2);
        lemma_fundamental_div_mod(v as int, u as int);
        lemma_mod_multiples_basic((v / u) as int, 2 * u as int);
        assert(2 * v == (v / u) * (2 * u)) by (nonlinear_arith)
            requires
                v == u * (v / u),
        ;
    }
}

/// What lies below a double by less than one part in 2^54 is rounded to no less
/// than that double.
pub proof fn lemma_nearest_double_reaches(num: nat, x: nat, k: nat)
    requires
        x < 0x20_0000_0000_0000,
        0x40_0000_0000_0000 * (x * pow2(k) - num) < num,
    ensures
        nearest_double(num, 1) >= x * pow2(k),
{
    let d = x * pow2(k);
    lemma_double_is_kept(x, k);
    if num >= d {
        lemma_nearest_double_rises(d, num, 1);
    } else {
        let u = unit(num);
        lemma_unit(num);
        lemma_fundamental_div_mod(num as int, u as int);
        assert(num < 0x20_0000_0000_0000 * u) by (nonlinear_arith)
            requires
                num == u * (num / u) + num % u,
                num % u < u,
                num / u < 0x20_0000_0000_0000,
                u > 0,
        ;
        assert(2 * (d - num) < u);
        lemma_unit_of_shifted(x, k);
        lemma_units_divide(num, d);
        let v = unit(d);
        lemma_unit(d);
        lemma_fundamental_div_mod(v as int, u as int);
        lemma_fundamental_div_mod(pow2(k) as int, v as int);
        let t = x * (pow2(k) / v) * (v / u);
        assert(d == t * u) by (nonlinear_arith)
            requires
                d == x * pow2(k),
                pow2(k) == v * (pow2(k) / v),
                v == u * (v / u),
                t == x * (pow2(k) / v) * (v / u),
        ;
        assert(t >= 1) by (nonlinear_arith)
            requires
                d == t * u,
                d > 0,
        ;
        assert(num == (t - 1) * u + (u - (d - num))) by (nonlinear_arith)
            requires
                d == t * u,
        ;
        lemma_fundamental_div_mod_converse(num as int, u as int, t - 1, u - (d - num));
        assert(half_even(num, 1 * u) == t);
    }
}

proof fn lemma_half_even_is_nearest(num: nat, den: nat, t: int)
    requires
        den > 0,
    ensures
        ({
            let h = half_even(num, den);
            let far = |x: int| if x * den >= num {
                x * den - num
            } else {
                num - x * den
            };
            &&& far(h as int) <= far(t)
            &&& t != h && far(h as int) == far(t) ==> h % 2 == 0
        }),
{
    let h = half_even(num, den) as int;
    let b = (num / den) as int;
    let rest = (num % den) as int;
    lemma_fundamental_div_mod(num as int, den as int);
    assert(b * den + rest == num) by (nonlinear_arith)
        requires
            num == den * b + rest,
    ;
    assert((b + 1) * den == b * den + den) by (nonlinear_arith);
    if t <= b - 1 {
        assert(t * den <= b * den - den) by (nonlinear_arith)
            requires
                t <= b - 1,
                den > 0,
        ;
    } else if t >= b + 2 {
        assert(t * den >= b * den + 2 * den) by (nonlinear_arith)
            requires
                t >= b + 2,
                den > 0,
        ;
    }
}

/// The double nearest to a quotient is a double, no other double is nearer, and
/// where another is as near it is the one whose last bit is zero.
pub proof fn nearest_double_is_nearest(num: nat, den: nat, m: nat, k: nat)
    requires
        den > 0,
        den == 1 || num / den >= 0x10_0000_0000_0000,
        m < 0x20_0000_0000_0000,
    ensures
        ({
            let r = nearest_double(num, den);
            let d = m * pow2(k);
            let far = |x: int| if x * den >= num {
                x * den - num
            } else {
                num - x * den
            };
            &&& far(r as int) <= far(d as int)
            &&& d != r && far(r as int) == far(d as int) ==> r / unit(num / den) % 2 == 0
            &&& r % unit(num / den) == 0
            &&& r / unit(num / den) <= 0x20_0000_0000_0000
        }),
{
    let q = num / den;
    let u = unit(q);
    let r = nearest_double(num, den);
    let h = half_even(num, den * u);
    let d = m * pow2(k);
    let w = unit(d);
    lemma_unit(q);
    lemma_unit(d);
    lemma_unit_of_shifted(m, k);
    assert(den * u > 0) by (nonlinear_arith)
        requires
            den > 0,
            u > 0,
    ;
    lemma_half_even_rises(num, num, den * u);
    lemma_div_denominator(num as int, den as int, u as int);
    lemma_mod_multiples_basic(h as int, u as int);
    assert(r == h * u);
    assert(r / u == h) by {
        lemma_fundamental_div_mod_converse(r as int, u as int, h as int, 0);
    }
    assert(h * (den * u) == r * den) by (nonlinear_arith)
        requires
            r == h * u,
    ;
    if q <= d {
        lemma_units_divide(q, d);
    } else {
        lemma_unit_rises(d, q);
    }
    if u == w || q <= d {
        lemma_fundamental_div_mod(w as int, u as int);
        lemma_fundamental_div_mod(pow2(k) as int, w as int);
        assert(u == w ==> w / u == 1) by (nonlinear_arith)
            requires
                u > 0,
        ;
        let t = m * (pow2(k) / w) * (w / u);
        assert(d == t * u) by (nonlinear_arith)
            requires
                d == m * pow2(k),
                pow2(k) == w * (pow2(k) / w),
                w == u * (w / u) || u == w && w / u == 1,
                t == m * (pow2(k) / w) * (w / u),
        ;
        assert(t * (den * u) == d * den) by (nonlinear_arith)
            requires
                d == t * u,
        ;
        lemma_half_even_is_nearest(num, den * u, t as int);
    } else {
        let f = 0x10_0000_0000_0000int;
        assert(2 * w <= u);
        lemma_fundamental_div_mod(d as int, w as int);
        lemma_fundamental_div_mod(q as int, u as int);
        lemma_fundamental_div_mod(num as int, den as int);
        assert(d < f * u) by (nonlinear_arith)
            requires
                d == w * (d / w) + d % w,
                d % w < w,
                d / w < 0x20_0000_0000_0000,
                2 * w <= u,
                f == 0x10_0000_0000_0000,
                w > 0,
        ;
        assert(f * u <= q) by (nonlinear_arith)
            requires
                q == u * (q / u) + q % u,
                q % u >= 0,
                q / u >= f,
                u > 0,
        ;
        assert(d * den < f * (den * u) <= num) by (nonlinear_arith)
            requires
                d < f * u,
                f * u <= q,
                num == den * q + num % den,
                num % den >= 0,
                den > 0,
        ;
        lemma_half_even_is_nearest(num, den * u, f);
    }
}

/// A quotient is rounded to the nearest double.
pub proof fn quotients_are_rounded_to_the_nearest_double(
    num: u128,
    den: u128,
    r: u128,
    m: nat,
    k: nat,
)
    requires
        call_ensures(round_to_double, (num, den), r),
        den > 0,
        den == 1 || num / den >= 0x10_0000_0000_0000,
        m < 0x20_0000_0000_0000,
    ensures
        ({
            let d = m * pow2(k);
            let far = |x: int| if x * den >= num {
                x * den - num
            } else {
                num - x * den
            };
            far(r as int) <= far(d as int)
        }),
{
    nearest_double_is_nearest(num as nat, den as nat, m, k);
}

} // verus!
