//! Percentages as the `f64` expression `((part as f64 / whole as f64) * 100.0).round() as i32`
//! computes them, in exact integer arithmetic.
//!
//! Both operations round to the nearest binary64 value (ties to an even
//! significand), `round` rounds halves away from zero and the cast to `i32`
//! saturates. Every `i32` is exact in binary64, and a quotient of two `i32`
//! values with a positive divisor is a normal binary64 number, so the
//! rounding steps below are those of IEEE 754.

use vstd::prelude::*;

verus! {

/// 2 raised to `e`.
pub open spec fn two_pow(e: nat) -> nat
    decreases e,
{
    if e == 0 {
        1
    } else {
        2 * two_pow((e - 1) as nat)
    }
}

/// `n / d` rounded to the nearest integer, halves to the even neighbour.
pub open spec fn round_half_even(n: nat, d: nat) -> nat {
    let q = n / d;
    let r = n % d;
    if 2 * r > d || (2 * r == d && q % 2 == 1) {
        q + 1
    } else {
        q
    }
}

/// Number of binary digits of `n` (0 for 0).
pub open spec fn bit_length(n: nat) -> nat
    decreases n,
{
    if n == 0 {
        0
    } else {
        1 + bit_length(n / 2)
    }
}

/// The least `s >= start` (below 128) with `a * 2^s >= 2^52 * b`: the scale
/// at which `a / b` has a 53-bit significand.
pub open spec fn significand_scale(a: nat, b: nat, start: nat) -> nat
    decreases 128 - start,
{
    if start >= 128 || a * two_pow(start) >= two_pow(52) * b {
        start
    } else {
        significand_scale(a, b, start + 1)
    }
}

/// `a / b * 100`, each step rounded to binary64, then rounded half away
/// from zero: with scale `s`, the quotient is `m / 2^s`, the product is
/// `100 * m / 2^s` rounded to 53 significant bits, i.e. `mm * 2^t / 2^s`.
pub open spec fn magnitude_percent(a: nat, b: nat) -> nat {
    if a == 0 {
        0
    } else {
        let s = significand_scale(a, b, 0);
        let m = round_half_even(a * two_pow(s), b);
        let p = 100 * m;
        let t = (bit_length(p) - 53) as nat;
        let mm = round_half_even(p, two_pow(t));
        (2 * (mm * two_pow(t)) + two_pow(s)) / two_pow(s + 1)
    }
}

/// The value of `((part as f64 / whole as f64) * 100.0).round() as i32`.
pub open spec fn f64_percent(part: int, whole: int) -> int {
    let magnitude = magnitude_percent(
        if part >= 0 {
            part as nat
        } else {
            (-part) as nat
        },
        whole as nat,
    );
    if part >= 0 {
        if magnitude > i32::MAX {
            i32::MAX as int
        } else {
            magnitude as int
        }
    } else {
        if magnitude > 0x8000_0000 {
            i32::MIN as int
        } else {
            -magnitude
        }
    }
}

proof fn lemma_two_pow_pos(e: nat)
    ensures
        two_pow(e) >= 1,
    decreases e,
{
    if e > 0 {
        lemma_two_pow_pos((e - 1) as nat);
    }
}

proof fn lemma_two_pow_mono(e1: nat, e2: nat)
    requires
        e1 <= e2,
    ensures
        two_pow(e1) <= two_pow(e2),
    decreases e2,
{
    if e1 < e2 {
        lemma_two_pow_mono(e1, (e2 - 1) as nat);
    }
}

proof fn lemma_two_pow_add(e1: nat, e2: nat)
    ensures
        two_pow(e1 + e2) == two_pow(e1) * two_pow(e2),
    decreases e2,
{
    if e2 > 0 {
        let k = (e2 - 1) as nat;
        lemma_two_pow_add(e1, k);
        assert(two_pow(e1 + e2) == 2 * two_pow(e1 + k));
        assert(two_pow(e2) == 2 * two_pow(k));
        let x = two_pow(e1);
        let y = two_pow(k);
        assert(x * (2 * y) == 2 * (x * y)) by (nonlinear_arith);
    } else {
        assert(two_pow(0) == 1);
        assert(e1 + e2 == e1);
    }
}

proof fn lemma_two_pow_values()
    ensures
        two_pow(10) == 1024,
        two_pow(52) == 0x10_0000_0000_0000,
        two_pow(53) == 0x20_0000_0000_0000,
        two_pow(58) == 0x400_0000_0000_0000,
        two_pow(63) == 0x8000_0000_0000_0000,
        two_pow(83) == 0x8_0000_0000_0000_0000_0000,
        two_pow(84) == 0x10_0000_0000_0000_0000_0000,
{
    assert(two_pow(1) == 2 && two_pow(10) == 1024 && two_pow(2) == 4 && two_pow(5) == 32 && two_pow(6) == 64) by {
        reveal_with_fuel(two_pow, 11);
    }
    lemma_two_pow_add(10, 10);
    assert(two_pow(20) == 1048576);
    lemma_two_pow_add(20, 20);
    assert(two_pow(40) == 1099511627776);
    lemma_two_pow_add(40, 10);
    assert(two_pow(50) == 1125899906842624);
    lemma_two_pow_add(50, 2);
    assert(two_pow(52) == 4503599627370496);
    lemma_two_pow_add(52, 1);
    assert(two_pow(53) == 9007199254740992);
    lemma_two_pow_add(52, 6);
    assert(two_pow(58) == 288230376151711744);
    lemma_two_pow_add(58, 5);
    assert(two_pow(63) == 9223372036854775808);
    lemma_two_pow_add(63, 20);
    assert(two_pow(83) == 9671406556917033397649408);
    lemma_two_pow_add(83, 1);
    assert(two_pow(84) == 19342813113834066795298816);
}

proof fn lemma_bit_length_lower(n: nat, k: nat)
    requires
        two_pow(k) <= n,
    ensures
        k + 1 <= bit_length(n),
    decreases k,
{
    if k > 0 {
        assert(two_pow((k - 1) as nat) <= n / 2);
        lemma_bit_length_lower(n / 2, (k - 1) as nat);
    }
}

proof fn lemma_bit_length_upper(n: nat, k: nat)
    requires
        n < two_pow(k),
    ensures
        bit_length(n) <= k,
    decreases k,
{
    if n > 0 {
        assert(k > 0);
        assert(n / 2 < two_pow((k - 1) as nat));
        lemma_bit_length_upper(n / 2, (k - 1) as nat);
    }
}

/// A quotient below `bound` rounds to at most `bound`.
proof fn lemma_round_bound(n: nat, d: nat, bound: nat)
    requires
        d > 0,
        n < bound * d,
    ensures
        round_half_even(n, d) <= bound,
{
    let q = n / d;
    let r = n % d;
    assert(n == d * q + r) by {
        vstd::arithmetic::div_mod::lemma_fundamental_div_mod(n as int, d as int);
    }
    assert(q < bound) by (nonlinear_arith)
        requires
            n == d * q + r,
            r >= 0,
            n < bound * d,
            d > 0,
    ;
}

fn round_half_even_exec(n: u128, d: u128) -> (r: u128)
    requires
        d > 0,
        n < u128::MAX,
    ensures
        r == round_half_even(n as nat, d as nat),
{
    let q = n / d;
    let rem = n % d;
    assert(q <= n) by {
        vstd::arithmetic::div_mod::lemma_div_is_ordered_by_denominator(n as int, 1, d as int);
    }
    if rem > d - rem || (rem == d - rem && q % 2 == 1) {
        q + 1
    } else {
        q
    }
}

/// `magnitude_percent(a, b)` for `a <= 2^31` and `1 <= b <= 2^31`.
fn magnitude_percent_exec(a: u128, b: u128) -> (r: u128)
    requires
        a <= 0x8000_0000,
        1 <= b <= 0x8000_0000,
    ensures
        r == magnitude_percent(a as nat, b as nat),
{
    if a == 0 {
        return 0;
    }
    proof {
        lemma_two_pow_values();
    }
    let target: u128 = b * 0x10_0000_0000_0000;
    let mut s: u128 = 0;
    let mut ps: u128 = 1;
    while a * ps < target
        invariant
            1 <= a <= 0x8000_0000,
            1 <= b <= 0x8000_0000,
            target == b * two_pow(52),
            two_pow(52) == 0x10_0000_0000_0000,
            two_pow(84) == 0x10_0000_0000_0000_0000_0000,
            s <= 83,
            ps == two_pow(s as nat),
            significand_scale(a as nat, b as nat, 0) == significand_scale(
                a as nat,
                b as nat,
                s as nat,
            ),
            s == 0 || a * two_pow((s - 1) as nat) < target,
            a * ps <= 0x8000_0000 * 0x10_0000_0000_0000_0000_0000,
        decreases 83 - s,
    {
        assert(ps < 0x8_0000_0000_0000_0000_0000) by (nonlinear_arith)
            requires
                a * ps < target,
                target <= 0x8000_0000 * 0x10_0000_0000_0000,
                a >= 1,
        ;
        if s >= 83 {
            proof {
                lemma_two_pow_mono(83, s as nat);
                reveal_with_fuel(two_pow, 84);
            }
            assert(false);
        }
        proof {
            lemma_two_pow_mono((s + 1) as nat, 84);
        }
        s = s + 1;
        ps = ps * 2;
        assert(a * ps <= 0x8000_0000 * 0x10_0000_0000_0000_0000_0000) by (nonlinear_arith)
            requires
                a <= 0x8000_0000,
                ps <= 0x10_0000_0000_0000_0000_0000,
        ;
    }
    assert(s >= 1);
    proof {
        lemma_two_pow_mono(s as nat, 83);
    }
    let n = a * ps;
    let m = round_half_even_exec(n, b);
    assert(n < 0x20_0000_0000_0000 * b) by (nonlinear_arith)
        requires
            s >= 1,
            ps == 2 * two_pow((s - 1) as nat),
            a * two_pow((s - 1) as nat) < target,
            target == b * 0x10_0000_0000_0000,
            n == a * ps,
    ;
    proof {
        lemma_round_bound(n as nat, b as nat, 0x20_0000_0000_0000);
    }
    assert(m >= 0x10_0000_0000_0000) by {
        let q = (n / b) as int;
        let r = (n % b) as int;
        assert(n == b * q + r) by {
            vstd::arithmetic::div_mod::lemma_fundamental_div_mod(n as int, b as int);
        }
        assert(q >= 0x10_0000_0000_0000) by (nonlinear_arith)
            requires
                n == b * q + r,
                r < b,
                n >= b * 0x10_0000_0000_0000,
                b >= 1,
        ;
    }
    let p = 100 * m;
    proof {
        lemma_bit_length_lower(p as nat, 58);
        lemma_bit_length_upper(p as nat, 63);
    }
    let mut x: u128 = p;
    let mut len: u128 = 0;
    while x > 0
        invariant
            bit_length(p as nat) == len + bit_length(x as nat),
            bit_length(p as nat) <= 63,
        decreases x,
    {
        len = len + 1;
        x = x / 2;
    }
    let t = len - 53;
    let mut pt: u128 = 1;
    let mut i: u128 = 0;
    while i < t
        invariant
            t <= 10,
            i <= t,
            pt == two_pow(i as nat),
            pt <= 1024,
        decreases t - i,
    {
        proof {
            lemma_two_pow_mono((i + 1) as nat, 10);
            lemma_two_pow_values();
        }
        i = i + 1;
        pt = pt * 2;
    }
    proof {
        lemma_two_pow_pos(t as nat);
        lemma_two_pow_add(t as nat, 53);
        lemma_two_pow_upper_for_len(p as nat, len as nat);
    }
    let mm = round_half_even_exec(p, pt);
    proof {
        lemma_round_bound(p as nat, pt as nat, 0x20_0000_0000_0000);
    }
    assert(mm * pt <= 0x20_0000_0000_0000 * 1024) by (nonlinear_arith)
        requires
            mm <= 0x20_0000_0000_0000,
            pt <= 1024,
    ;
    let ps2 = ps * 2;
    let r = (2 * (mm * pt) + ps) / ps2;
    r
}

/// `n` has bit length `len`, so `n < 2^len`.
proof fn lemma_two_pow_upper_for_len(n: nat, len: nat)
    requires
        bit_length(n) == len,
    ensures
        n < two_pow(len),
    decreases n,
{
    if n > 0 {
        lemma_two_pow_upper_for_len(n / 2, (len - 1) as nat);
    }
}

/// The percentage `part` makes of `whole`, computed as
/// `((part as f64 / whole as f64) * 100.0).round() as i32`.
pub fn f64_percent_of(part: i32, whole: i32) -> (r: i32)
    requires
        whole > 0,
    ensures
        r == f64_percent(part as int, whole as int),
{
    let a: u128 = if part >= 0 {
        part as u128
    } else {
        (-(part as i64)) as u128
    };
    let magnitude = magnitude_percent_exec(a, whole as u128);
    if part >= 0 {
        if magnitude > 0x7fff_ffff {
            i32::MAX
        } else {
            magnitude as i32
        }
    } else {
        if magnitude > 0x8000_0000 {
            i32::MIN
        } else {
            (-(magnitude as i64)) as i32
        }
    }
}

/// A quotient of at most `k` rounds to at most `k`.
proof fn lemma_round_at_most(n: nat, d: nat, k: nat)
    requires
        d > 0,
        n <= k * d,
    ensures
        round_half_even(n, d) <= k,
{
    let q = n / d;
    let r = n % d;
    assert(n == d * q + r) by {
        vstd::arithmetic::div_mod::lemma_fundamental_div_mod(n as int, d as int);
    }
    assert(q <= k) by (nonlinear_arith)
        requires
            n == d * q + r,
            r >= 0,
            n <= k * d,
            d > 0,
    ;
    if q == k {
        assert(r == 0) by (nonlinear_arith)
            requires
                n == d * q + r,
                r >= 0,
                n <= k * d,
                q == k,
        ;
    }
}

/// `significand_scale` finds the least scale at which the quotient has 53
/// bits.
proof fn lemma_scale_is(a: nat, b: nat, start: nat, s: nat)
    requires
        start <= s < 128,
        forall|k: nat| start <= k < s ==> a * #[trigger] two_pow(k) < two_pow(52) * b,
        a * two_pow(s) >= two_pow(52) * b,
    ensures
        significand_scale(a, b, start) == s,
    decreases s - start,
{
    if start < s {
        assert(a * two_pow(start) < two_pow(52) * b);
        lemma_scale_is(a, b, start + 1, s);
    }
}

/// The scale of a quotient of at most 1 is at least 52.
proof fn lemma_scale_of_fraction(a: nat, b: nat)
    requires
        1 <= a <= b,
    ensures
        52 <= significand_scale(a, b, 0),
{
    lemma_scale_from_at_least(a, b, 0);
}

proof fn lemma_scale_from_at_least(a: nat, b: nat, start: nat)
    requires
        1 <= a <= b,
        start <= 52,
    ensures
        52 <= significand_scale(a, b, start),
    decreases 52 - start,
{
    lemma_scale_facts(a, b, start);
    if start < 52 {
        lemma_two_pow_mono(start, 51);
        lemma_two_pow_add(51, 1);
        assert(two_pow(1) == 2) by {
            reveal_with_fuel(two_pow, 2);
        }
        lemma_two_pow_pos(start);
        let x = two_pow(start);
        let y = two_pow(51);
        lemma_mul_below_double(a, b, x, y);
        lemma_scale_from_at_least(a, b, start + 1);
    }
}

/// `a * x < 2 * y * b` when `a <= b` and `x <= y`.
proof fn lemma_mul_below_double(a: nat, b: nat, x: nat, y: nat)
    requires
        1 <= a <= b,
        1 <= x <= y,
    ensures
        a * x < (2 * y) * b,
{
    assert(a * x <= b * x) by (nonlinear_arith)
        requires
            a <= b,
    ;
    assert(b * x <= b * y) by (nonlinear_arith)
        requires
            x <= y,
    ;
    assert(b * y >= 1) by (nonlinear_arith)
        requires
            b >= 1,
            y >= 1,
    ;
    assert((2 * y) * b == 2 * (b * y)) by (nonlinear_arith);
}

/// The scale search returns a scale at least where it starts, and, below
/// 128, one that gives the quotient 53 bits.
proof fn lemma_scale_facts(a: nat, b: nat, start: nat)
    ensures
        significand_scale(a, b, start) >= start,
        significand_scale(a, b, start) < 128 ==> a * two_pow(significand_scale(a, b, start))
            >= two_pow(52) * b,
    decreases 128 - start,
{
    if !(start >= 128 || a * two_pow(start) >= two_pow(52) * b) {
        lemma_scale_facts(a, b, start + 1);
    }
}

/// A whole is one hundred percent of itself.
pub proof fn lemma_whole_is_hundred_percent(whole: int)
    requires
        0 < whole <= i32::MAX,
    ensures
        f64_percent(whole, whole) == 100,
{
    let b = whole as nat;
    lemma_two_pow_values();
    assert forall|k: nat| 0 <= k < 52 implies b * #[trigger] two_pow(k) < two_pow(52) * b by {
        lemma_two_pow_mono(k, 51);
        lemma_two_pow_add(51, 1);
        assert(two_pow(1) == 2) by {
            reveal_with_fuel(two_pow, 2);
        }
        lemma_two_pow_pos(k);
        lemma_two_pow_pos(51);
        lemma_mul_below_double(b, b, two_pow(k), two_pow(51));
    }
    assert(b * two_pow(52) >= two_pow(52) * b) by (nonlinear_arith);
    lemma_scale_is(b, b, 0, 52);
    let n = b * two_pow(52);
    assert(n / b == two_pow(52) && n % b == 0) by {
        vstd::arithmetic::div_mod::lemma_fundamental_div_mod_converse(
            n as int,
            b as int,
            two_pow(52) as int,
            0,
        );
    }
    assert(round_half_even(n, b) == two_pow(52));
    let p: nat = 100 * 0x10_0000_0000_0000;
    assert(two_pow(6) == 64) by {
        reveal_with_fuel(two_pow, 7);
    }
    lemma_two_pow_add(52, 6);
    assert(two_pow(58) <= p);
    lemma_bit_length_lower(p, 58);
    lemma_two_pow_add(58, 1);
    lemma_bit_length_upper(p, 59);
    assert(bit_length(p) == 59);
    assert(round_half_even(p, 64) == 100 * 0x4000_0000_0000);
    lemma_two_pow_add(52, 1);
    let num: nat = 2 * (100 * 0x4000_0000_0000 * 64) + 0x10_0000_0000_0000;
    assert(num / 0x20_0000_0000_0000 == 100);
    assert(magnitude_percent(b, b) == 100);
}

/// Part of a whole, when both are not negative and the part is at most the
/// whole, is between zero and one hundred percent.
pub proof fn lemma_share_within_hundred(part: int, whole: int)
    requires
        0 <= part <= whole <= i32::MAX,
        0 < whole,
    ensures
        0 <= f64_percent(part, whole) <= 100,
{
    let a = part as nat;
    let b = whole as nat;
    if a > 0 {
        lemma_two_pow_values();
        let s = significand_scale(a, b, 0);
        lemma_scale_of_fraction(a, b);
        lemma_scale_facts(a, b, 0);
        // the scale search stops below 128 because 2^84 already suffices
        lemma_scale_bounded(a, b, 0);
        let ps = two_pow(s);
        lemma_two_pow_pos(s);
        let n = a * ps;
        assert(n <= 1 * (ps * b)) by (nonlinear_arith)
            requires
                n == a * ps,
                a <= b,
        ;
        assert(n <= ps * b);
        lemma_round_at_most(n, b, ps);
        let m = round_half_even(n, b);
        let p = 100 * m;
        let t = (bit_length(p) - 53) as nat;
        // bounds on the product's bit length
        assert(m <= ps);
        lemma_two_pow_add((s - 52) as nat, 52);
        assert(n >= two_pow(52) * b);
        assert(m >= two_pow(52)) by {
            let q = n / b;
            let r = n % b;
            assert(n == b * q + r) by {
                vstd::arithmetic::div_mod::lemma_fundamental_div_mod(n as int, b as int);
            }
            assert(q >= two_pow(52)) by (nonlinear_arith)
                requires
                    n == b * q + r,
                    r < b,
                    n >= two_pow(52) * b,
                    b >= 1,
            ;
        }
        assert(p >= two_pow(58));
        lemma_bit_length_lower(p, 58);
        lemma_two_pow_add(t, 53);
        lemma_two_pow_upper_for_len(p, bit_length(p));
        // t is at most 7 since p <= 100 * 2^s < 2^(s + 7), and s >= 52
        assert(two_pow(7) == 128) by {
            reveal_with_fuel(two_pow, 8);
        }
        lemma_two_pow_add(s, 7);
        assert(p < two_pow(s + 7)) by (nonlinear_arith)
            requires
                p == 100 * m,
                m <= ps,
                two_pow(s + 7) == ps * 128,
                ps >= 1,
        ;
        lemma_bit_length_upper(p, s + 7);
        let pt = two_pow(t);
        lemma_two_pow_pos(t);
        lemma_two_pow_add(t, (s - t) as nat);
        let k = (100 * two_pow((s - t) as nat)) as nat;
        assert(p <= k * pt) by (nonlinear_arith)
            requires
                p == 100 * m,
                m <= ps,
                ps == pt * two_pow((s - t) as nat),
                k == 100 * two_pow((s - t) as nat),
        ;
        lemma_round_at_most(p, pt, k);
        let mm = round_half_even(p, pt);
        assert(mm * pt <= 100 * ps) by (nonlinear_arith)
            requires
                mm <= k,
                k == 100 * two_pow((s - t) as nat),
                ps == pt * two_pow((s - t) as nat),
                pt >= 1,
        ;
        lemma_two_pow_add(s, 1);
        assert(two_pow(1) == 2) by {
            reveal_with_fuel(two_pow, 2);
        }
        let num = 2 * (mm * pt) + ps;
        let den = two_pow(s + 1);
        assert(num < 101 * den) by (nonlinear_arith)
            requires
                num == 2 * (mm * pt) + ps,
                mm * pt <= 100 * ps,
                den == ps * 2,
                ps >= 1,
        ;
        lemma_round_bound_div(num, den, 101);
    }
}

proof fn lemma_round_bound_div(n: nat, d: nat, bound: nat)
    requires
        d > 0,
        n < bound * d,
    ensures
        n / d < bound,
{
    let q = n / d;
    let r = n % d;
    assert(n == d * q + r) by {
        vstd::arithmetic::div_mod::lemma_fundamental_div_mod(n as int, d as int);
    }
    assert(q < bound) by (nonlinear_arith)
        requires
            n == d * q + r,
            r >= 0,
            n < bound * d,
            d > 0,
    ;
}

proof fn lemma_scale_bounded(a: nat, b: nat, start: nat)
    requires
        1 <= a,
        1 <= b <= 0x8000_0000,
        start <= 84,
        two_pow(84) == 0x10_0000_0000_0000_0000_0000,
        two_pow(52) == 0x10_0000_0000_0000,
    ensures
        significand_scale(a, b, start) <= 84,
    decreases 84 - start,
{
    if start < 84 {
        if a * two_pow(start) < two_pow(52) * b {
            lemma_scale_bounded(a, b, start + 1);
        }
    } else {
        assert(a * two_pow(84) >= two_pow(52) * b) by (nonlinear_arith)
            requires
                1 <= a,
                b <= 0x8000_0000,
                two_pow(84) == 0x10_0000_0000_0000_0000_0000,
                two_pow(52) == 0x10_0000_0000_0000,
        ;
    }
}

/// A part and its opposite make opposite percentages, as long as the
/// percentage is within `i32`.
pub proof fn lemma_percent_of_opposite(part: int, whole: int)
    requires
        0 <= part <= i32::MAX,
        0 < whole,
        f64_percent(part, whole) < i32::MAX,
    ensures
        f64_percent(-part, whole) == -f64_percent(part, whole),
{
}

/// Nothing is zero percent.
pub proof fn lemma_nothing_is_zero_percent(whole: int)
    requires
        0 < whole,
    ensures
        f64_percent(0, whole) == 0,
{
}

} // verus!
