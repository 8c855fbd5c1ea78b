//! Binary logarithms in fixed point.
//!
//! A logarithm is a whole number of steps of 2^-16: `log2_q16(c)` stands for
//! `log2(c)` times 65536. The whole part is the position of the highest set
//! bit. Each of the sixteen bits of the fraction comes from squaring the
//! mantissa, which doubles its logarithm: the bit is one exactly when the
//! square reaches two. The squares are cut to 63 binary places, and
//! `lemma_log2_q16_brackets` bounds what the cutting costs: the result is
//! never above the true logarithm and less than two steps below it.

use vstd::prelude::*;
use vstd::arithmetic::power::{lemma_pow1, lemma_pow_adds, lemma_pow_multiplies, pow};
use vstd::arithmetic::power2::{lemma2_to64, lemma2_to64_rest, lemma_pow2_pos, lemma_pow2_unfold, pow2};

verus! {

/// One in the fixed-point format of the logarithms: 2^16.
pub const ONE_Q16: u32 = 65536;

/// `floor(log2(c))`: the position of the highest set bit. Zero for zero.
pub open spec fn floor_log2(c: nat) -> nat
    decreases c,
{
    if c < 2 {
        0
    } else {
        1 + floor_log2(c / 2)
    }
}

/// `c` doubled until it lies in `[2^63, 2^64)`: `c * 2^(63 - floor_log2(c))`.
pub open spec fn mantissa(c: nat) -> nat
    decreases 0x1_0000_0000_0000_0000 - c,
{
    if c == 0 || c >= 0x8000_0000_0000_0000 {
        c
    } else {
        mantissa(2 * c)
    }
}

/// The square of a mantissa with 63 binary places, cut to 63 places again.
pub open spec fn squared(x: nat) -> nat {
    x * x / 0x8000_0000_0000_0000
}

/// A logarithm refined by `bits` more binary places. `x` is the mantissa
/// that is left and `acc` the logarithm found so far, in steps of its last
/// place. Squaring the mantissa doubles what is left of the logarithm; the
/// next bit is one exactly when the square reaches two.
pub open spec fn refine(x: nat, acc: nat, bits: nat) -> nat
    decreases bits,
{
    if bits == 0 {
        acc
    } else {
        let y = squared(x);
        if y >= 0x1_0000_0000_0000_0000 {
            refine(y / 2, 2 * acc + 1, (bits - 1) as nat)
        } else {
            refine(y, 2 * acc, (bits - 1) as nat)
        }
    }
}

/// The binary logarithm of `c` in steps of 2^-16, for `c` from 1 up to
/// `2^64 - 1`. For zero it is zero.
pub open spec fn log2_q16(c: nat) -> nat {
    refine(mantissa(c), floor_log2(c), 16)
}

/// The position of the highest set bit is what the powers of two say it is.
pub proof fn lemma_floor_log2_is(c: nat, k: nat)
    requires
        pow2(k) <= c < pow2(k + 1),
    ensures
        floor_log2(c) == k,
    decreases k,
{
    lemma2_to64();
    if k == 0 {
        lemma_pow2_unfold(1);
    } else {
        lemma_pow2_unfold(k);
        lemma_pow2_unfold(k + 1);
        lemma_floor_log2_is(c / 2, (k - 1) as nat);
    }
}

/// The mantissa lies in `[2^63, 2^64)`, and it is the number scaled by a
/// power of two: `2^floor_log2(c) * mantissa(c) == c * 2^63`.
pub proof fn lemma_mantissa(c: nat)
    requires
        1 <= c < 0x1_0000_0000_0000_0000,
    ensures
        0x8000_0000_0000_0000 <= mantissa(c) < 0x1_0000_0000_0000_0000,
        floor_log2(c) <= 63,
        pow2(floor_log2(c)) * mantissa(c) == c * 0x8000_0000_0000_0000,
    decreases 0x1_0000_0000_0000_0000 - c,
{
    lemma2_to64();
    lemma2_to64_rest();
    if c >= 0x8000_0000_0000_0000 {
        lemma_floor_log2_is(c, 63);
        assert(pow2(63) * c == c * 0x8000_0000_0000_0000) by (nonlinear_arith)
            requires
                pow2(63) == 0x8000_0000_0000_0000,
        ;
    } else {
        lemma_mantissa(2 * c);
        assert(floor_log2(2 * c) == 1 + floor_log2(c)) by {
            assert((2 * c) / 2 == c);
        }
        let e = floor_log2(c);
        lemma_pow2_unfold(e + 1);
        let m = mantissa(c);
        assert(pow2(e) * m == c * 0x8000_0000_0000_0000) by (nonlinear_arith)
            requires
                (2 * pow2(e)) * m == (2 * c) * 0x8000_0000_0000_0000,
        ;
    }
}

/// Refining adds bits below what was found: the result lies in
/// `[acc * 2^bits, (acc + 1) * 2^bits)`.
pub proof fn lemma_refine_range(x: nat, acc: nat, bits: nat)
    ensures
        acc * pow2(bits) <= refine(x, acc, bits) < (acc + 1) * pow2(bits),
    decreases bits,
{
    lemma2_to64();
    if bits == 0 {
        assert(acc * 1 == acc) by (nonlinear_arith);
        assert((acc + 1) * 1 == acc + 1) by (nonlinear_arith);
    } else {
        let y = squared(x);
        let rest = (bits - 1) as nat;
        lemma_pow2_unfold(bits);
        let w = pow2(rest);
        if y >= 0x1_0000_0000_0000_0000 {
            lemma_refine_range(y / 2, 2 * acc + 1, rest);
            assert(acc * (2 * w) <= (2 * acc + 1) * w && (2 * acc + 1 + 1) * w == (acc + 1) * (2
                * w)) by (nonlinear_arith);
        } else {
            lemma_refine_range(y, 2 * acc, rest);
            assert(acc * (2 * w) == (2 * acc) * w && (2 * acc + 1) * w <= (acc + 1) * (2 * w))
                by (nonlinear_arith);
        }
    }
}

/// The whole part of the logarithm is the position of the highest set bit,
/// and the logarithm of a 64-bit number lies below 64.
pub proof fn lemma_log2_q16_whole_part(c: nat)
    requires
        1 <= c < 0x1_0000_0000_0000_0000,
    ensures
        floor_log2(c) * 65536 <= log2_q16(c) < (floor_log2(c) + 1) * 65536,
        log2_q16(c) < 64 * 65536,
{
    lemma2_to64();
    lemma_mantissa(c);
    lemma_refine_range(mantissa(c), floor_log2(c), 16);
}

/// How far the cut mantissa may lie below the true one after `done`
/// squarings, in units of its last place.
pub open spec fn slack(done: nat) -> nat
    decreases done,
{
    if done == 0 {
        1
    } else {
        5 * slack((done - 1) as nat) + 1
    }
}

proof fn lemma_slack_bound(done: nat)
    requires
        done <= 16,
    ensures
        1 <= slack(done) <= 0x100_0000_0000,
        done < 16 ==> slack(done + 1) == 5 * slack(done) + 1,
{
    reveal_with_fuel(slack, 18);
}

/// One squaring. The true value `p` lies between the cut mantissa `x` and
/// `x + d`, both scaled by `e`; then its square lies between the cut square
/// `y` and `y + 5d + 1`, scaled by `e * e`, and the same holds after a
/// halving.
proof fn lemma_square_step(x: nat, d: nat, p: nat, e: nat)
    requires
        0x8000_0000_0000_0000 <= x < 0x1_0000_0000_0000_0000,
        1 <= d <= 0x100_0000_0000,
        e * x <= p * 0x8000_0000_0000_0000,
        p * 0x8000_0000_0000_0000 < e * (x + d),
    ensures
        0x8000_0000_0000_0000 <= squared(x) < 0x2_0000_0000_0000_0000,
        (e * e) * squared(x) <= (p * p) * 0x8000_0000_0000_0000,
        (p * p) * 0x8000_0000_0000_0000 < (e * e) * (squared(x) + 5 * d + 1),
        (2 * (e * e)) * (squared(x) / 2) <= (p * p) * 0x8000_0000_0000_0000,
        (p * p) * 0x8000_0000_0000_0000 < (2 * (e * e)) * (squared(x) / 2 + 5 * d + 1),
{
    let m: nat = 0x8000_0000_0000_0000;
    let sq = x * x;
    let y = sq / m;
    let r = sq % m;
    assert(sq == y * m + r && 0 <= r < m) by {
        vstd::arithmetic::div_mod::lemma_fundamental_div_mod(sq as int, m as int);
        vstd::arithmetic::div_mod::lemma_mod_bound(sq as int, m as int);
        assert(m * y == y * m) by (nonlinear_arith);
    }
    assert(m * m <= sq < 4 * (m * m)) by (nonlinear_arith)
        requires
            m <= x < 2 * m,
            sq == x * x,
    ;
    assert(m <= y < 4 * m) by (nonlinear_arith)
        requires
            sq == y * m + r,
            0 <= r < m,
            m * m <= sq < 4 * (m * m),
            m > 0,
    ;
    let ee = e * e;
    let pp = p * p;
    // the lower side
    assert(ee * sq <= pp * (m * m)) by (nonlinear_arith)
        requires
            e * x <= p * m,
            ee == e * e,
            pp == p * p,
            sq == x * x,
    ;
    assert(ee * y <= pp * m) by (nonlinear_arith)
        requires
            ee * sq <= pp * (m * m),
            sq == y * m + r,
            0 <= r,
            m > 0,
    ;
    // the upper side
    assert(pp * (m * m) < ee * ((x + d) * (x + d))) by (nonlinear_arith)
        requires
            p * m < e * (x + d),
            ee == e * e,
            pp == p * p,
    ;
    assert((x + d) * (x + d) < (y + 5 * d + 1) * m) by (nonlinear_arith)
        requires
            sq == x * x,
            sq == y * m + r,
            r < m,
            x < 2 * m,
            1 <= d <= m,
    ;
    assert(pp * m < ee * (y + 5 * d + 1)) by (nonlinear_arith)
        requires
            pp * (m * m) < ee * ((x + d) * (x + d)),
            (x + d) * (x + d) < (y + 5 * d + 1) * m,
            m > 0,
    ;
    // after a halving
    let h = y / 2;
    assert((2 * ee) * h <= ee * y) by (nonlinear_arith)
        requires
            2 * h <= y,
    ;
    assert(ee * (y + 5 * d + 1) <= (2 * ee) * (h + 5 * d + 1)) by (nonlinear_arith)
        requires
            y <= 2 * h + 1,
            d >= 1,
    ;
}

/// What refining does to brackets. If the true value `p` lies between the
/// mantissa `x` and `x + slack`, scaled by `2^acc`, then after `bits` more
/// squarings the refined logarithm `r` brackets the power: `2^r <= p^(2^bits)
/// < 2^(r + 2)`.
proof fn lemma_refine_brackets(x: nat, p: nat, acc: nat, bits: nat)
    requires
        bits <= 16,
        0x8000_0000_0000_0000 <= x < 0x1_0000_0000_0000_0000,
        pow2(acc) * x <= p * 0x8000_0000_0000_0000,
        p * 0x8000_0000_0000_0000 < pow2(acc) * (x + slack((16 - bits) as nat)),
    ensures
        pow2(refine(x, acc, bits)) <= pow(p as int, pow2(bits)),
        pow(p as int, pow2(bits)) < pow2(refine(x, acc, bits) + 2),
    decreases bits,
{
    let m: nat = 0x8000_0000_0000_0000;
    let d = slack((16 - bits) as nat);
    let e = pow2(acc);
    lemma_slack_bound((16 - bits) as nat);
    lemma2_to64();
    lemma_pow2_pos(acc);
    if bits == 0 {
        lemma_pow1(p as int);
        assert(e <= p) by (nonlinear_arith)
            requires
                e * x <= p * m,
                m <= x,
                m > 0,
        ;
        lemma_pow2_unfold(acc + 1);
        lemma_pow2_unfold(acc + 2);
        assert(p < 4 * e) by (nonlinear_arith)
            requires
                p * m < e * (x + d),
                x < 2 * m,
                d <= m,
                m > 0,
        ;
    } else {
        let rest = (bits - 1) as nat;
        let y = squared(x);
        lemma_square_step(x, d, p, e);
        // 2^(2 acc) is the square of 2^acc
        vstd::arithmetic::power2::lemma_pow2_adds(acc, acc);
        assert(pow2(2 * acc) == e * e);
        lemma_pow2_unfold(2 * acc + 1);
        // the square of p, raised to 2^(bits - 1), is p raised to 2^bits
        lemma_pow2_unfold(bits);
        assert(pow(p as int, 2) == p * p) by {
            lemma_pow_adds(p as int, 1, 1);
            lemma_pow1(p as int);
        }
        lemma_pow_multiplies(p as int, 2, pow2(rest));
        assert(pow((p * p) as int, pow2(rest)) == pow(p as int, pow2(bits)));
        assert(slack((16 - rest) as nat) == 5 * d + 1);
        if y >= 0x1_0000_0000_0000_0000 {
            lemma_refine_brackets(y / 2, p * p, 2 * acc + 1, rest);
        } else {
            lemma_refine_brackets(y, p * p, 2 * acc, rest);
        }
    }
}

/// How close the logarithm is: `2^l <= c^65536 < 2^(l + 2)` for `l =
/// log2_q16(c)`. In other words `l / 65536` is never above `log2(c)` and
/// less than two steps of 2^-16 below it.
pub proof fn lemma_log2_q16_brackets(c: nat)
    requires
        1 <= c < 0x1_0000_0000_0000_0000,
    ensures
        pow2(log2_q16(c)) <= pow(c as int, 65536),
        pow(c as int, 65536) < pow2(log2_q16(c) + 2),
{
    lemma2_to64();
    lemma_mantissa(c);
    let x = mantissa(c);
    let e = pow2(floor_log2(c));
    lemma_pow2_pos(floor_log2(c));
    assert(c * 0x8000_0000_0000_0000 < e * (x + slack(0))) by (nonlinear_arith)
        requires
            e * x == c * 0x8000_0000_0000_0000,
            slack(0) == 1,
            e > 0,
    ;
    lemma_refine_brackets(x, c, floor_log2(c), 16);
}

/// Below a power of two, the highest set bit lies below its exponent.
proof fn lemma_floor_log2_below(c: nat, k: nat)
    requires
        c < pow2(k),
        k >= 1,
    ensures
        floor_log2(c) < k,
    decreases k,
{
    lemma2_to64();
    if c >= 2 {
        lemma_pow2_unfold(k);
        if k == 1 {
        } else {
            lemma_floor_log2_below(c / 2, (k - 1) as nat);
        }
    }
}

/// Doubling a number adds one to its logarithm and leaves the mantissa.
pub proof fn lemma_log2_q16_of_double(c: nat)
    requires
        1 <= c < 0x8000_0000_0000_0000,
    ensures
        log2_q16(2 * c) == log2_q16(c) + 65536,
{
    assert(floor_log2(2 * c) == 1 + floor_log2(c)) by {
        assert((2 * c) / 2 == c);
    }
    assert(mantissa(2 * c) == mantissa(c));
    lemma_refine_shift(mantissa(c), floor_log2(c), 16);
    lemma2_to64();
}

/// A logarithm that starts one higher ends `2^bits` higher.
proof fn lemma_refine_shift(x: nat, acc: nat, bits: nat)
    ensures
        refine(x, acc + 1, bits) == refine(x, acc, bits) + pow2(bits),
    decreases bits,
{
    lemma2_to64();
    if bits > 0 {
        let y = squared(x);
        let rest = (bits - 1) as nat;
        lemma_pow2_unfold(bits);
        if y >= 0x1_0000_0000_0000_0000 {
            lemma_refine_shift(y / 2, 2 * acc + 2, rest);
            lemma_refine_shift(y / 2, 2 * acc + 1, rest);
        } else {
            lemma_refine_shift(y, 2 * acc + 1, rest);
            lemma_refine_shift(y, 2 * acc, rest);
        }
    }
}

/// A mantissa of exactly one has no fraction.
proof fn lemma_refine_of_one(acc: nat, bits: nat)
    ensures
        refine(0x8000_0000_0000_0000, acc, bits) == acc * pow2(bits),
    decreases bits,
{
    lemma2_to64();
    if bits == 0 {
        assert(acc * 1 == acc) by (nonlinear_arith);
    } else {
        let rest = (bits - 1) as nat;
        assert(squared(0x8000_0000_0000_0000) == 0x8000_0000_0000_0000) by (nonlinear_arith);
        lemma_refine_of_one(2 * acc, rest);
        lemma_pow2_unfold(bits);
        assert((2 * acc) * pow2(rest) == acc * (2 * pow2(rest))) by (nonlinear_arith);
    }
}

/// The logarithm of a power of two is exact: `log2_q16(2^k) == k * 65536`.
pub proof fn lemma_log2_q16_of_power_of_two(k: nat)
    requires
        k <= 63,
    ensures
        log2_q16(pow2(k)) == k * 65536,
{
    lemma2_to64();
    lemma2_to64_rest();
    let c = pow2(k);
    lemma_pow2_pos(k);
    assert(c < 0x1_0000_0000_0000_0000) by {
        if k < 63 {
            vstd::arithmetic::power2::lemma_pow2_strictly_increases(k, 63);
        }
    }
    lemma_pow2_unfold(k + 1);
    lemma_floor_log2_is(c, k);
    lemma_mantissa(c);
    assert(mantissa(c) == 0x8000_0000_0000_0000) by (nonlinear_arith)
        requires
            c * mantissa(c) == c * 0x8000_0000_0000_0000,
            c > 0,
    ;
    lemma_refine_of_one(k, 16);
}

/// A larger mantissa never refines to a smaller logarithm.
proof fn lemma_refine_monotone(low: nat, high: nat, acc: nat, bits: nat)
    requires
        low <= high,
    ensures
        refine(low, acc, bits) <= refine(high, acc, bits),
    decreases bits,
{
    if bits > 0 {
        let rest = (bits - 1) as nat;
        let y_low = squared(low);
        let y_high = squared(high);
        assert(y_low <= y_high) by {
            assert(low * low <= high * high) by (nonlinear_arith)
                requires
                    low <= high,
            ;
            vstd::arithmetic::div_mod::lemma_div_is_ordered(
                (low * low) as int,
                (high * high) as int,
                0x8000_0000_0000_0000,
            );
        }
        if y_low >= 0x1_0000_0000_0000_0000 {
            lemma_refine_monotone(y_low / 2, y_high / 2, 2 * acc + 1, rest);
        } else if y_high >= 0x1_0000_0000_0000_0000 {
            lemma_refine_range(y_low, 2 * acc, rest);
            lemma_refine_range(y_high / 2, 2 * acc + 1, rest);
        } else {
            lemma_refine_monotone(y_low, y_high, 2 * acc, rest);
        }
    }
}

/// A larger number never has a lower highest bit.
proof fn lemma_floor_log2_monotone(low: nat, high: nat)
    requires
        low <= high,
    ensures
        floor_log2(low) <= floor_log2(high),
    decreases high,
{
    if low >= 2 {
        lemma_floor_log2_monotone(low / 2, high / 2);
    }
}

/// The logarithm never decreases: `a <= b` gives `log2_q16(a) <= log2_q16(b)`.
pub proof fn lemma_log2_q16_monotone(a: nat, b: nat)
    requires
        1 <= a <= b < 0x1_0000_0000_0000_0000,
    ensures
        log2_q16(a) <= log2_q16(b),
{
    lemma_floor_log2_monotone(a, b);
    lemma_mantissa(a);
    lemma_mantissa(b);
    lemma_log2_q16_whole_part(a);
    lemma_log2_q16_whole_part(b);
    let e = floor_log2(a);
    if e == floor_log2(b) {
        lemma_pow2_pos(e);
        assert(mantissa(a) <= mantissa(b)) by (nonlinear_arith)
            requires
                pow2(e) * mantissa(a) == a * 0x8000_0000_0000_0000,
                pow2(e) * mantissa(b) == b * 0x8000_0000_0000_0000,
                a <= b,
                pow2(e) > 0,
        ;
        lemma_refine_monotone(mantissa(a), mantissa(b), e, 16);
    } else {
        assert((e + 1) * 65536 <= floor_log2(b) * 65536) by (nonlinear_arith)
            requires
                e + 1 <= floor_log2(b),
        ;
    }
}

/// Zero has no mantissa to refine: whatever was found so far only shifts.
proof fn lemma_refine_of_zero(acc: nat, bits: nat)
    ensures
        refine(0, acc, bits) == acc * pow2(bits),
    decreases bits,
{
    lemma2_to64();
    if bits == 0 {
        assert(acc * 1 == acc) by (nonlinear_arith);
    } else {
        let rest = (bits - 1) as nat;
        assert(squared(0) == 0) by (nonlinear_arith);
        lemma_refine_of_zero(2 * acc, rest);
        lemma_pow2_unfold(bits);
        assert((2 * acc) * pow2(rest) == acc * (2 * pow2(rest))) by (nonlinear_arith);
    }
}

/// The binary logarithm of `c` in steps of 2^-16. Zero, which has no
/// logarithm, gives zero.
pub fn log2_q16_of(c: u64) -> (l: u32)
    ensures
        l == log2_q16(c as nat),
        l < 64 * 65536,
{
    if c == 0 {
        proof {
            lemma_refine_of_zero(0, 16);
            assert(0 * pow2(16) == 0) by (nonlinear_arith);
        }
        return 0;
    }
    proof {
        lemma2_to64();
        lemma2_to64_rest();
        lemma_mantissa(c as nat);
        lemma_log2_q16_whole_part(c as nat);
    }
    // bring the number into [2^63, 2^64) and count the doublings down from 63
    let mut x: u64 = c;
    let mut whole: u32 = 63;
    while x < 0x8000_0000_0000_0000
        invariant
            x >= 1,
            whole <= 63,
            mantissa(x as nat) == mantissa(c as nat),
            floor_log2(x as nat) == floor_log2(c as nat) + (63 - whole),
        decreases whole,
    {
        proof {
            lemma2_to64_rest();
            lemma_floor_log2_below(x as nat, 63);
            assert((2 * x) / 2 == x);
        }
        x = 2 * x;
        whole = whole - 1;
    }
    proof {
        lemma2_to64();
        lemma2_to64_rest();
        lemma_floor_log2_is(x as nat, 63);
    }
    let mut acc: u32 = whole;
    let mut bits: u32 = 16;
    while bits > 0
        invariant
            bits <= 16,
            0x8000_0000_0000_0000 <= x,
            refine(x as nat, acc as nat, bits as nat) == log2_q16(c as nat),
            log2_q16(c as nat) < 64 * 65536,
        decreases bits,
    {
        proof {
            lemma_refine_range(x as nat, acc as nat, bits as nat);
            lemma_pow2_pos(bits as nat);
            assert(acc < 64 * 65536) by (nonlinear_arith)
                requires
                    acc * pow2(bits as nat) < 64 * 65536,
                    pow2(bits as nat) >= 1,
            ;
            assert(x * x <= u128::MAX) by (nonlinear_arith)
                requires
                    x <= 0xffff_ffff_ffff_ffff,
            ;
            assert(0x8000_0000_0000_0000 * 0x8000_0000_0000_0000 <= x * x) by (nonlinear_arith)
                requires
                    0x8000_0000_0000_0000 <= x,
            ;
            assert(x * x < 0x1_0000_0000_0000_0000 * 0x1_0000_0000_0000_0000) by (nonlinear_arith)
                requires
                    x < 0x1_0000_0000_0000_0000,
            ;
        }
        let y: u128 = (x as u128 * x as u128) / 0x8000_0000_0000_0000;
        assert(y == squared(x as nat));
        if y >= 0x1_0000_0000_0000_0000 {
            x = (y / 2) as u64;
            acc = 2 * acc + 1;
        } else {
            x = y as u64;
            acc = 2 * acc;
        }
        bits = bits - 1;
    }
    acc
}

} // verus!
