//! Fixed-point scalars.
//!
//! A scalar is an `i64` counting `FX_SCALE`-ths of a simulation unit, so
//! `1_500_000` stands for one and a half units.  Every arithmetic result is
//! clamped into the symmetric range `[FX_MIN, FX_MAX]`; multiplication and
//! division round toward zero.  Square root and base-ten logarithm, which the
//! physics needs for distances and body radii, are computed exactly on the
//! underlying integers.

use vstd::prelude::*;

verus! {

use vstd::arithmetic::div_mod::lemma_fundamental_div_mod;
use vstd::arithmetic::mul::lemma_mul_upper_bound;

/// Number of fixed-point steps in one simulation unit.
pub const FX_SCALE: i64 = 1_000_000;

/// Largest representable scalar.
pub const FX_MAX: i64 = 9_223_372_036_854_775_807;

/// Smallest representable scalar; the range is symmetric so that negation
/// never overflows.
pub const FX_MIN: i64 = -9_223_372_036_854_775_807;

pub open spec fn abs_int(x: int) -> int {
    if x < 0 {
        -x
    } else {
        x
    }
}

/// Clamp a mathematical integer into the representable scalar range.
pub open spec fn clamp_fx(x: int) -> int {
    if x > FX_MAX as int {
        FX_MAX as int
    } else if x < FX_MIN as int {
        FX_MIN as int
    } else {
        x
    }
}

pub open spec fn spec_fx_add(a: int, b: int) -> int {
    clamp_fx(a + b)
}

pub open spec fn spec_fx_sub(a: int, b: int) -> int {
    clamp_fx(a - b)
}

/// Product of two scalars: `a * b / FX_SCALE`, rounded toward zero.
pub open spec fn spec_fx_mul(a: int, b: int) -> int {
    let p = (abs_int(a) * abs_int(b)) / (FX_SCALE as int);
    if (a < 0) != (b < 0) {
        clamp_fx(-p)
    } else {
        clamp_fx(p)
    }
}

/// Quotient of two scalars: `a * FX_SCALE / b`, rounded toward zero.
/// The divisor zero is mapped to zero; callers guard against it.
pub open spec fn spec_fx_div(a: int, b: int) -> int {
    if b == 0 {
        0
    } else {
        let q = (abs_int(a) * (FX_SCALE as int)) / abs_int(b);
        if (a < 0) != (b < 0) {
            clamp_fx(-q)
        } else {
            clamp_fx(q)
        }
    }
}

/// Largest `r` with `r * r <= n`.
pub open spec fn sqrt_floor(n: nat) -> nat
    decreases n,
{
    if n == 0 {
        0
    } else {
        let r = sqrt_floor((n - 1) as nat);
        if (r + 1) * (r + 1) <= n {
            r + 1
        } else {
            r
        }
    }
}

pub proof fn lemma_sqrt_floor_bounds(n: nat)
    ensures
        sqrt_floor(n) * sqrt_floor(n) <= n,
        n < (sqrt_floor(n) + 1) * (sqrt_floor(n) + 1),
    decreases n,
{
    if n > 0 {
        lemma_sqrt_floor_bounds((n - 1) as nat);
        let r = sqrt_floor((n - 1) as nat);
        assert(r * r <= n - 1);
        assert(n - 1 < (r + 1) * (r + 1));
        if (r + 1) * (r + 1) <= n {
            assert(sqrt_floor(n) == r + 1);
            assert(sqrt_floor(n) * sqrt_floor(n) <= n);
            assert(n < (sqrt_floor(n) + 1) * (sqrt_floor(n) + 1)) by (nonlinear_arith)
                requires
                    n <= (r + 1) * (r + 1),
                    sqrt_floor(n) == r + 1,
            ;
        } else {
            assert(sqrt_floor(n) == r);
            assert(sqrt_floor(n) * sqrt_floor(n) <= n);
            assert(n < (sqrt_floor(n) + 1) * (sqrt_floor(n) + 1)) by (nonlinear_arith)
                requires
                    sqrt_floor(n) == r,
                    n < (r + 1) * (r + 1),
            ;
        }
    } else {
        assert(sqrt_floor(n) == 0);
        assert(n < (sqrt_floor(n) + 1) * (sqrt_floor(n) + 1)) by (nonlinear_arith)
            requires
                n == 0,
                sqrt_floor(n) == 0,
        ;
        assert(sqrt_floor(n) * sqrt_floor(n) <= n) by (nonlinear_arith)
            requires
                n == 0,
                sqrt_floor(n) == 0,
        ;
    }
}

pub proof fn lemma_sqrt_floor_unique(n: nat, r: nat)
    requires
        r * r <= n,
        n < (r + 1) * (r + 1),
    ensures
        r == sqrt_floor(n),
{
    lemma_sqrt_floor_bounds(n);
    let s = sqrt_floor(n);
    if r < s {
        lemma_mul_upper_bound(r as int + 1, s as int, r as int + 1, s as int);
        assert(false);
    }
    if s < r {
        lemma_mul_upper_bound(s as int + 1, r as int, s as int + 1, r as int);
        assert(false);
    }
}

/// Square root of a scalar, in scalar units: `sqrt_floor(a * FX_SCALE)`.
/// Non-positive inputs are mapped to zero.
pub open spec fn spec_fx_sqrt(a: int) -> int {
    if a <= 0 {
        0
    } else {
        sqrt_floor((a * (FX_SCALE as int)) as nat) as int
    }
}

pub open spec fn pow10(k: nat) -> nat
    decreases k,
{
    if k == 0 {
        1
    } else {
        10 * pow10((k - 1) as nat)
    }
}

/// Floor of the base-ten logarithm of a positive integer.
pub open spec fn ilog10(q: nat) -> nat
    recommends
        q >= 1,
    decreases q,
{
    if q < 10 {
        0
    } else {
        1 + ilog10(q / 10)
    }
}

pub proof fn lemma_pow10_monotone(j: nat, k: nat)
    requires
        j <= k,
    ensures
        pow10(j) <= pow10(k),
    decreases k,
{
    if j < k {
        lemma_pow10_monotone(j, (k - 1) as nat);
        assert(pow10(k) == 10 * pow10((k - 1) as nat));
    }
}

/// The scalar quotient `a / b` differs from the exact rational quotient by
/// less than one representation step: `|spec_fx_div(a, b) * b - a * FX_SCALE|`
/// is below `b`.  Holds whenever the scaled dividend does not saturate.
pub proof fn lemma_fx_div_remainder(a: int, b: int)
    requires
        b >= 1,
        abs_int(a) * (FX_SCALE as int) <= FX_MAX as int,
    ensures
        abs_int(spec_fx_div(a, b) * b - a * (FX_SCALE as int)) < b,
{
    let s = FX_SCALE as int;
    let ua = abs_int(a);
    let q0 = (ua * s) / b;
    let md = (ua * s) % b;
    lemma_fundamental_div_mod(ua * s, b);
    vstd::arithmetic::div_mod::lemma_mod_bound(ua * s, b);
    vstd::arithmetic::div_mod::lemma_div_pos_is_pos(ua * s, b);
    vstd::arithmetic::div_mod::lemma_div_nonincreasing(ua * s, b);
    assert(ua * s >= 0) by (nonlinear_arith)
        requires
            ua >= 0,
            s >= 0,
    ;
    if a >= 0 {
        assert(spec_fx_div(a, b) == q0);
        assert(abs_int(q0 * b - a * s) < b) by (nonlinear_arith)
            requires
                ua * s == b * q0 + md,
                0 <= md < b,
                a == ua,
        ;
    } else {
        assert(spec_fx_div(a, b) == -q0);
        assert(abs_int((-q0) * b - a * s) < b) by (nonlinear_arith)
            requires
                ua * s == b * q0 + md,
                0 <= md < b,
                a == -ua,
        ;
    }
}

/// A zero dividend gives a zero quotient, whatever the divisor.
pub proof fn lemma_fx_div_zero_dividend(b: int)
    ensures
        spec_fx_div(0, b) == 0,
{
    if b != 0 {
        assert(abs_int(0) * (FX_SCALE as int) == 0) by (nonlinear_arith)
            requires
                abs_int(0) == 0,
        ;
        vstd::arithmetic::div_mod::lemma_div_of0(abs_int(b));
    }
}

/// The scalar product of anything with zero is zero.
pub proof fn lemma_fx_mul_by_zero(q: int)
    ensures
        spec_fx_mul(q, 0) == 0,
        spec_fx_mul(0, q) == 0,
{
    assert(abs_int(q) * abs_int(0) == 0 && abs_int(0) * abs_int(q) == 0) by (nonlinear_arith)
        requires
            abs_int(0) == 0,
    ;
    vstd::arithmetic::div_mod::lemma_div_of0(FX_SCALE as int);
}

/// Saturating sum of two scalars.
pub fn fx_add(a: i64, b: i64) -> (r: i64)
    ensures
        r as int == spec_fx_add(a as int, b as int),
{
    let s: i128 = a as i128 + b as i128;
    if s > FX_MAX as i128 {
        FX_MAX
    } else if s < FX_MIN as i128 {
        FX_MIN
    } else {
        s as i64
    }
}

/// Saturating difference of two scalars.
pub fn fx_sub(a: i64, b: i64) -> (r: i64)
    ensures
        r as int == spec_fx_sub(a as int, b as int),
{
    let s: i128 = a as i128 - b as i128;
    if s > FX_MAX as i128 {
        FX_MAX
    } else if s < FX_MIN as i128 {
        FX_MIN
    } else {
        s as i64
    }
}

/// Magnitude of an `i64`, widened so that `i64::MIN` is representable.
fn abs_u128(a: i64) -> (r: u128)
    ensures
        r as int == abs_int(a as int),
{
    let w: i128 = a as i128;
    if w < 0 {
        (-w) as u128
    } else {
        w as u128
    }
}

/// Sign-and-clamp step shared by multiplication and division: turns a
/// magnitude and a sign into a scalar.
fn fx_signed_clamp(p: u128, neg: bool) -> (r: i64)
    ensures
        r as int == if neg {
            clamp_fx(-(p as int))
        } else {
            clamp_fx(p as int)
        },
{
    if neg {
        if p > FX_MAX as u128 {
            FX_MIN
        } else {
            -(p as i64)
        }
    } else {
        if p > FX_MAX as u128 {
            FX_MAX
        } else {
            p as i64
        }
    }
}

/// Saturating product of two scalars, rounded toward zero.
pub fn fx_mul(a: i64, b: i64) -> (r: i64)
    ensures
        r as int == spec_fx_mul(a as int, b as int),
{
    let ua: u128 = abs_u128(a);
    let ub: u128 = abs_u128(b);
    proof {
        lemma_mul_upper_bound(
            ua as int,
            0x8000_0000_0000_0000,
            ub as int,
            0x8000_0000_0000_0000,
        );
    }
    let p: u128 = ua * ub / (FX_SCALE as u128);
    fx_signed_clamp(p, (a < 0) != (b < 0))
}

/// Saturating quotient of two scalars, rounded toward zero.
pub fn fx_div(a: i64, b: i64) -> (r: i64)
    requires
        b != 0,
    ensures
        r as int == spec_fx_div(a as int, b as int),
{
    let ua: u128 = abs_u128(a);
    let ub: u128 = abs_u128(b);
    proof {
        lemma_mul_upper_bound(ua as int, 0x8000_0000_0000_0000, FX_SCALE as int, FX_SCALE as int);
    }
    let q: u128 = ua * (FX_SCALE as u128) / ub;
    fx_signed_clamp(q, (a < 0) != (b < 0))
}

/// Largest integer whose square is at most `n`, by binary search.
pub fn isqrt_u128(n: u128) -> (r: u128)
    requires
        n <= 170141183460469231731687303715884105728,
    ensures
        r as nat == sqrt_floor(n as nat),
{
    let mut lo: u128 = 0;
    let mut hi: u128 = 14_000_000_000_000_000_000;
    while lo + 1 < hi
        invariant
            (lo as int) * (lo as int) <= n as int,
            (n as int) < (hi as int) * (hi as int),
            lo < hi,
            hi <= 14_000_000_000_000_000_000,
        decreases hi - lo,
    {
        let mid: u128 = lo + (hi - lo) / 2;
        proof {
            lemma_mul_upper_bound(
                mid as int,
                14_000_000_000_000_000_000,
                mid as int,
                14_000_000_000_000_000_000,
            );
        }
        if mid * mid <= n {
            lo = mid;
        } else {
            hi = mid;
        }
    }
    proof {
        lemma_sqrt_floor_unique(n as nat, lo as nat);
    }
    lo
}

/// Square root of a non-negative scalar.
pub fn fx_sqrt(a: i64) -> (r: i64)
    ensures
        r as int == spec_fx_sqrt(a as int),
{
    if a <= 0 {
        return 0;
    }
    proof {
        lemma_mul_upper_bound(a as int, FX_MAX as int, FX_SCALE as int, FX_SCALE as int);
    }
    let n: u128 = (a as u128) * (FX_SCALE as u128);
    let r = isqrt_u128(n);
    proof {
        lemma_sqrt_floor_bounds(n as nat);
        assert(r as int <= 4_000_000_000_000) by (nonlinear_arith)
            requires
                (r as int) * (r as int) <= n as int,
                n as int <= 9_223_372_036_854_775_807 * 1_000_000,
        ;
    }
    r as i64
}

/// The squared length of a vector of two scalars, on the raw integers:
/// no scaling and no rounding, so it is zero only for the zero vector.
pub fn mag2(a: i64, b: i64) -> (r: u128)
    ensures
        r as int == (a as int) * (a as int) + (b as int) * (b as int),
        r <= 170141183460469231731687303715884105728,
{
    let ua: u128 = abs_u128(a);
    let ub: u128 = abs_u128(b);
    proof {
        lemma_mul_upper_bound(
            ua as int,
            0x8000_0000_0000_0000,
            ua as int,
            0x8000_0000_0000_0000,
        );
        lemma_mul_upper_bound(
            ub as int,
            0x8000_0000_0000_0000,
            ub as int,
            0x8000_0000_0000_0000,
        );
        assert((ua as int) * (ua as int) == (a as int) * (a as int)) by (nonlinear_arith)
            requires
                ua as int == a as int || ua as int == -(a as int),
        ;
        assert((ub as int) * (ub as int) == (b as int) * (b as int)) by (nonlinear_arith)
            requires
                ub as int == b as int || ub as int == -(b as int),
        ;
    }
    ua * ua + ub * ub
}

/// Correctness of the floored base-ten logarithm: a positive `q` lies
/// between `10^ilog10(q)` and `10^(ilog10(q) + 1)`.
pub proof fn lemma_ilog10_bounds(q: nat)
    requires
        q >= 1,
    ensures
        pow10(ilog10(q)) <= q,
        q < pow10(ilog10(q) + 1),
    decreases q,
{
    if q < 10 {
        assert(pow10(1) == 10) by {
            reveal_with_fuel(pow10, 2);
        }
    } else {
        lemma_ilog10_bounds(q / 10);
        let k = ilog10(q / 10);
        lemma_fundamental_div_mod(q as int, 10);
        vstd::arithmetic::div_mod::lemma_mod_bound(q as int, 10);
        assert(pow10(k + 1) <= q) by (nonlinear_arith)
            requires
                pow10(k + 1) == 10 * pow10(k),
                pow10(k) <= (q / 10) as nat,
                q as int == 10 * ((q as int) / 10) + (q as int) % 10,
                (q as int) % 10 >= 0,
                (q as int) / 10 == (q / 10) as int,
        ;
        assert(q < pow10(k + 2)) by (nonlinear_arith)
            requires
                pow10(k + 2) == 10 * pow10(k + 1),
                ((q / 10) as nat) + 1 <= pow10(k + 1),
                q as int == 10 * ((q as int) / 10) + (q as int) % 10,
                (q as int) % 10 < 10,
                (q as int) / 10 == (q / 10) as int,
        ;
    }
}

/// A power of ten that fits beside a squared scalar has exponent at most 38.
pub proof fn lemma_pow10_le_bound_sq(k: nat, q: nat)
    requires
        pow10(k) <= q,
        q < 170141183460469231731687303715884105728,
    ensures
        k <= 38,
{
    if k >= 39 {
        lemma_pow10_monotone(39, k);
        assert(pow10(39) == 1000000000000000000000000000000000000000) by {
            reveal_with_fuel(pow10, 40);
        }
    }
}

} // verus!
