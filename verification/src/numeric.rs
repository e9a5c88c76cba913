//! Fixed-point arithmetic helpers: truncating division, integer square
//! root, and a rational approximation of the sine wave, all exact over
//! the integers so that every result is pinned down by its contract.

use vstd::prelude::*;

verus! {

/// One unit in fixed-point values: all signal magnitudes, phasor
/// components and activity levels are integers counting 1/SCALE-ths.
pub const SCALE: i64 = 1_000_000;

/// Phase values count billionths of a full turn of the phasor.
pub const PHASE_UNITS_PER_TURN: u64 = 1_000_000_000;

/// Half a turn, in phase units.
pub const HALF_TURN: u64 = 500_000_000;

/// A quarter turn, in phase units.
pub const QUARTER_TURN: u64 = 250_000_000;

/// Division that truncates toward zero (the behaviour of `/` on
/// machine integers), as a function on mathematical integers.
pub open spec fn div_trunc_spec(a: int, b: int) -> int {
    if a >= 0 {
        a / b
    } else {
        -((-a) / b)
    }
}

/// Truncating division of i64 values with a positive divisor.
pub fn div_trunc(a: i64, b: i64) -> (r: i64)
    requires
        b >= 1,
        a > i64::MIN,
    ensures
        r == div_trunc_spec(a as int, b as int),
{
    if a >= 0 {
        ((a as u64) / (b as u64)) as i64
    } else {
        let m: u64 = ((-a) as u64) / (b as u64);
        -(m as i64)
    }
}

/// The magnitude of a truncated quotient never exceeds the magnitude
/// bound of the dividend divided by the divisor.
pub proof fn lemma_div_trunc_bound(a: int, b: int, m: int)
    requires
        b >= 1,
        m >= 0,
        -m <= a <= m,
    ensures
        -(m / b) <= div_trunc_spec(a, b) <= m / b,
{
    if a >= 0 {
        vstd::arithmetic::div_mod::lemma_div_is_ordered(a, m, b);
        vstd::arithmetic::div_mod::lemma_div_pos_is_pos(a, b);
    } else {
        vstd::arithmetic::div_mod::lemma_div_is_ordered(-a, m, b);
        vstd::arithmetic::div_mod::lemma_div_pos_is_pos(-a, b);
    }
}

/// Integer square root, characterized exactly: the greatest r with
/// r * r <= n.
pub open spec fn isqrt_spec(n: nat) -> nat
    decreases n,
{
    if n == 0 {
        0
    } else {
        let r = isqrt_spec((n - 1) as nat);
        if (r + 1) * (r + 1) <= n {
            r + 1
        } else {
            r
        }
    }
}

/// Products of values bounded above stay below the product of the
/// bounds.
pub proof fn lemma_mul_le(a: int, b: int, ma: int, mb: int)
    requires
        0 <= a <= ma,
        0 <= b <= mb,
    ensures
        a * b <= ma * mb,
{
    assert(a * b <= ma * mb) by (nonlinear_arith)
        requires 0 <= a <= ma, 0 <= b <= mb
    ;
}

/// A product of values bounded in magnitude is bounded in magnitude
/// by the product of the bounds.
pub proof fn lemma_mul_abs_le(a: int, b: int, ma: int, mb: int)
    requires
        -ma <= a <= ma,
        -mb <= b <= mb,
    ensures
        -(ma * mb) <= a * b <= ma * mb,
{
    assert(-(ma * mb) <= a * b <= ma * mb) by (nonlinear_arith)
        requires
            -ma <= a <= ma,
            -mb <= b <= mb,
    ;
}

/// Products of values bounded in magnitude by 10^15 are bounded in
/// magnitude by 10^30.
pub proof fn lemma_mul_abs_le_e15(a: int, b: int)
    requires
        -1_000_000_000_000_000 <= a <= 1_000_000_000_000_000,
        -1_000_000_000_000_000 <= b <= 1_000_000_000_000_000,
    ensures
        -1_000_000_000_000_000_000_000_000_000_000 <= a * b
            <= 1_000_000_000_000_000_000_000_000_000_000,
{
    assert(-1_000_000_000_000_000_000_000_000_000_000 <= a * b
        <= 1_000_000_000_000_000_000_000_000_000_000) by (nonlinear_arith)
        requires
            -1_000_000_000_000_000 <= a <= 1_000_000_000_000_000,
            -1_000_000_000_000_000 <= b <= 1_000_000_000_000_000,
    ;
}

pub proof fn lemma_isqrt_spec_bounds(n: nat)
    ensures
        isqrt_spec(n) * isqrt_spec(n) <= n,
        n < (isqrt_spec(n) + 1) * (isqrt_spec(n) + 1),
    decreases n,
{
    let s = isqrt_spec(n);
    if n == 0 {
        assert(s == 0);
        assert(n < (s + 1) * (s + 1)) by (nonlinear_arith)
            requires
                n == 0,
                s == 0,
        ;
    } else {
        lemma_isqrt_spec_bounds((n - 1) as nat);
        let r = isqrt_spec((n - 1) as nat);
        if (r + 1) * (r + 1) <= n {
            assert(s == r + 1);
            // the induction hypothesis pins n down to exactly s * s here
            assert(n <= s * s);
            assert(n < (s + 1) * (s + 1)) by (nonlinear_arith)
                requires
                    s >= 0,
                    n <= s * s,
            ;
        } else {
            assert(s == r);
        }
    }
}

/// Any value meeting the square-root characterization is the one
/// `isqrt_spec` denotes.
pub proof fn lemma_isqrt_unique(n: nat, r: nat)
    requires
        r * r <= n,
        n < (r + 1) * (r + 1),
    ensures
        r == isqrt_spec(n),
{
    let s = isqrt_spec(n);
    lemma_isqrt_spec_bounds(n);
    if r < s {
        assert((r + 1) * (r + 1) <= s * s) by (nonlinear_arith)
            requires r < s
        ;
    }
    if s < r {
        assert((s + 1) * (s + 1) <= r * r) by (nonlinear_arith)
            requires s < r
        ;
    }
}

/// Integer square root of a u64, by binary search.
pub fn isqrt(n: u64) -> (r: u64)
    ensures
        r == isqrt_spec(n as nat),
{
    let mut lo: u64 = 0;
    let mut hi: u64 = 0x1_0000_0000;
    proof {
        assert((0x1_0000_0000 as int) * (0x1_0000_0000 as int) > u64::MAX);
    }
    while lo + 1 < hi
        invariant
            lo < hi <= 0x1_0000_0000u64,
            (lo as int) * (lo as int) <= n as int,
            (n as int) < (hi as int) * (hi as int),
        decreases hi - lo,
    {
        let mid: u64 = lo + (hi - lo) / 2;
        proof {
            lemma_mul_le(mid as int, mid as int, 0x1_0000_0000, 0x1_0000_0000);
        }
        if (mid as u128) * (mid as u128) <= n as u128 {
            lo = mid;
        } else {
            hi = mid;
        }
    }
    proof {
        lemma_isqrt_unique(n as nat, lo as nat);
    }
    lo
}

/// Half a sine wave over [0, HALF_TURN] in phase units, scaled to
/// SCALE: the classical rational approximation
/// 16 p (H - p) / (5 H^2 - 4 p (H - p)), exact over the integers.
pub open spec fn half_wave_spec(p: int) -> int {
    (16 * p * (HALF_TURN - p) * SCALE) / (5 * (HALF_TURN as int) * (HALF_TURN as int) - 4 * p * (
    HALF_TURN - p))
}

/// Fixed-point sine of a phase within one turn: the first half turn is
/// the positive half wave, the second its negation.
pub open spec fn sin_fp_spec(phase: int) -> int {
    if phase < HALF_TURN {
        half_wave_spec(phase)
    } else {
        -half_wave_spec(phase - HALF_TURN)
    }
}

/// Fixed-point cosine: the sine a quarter turn ahead.
pub open spec fn cos_fp_spec(phase: int) -> int {
    sin_fp_spec((phase + QUARTER_TURN) % (PHASE_UNITS_PER_TURN as int))
}

fn half_wave(p: u64) -> (r: i64)
    requires
        p <= HALF_TURN,
    ensures
        r == half_wave_spec(p as int),
        0 <= r <= SCALE,
{
    let h: u128 = HALF_TURN as u128;
    proof {
        lemma_mul_le(p as int, HALF_TURN - p, HALF_TURN as int, HALF_TURN as int);
    }
    let q: u128 = (p as u128) * ((HALF_TURN - p) as u128);
    proof {
        assert(4 * (q as int) <= (HALF_TURN as int) * (HALF_TURN as int)) by (nonlinear_arith)
            requires
                0 <= p <= HALF_TURN,
                q == (p as int) * (HALF_TURN - p),
        ;
    }
    let num: u128 = 16 * q * (SCALE as u128);
    let den: u128 = 5 * h * h - 4 * q;
    let r: u64 = (num / den) as u64;
    proof {
        assert(num <= den * (SCALE as u128)) by (nonlinear_arith)
            requires
                num == 16 * q * (SCALE as u128),
                den == 5 * (HALF_TURN as u128) * (HALF_TURN as u128) - 4 * q,
                4 * q <= (HALF_TURN as u128) * (HALF_TURN as u128),
                q >= 0,
        ;
        vstd::arithmetic::div_mod::lemma_div_is_ordered(
            num as int,
            den as int * SCALE as int,
            den as int,
        );
        vstd::arithmetic::div_mod::lemma_div_multiples_vanish(SCALE as int, den as int);
        // reassociate the products into the shape the specification uses
        assert(num as int == 16 * (p as int) * ((HALF_TURN as int) - p) * (SCALE as int))
            by (nonlinear_arith)
            requires
                num as int == 16 * (q as int) * (SCALE as int),
                q as int == (p as int) * ((HALF_TURN as int) - (p as int)),
        ;
        assert(den as int == 5 * (HALF_TURN as int) * (HALF_TURN as int) - 4 * (p as int) * ((
        HALF_TURN as int) - p)) by (nonlinear_arith)
            requires
                den as int == 5 * (HALF_TURN as int) * (HALF_TURN as int) - 4 * (q as int),
                q as int == (p as int) * ((HALF_TURN as int) - (p as int)),
        ;
    }
    r as i64
}

/// Fixed-point sine of a phase in [0, PHASE_UNITS_PER_TURN).
pub fn sin_fp(phase: u64) -> (r: i64)
    requires
        phase < PHASE_UNITS_PER_TURN,
    ensures
        r == sin_fp_spec(phase as int),
        -SCALE <= r <= SCALE,
{
    if phase < HALF_TURN {
        half_wave(phase)
    } else {
        let v: i64 = half_wave(phase - HALF_TURN);
        -v
    }
}

/// Fixed-point cosine of a phase in [0, PHASE_UNITS_PER_TURN).
pub fn cos_fp(phase: u64) -> (r: i64)
    requires
        phase < PHASE_UNITS_PER_TURN,
    ensures
        r == cos_fp_spec(phase as int),
        -SCALE <= r <= SCALE,
{
    let shifted: u64 = (phase + QUARTER_TURN) % PHASE_UNITS_PER_TURN;
    sin_fp(shifted)
}

/// The phase, within one turn, of a phasor of the given frequency
/// (milli-hertz) at the given time (microseconds): frequency times
/// time gives billionths of a turn.
pub open spec fn phase_of_spec(frequency_millihertz: int, time_micros: int) -> int {
    (frequency_millihertz * time_micros) % (PHASE_UNITS_PER_TURN as int)
}

pub fn phase_of(frequency_millihertz: u64, time_micros: u64) -> (r: u64)
    ensures
        r == phase_of_spec(frequency_millihertz as int, time_micros as int),
        r < PHASE_UNITS_PER_TURN,
{
    proof {
        lemma_mul_le(
            frequency_millihertz as int,
            time_micros as int,
            u64::MAX as int,
            u64::MAX as int,
        );
    }
    let product: u128 = (frequency_millihertz as u128) * (time_micros as u128);
    (product % (PHASE_UNITS_PER_TURN as u128)) as u64
}

/// Multiplication of two fixed-point values: the product rescaled by
/// SCALE, truncating toward zero.
pub fn mul_scaled(a: i64, b: i64) -> (r: i64)
    requires
        -1_000_000_000_000 <= a <= 1_000_000_000_000,
        -1_000_000_000_000 <= b <= 1_000_000_000_000,
    ensures
        r == div_trunc_spec(a as int * b as int, SCALE as int),
{
    proof {
        assert(-1_000_000_000_000_000_000_000_000 <= (a as int) * (b as int)
            <= 1_000_000_000_000_000_000_000_000) by (nonlinear_arith)
            requires
                -1_000_000_000_000 <= a <= 1_000_000_000_000,
                -1_000_000_000_000 <= b <= 1_000_000_000_000,
        ;
    }
    let c: i128 = (a as i128) * (b as i128);
    if c >= 0 {
        let m: u128 = (c as u128) / (SCALE as u128);
        proof {
            vstd::arithmetic::div_mod::lemma_div_is_ordered(
                c as int,
                1_000_000_000_000_000_000_000_000,
                SCALE as int,
            );
        }
        m as i64
    } else {
        let m: u128 = ((-c) as u128) / (SCALE as u128);
        proof {
            vstd::arithmetic::div_mod::lemma_div_is_ordered(
                -(c as int),
                1_000_000_000_000_000_000_000_000,
                SCALE as int,
            );
        }
        -(m as i64)
    }
}

} // verus!
