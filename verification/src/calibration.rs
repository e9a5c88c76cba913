//! Noise-floor calibration: from a bounded history of chunk maxima,
//! greedily extract up to five "top non-adjacent" maxima (taking the
//! largest remaining value and discarding its immediate neighbours, so
//! a single burst spanning adjacent chunks cannot fill several slots).
//! The smallest of these top values becomes the candidate threshold;
//! their spread, floored at one unit, becomes the candidate increment.

use vstd::prelude::*;
use crate::numeric::{isqrt, isqrt_spec, lemma_isqrt_spec_bounds, lemma_mul_le};
use crate::window::seq_sum;

verus! {

/// Noise floor and spread for one frequency bin, in fixed-point units.
#[derive(Clone, Copy, PartialEq, Eq, Structural, Debug)]
pub struct ActivityThresholdStats {
    pub threshold: i64,
    pub increment: i64,
}

impl ActivityThresholdStats {
    /// A usable pair: the increment is a positive divisor.
    pub open spec fn wf(&self) -> bool {
        &&& self.threshold >= 0
        &&& self.increment >= 1
    }
}

impl Default for ActivityThresholdStats {
    /// Before any calibration the floor is unreachably high, so no
    /// activity is reported, and the increment is the smallest
    /// positive unit.
    fn default() -> (r: ActivityThresholdStats)
        ensures
            r.threshold == i64::MAX,
            r.increment == 1,
            r.wf(),
    {
        ActivityThresholdStats { threshold: i64::MAX, increment: 1 }
    }
}

/// The index of the last maximum of a non-empty sequence (the empty
/// sequence maps to index 0 for convenience).
pub open spec fn argmax_last_spec(s: Seq<i64>) -> int
    decreases s.len(),
{
    if s.len() <= 1 {
        0
    } else {
        let j = argmax_last_spec(s.drop_last());
        if s.last() >= s[j] {
            s.len() - 1
        } else {
            j
        }
    }
}

pub proof fn lemma_argmax_last_is_max(s: Seq<i64>)
    requires
        s.len() >= 1,
    ensures
        0 <= argmax_last_spec(s) < s.len(),
        forall|i: int| 0 <= i < s.len() ==> #[trigger] s[i] <= s[argmax_last_spec(s)],
    decreases s.len(),
{
    if s.len() > 1 {
        lemma_argmax_last_is_max(s.drop_last());
        assert(forall|i: int| 0 <= i < s.len() - 1 ==> s[i] == s.drop_last()[i]);
    }
}

/// The sequence with position j and its immediate neighbours removed.
pub open spec fn drop_neighborhood_spec(s: Seq<i64>, j: int) -> Seq<i64> {
    s.subrange(0, if j >= 1 { j - 1 } else { 0 }) + s.subrange(
        if j + 2 <= s.len() { j + 2 } else { s.len() as int },
        s.len() as int,
    )
}

/// Greedy selection of up to k pairwise non-adjacent maxima, largest
/// first, ties resolved toward the later position.
pub open spec fn top_nonadjacent_spec(s: Seq<i64>, k: nat) -> Seq<i64>
    decreases k,
{
    if k == 0 || s.len() == 0 {
        Seq::empty()
    } else {
        let j = argmax_last_spec(s);
        Seq::empty().push(s[j]) + top_nonadjacent_spec(
            drop_neighborhood_spec(s, j),
            (k - 1) as nat,
        )
    }
}

/// Every selected top value is within the bounds that hold of the
/// whole input.
pub proof fn lemma_top_nonadjacent_bounds(s: Seq<i64>, k: nat, lo: int, hi: int)
    requires
        forall|i: int| 0 <= i < s.len() ==> lo <= #[trigger] s[i] <= hi,
    ensures
        forall|i: int|
            0 <= i < top_nonadjacent_spec(s, k).len() ==> lo <= #[trigger] top_nonadjacent_spec(
                s,
                k,
            )[i] <= hi,
    decreases k,
{
    if k > 0 && s.len() > 0 {
        let j = argmax_last_spec(s);
        lemma_argmax_last_is_max(s);
        let rest = drop_neighborhood_spec(s, j);
        assert(forall|i: int| 0 <= i < rest.len() ==> lo <= #[trigger] rest[i] <= hi);
        lemma_top_nonadjacent_bounds(rest, (k - 1) as nat, lo, hi);
        let t = top_nonadjacent_spec(s, k);
        let tr = top_nonadjacent_spec(rest, (k - 1) as nat);
        assert forall|i: int| 0 <= i < t.len() implies lo <= #[trigger] t[i] <= hi by {
            if i > 0 {
                assert(t[i] == tr[i - 1]);
            }
        }
    }
}

/// The first selected top value is the maximum of the input.
pub proof fn lemma_top_nonadjacent_head(s: Seq<i64>, k: nat)
    requires
        s.len() >= 1,
        k >= 1,
    ensures
        top_nonadjacent_spec(s, k).len() >= 1,
        top_nonadjacent_spec(s, k)[0] == s[argmax_last_spec(s)],
        forall|i: int| 0 <= i < s.len() ==> #[trigger] s[i] <= top_nonadjacent_spec(s, k)[0],
{
    lemma_argmax_last_is_max(s);
}

/// The selected top values come out largest first.
pub proof fn lemma_top_nonadjacent_sorted(s: Seq<i64>, k: nat)
    ensures
        forall|i: int, j: int|
            0 <= i <= j < top_nonadjacent_spec(s, k).len() ==> #[trigger] top_nonadjacent_spec(
                s,
                k,
            )[i] >= #[trigger] top_nonadjacent_spec(s, k)[j],
    decreases k,
{
    if k > 0 && s.len() > 0 {
        let m = argmax_last_spec(s);
        lemma_argmax_last_is_max(s);
        let rest = drop_neighborhood_spec(s, m);
        lemma_top_nonadjacent_sorted(rest, (k - 1) as nat);
        assert(forall|i: int| 0 <= i < rest.len() ==> i64::MIN <= #[trigger] rest[i] <= s[m]);
        lemma_top_nonadjacent_bounds(rest, (k - 1) as nat, i64::MIN as int, s[m] as int);
        let t = top_nonadjacent_spec(s, k);
        let tr = top_nonadjacent_spec(rest, (k - 1) as nat);
        assert forall|i: int, j: int| 0 <= i <= j < t.len() implies #[trigger] t[i]
            >= #[trigger] t[j] by {
            if i > 0 {
                assert(t[i] == tr[i - 1] && t[j] == tr[j - 1]);
            } else if j > 0 {
                assert(t[j] == tr[j - 1]);
            }
        }
    }
}

fn argmax_last(values: &Vec<i64>) -> (r: usize)
    requires
        values.len() >= 1,
    ensures
        r == argmax_last_spec(values@),
        r < values.len(),
{
    let mut j: usize = 0;
    let mut i: usize = 1;
    proof {
        assert(values@.subrange(0, 1).len() == 1);
    }
    while i < values.len()
        invariant
            1 <= i <= values@.len(),
            j < i,
            j == argmax_last_spec(values@.subrange(0, i as int)),
        decreases values@.len() - i,
    {
        proof {
            assert(values@.subrange(0, i + 1).drop_last() =~= values@.subrange(0, i as int));
            assert(values@.subrange(0, i + 1).last() == values@[i as int]);
        }
        if values[i] >= values[j] {
            j = i;
        }
        i = i + 1;
    }
    proof {
        assert(values@.subrange(0, values@.len() as int) =~= values@);
    }
    j
}

fn remove_neighborhood(values: &Vec<i64>, j: usize) -> (r: Vec<i64>)
    requires
        j < values.len(),
    ensures
        r@ == drop_neighborhood_spec(values@, j as int),
        r@.len() < values@.len(),
{
    let lo: usize = if j >= 1 { j - 1 } else { 0 };
    let hi: usize = if values.len() - j > 2 { j + 2 } else { values.len() };
    let mut r: Vec<i64> = Vec::new();
    let mut i: usize = 0;
    while i < lo
        invariant
            0 <= i <= lo,
            lo < values@.len(),
            r@ =~= values@.subrange(0, i as int),
        decreases lo - i,
    {
        let v: i64 = values[i];
        r.push(v);
        i = i + 1;
    }
    let mut i2: usize = hi;
    while i2 < values.len()
        invariant
            hi <= i2 <= values@.len(),
            lo <= values@.len(),
            r@ =~= values@.subrange(0, lo as int) + values@.subrange(hi as int, i2 as int),
        decreases values@.len() - i2,
    {
        let v: i64 = values[i2];
        r.push(v);
        i2 = i2 + 1;
    }
    proof {
        assert(r@ =~= drop_neighborhood_spec(values@, j as int));
    }
    r
}

/// Up to five pairwise non-adjacent maxima of the chunk history,
/// selected greedily, largest first.
pub fn top_nonadjacent_maxima(values: &Vec<i64>) -> (r: Vec<i64>)
    requires
        values.len() >= 1,
    ensures
        r@ == top_nonadjacent_spec(values@, 5),
        1 <= r@.len() <= 5,
{
    let mut remaining: Vec<i64> = Vec::new();
    let mut i: usize = 0;
    while i < values.len()
        invariant
            0 <= i <= values@.len(),
            remaining@ =~= values@.subrange(0, i as int),
        decreases values@.len() - i,
    {
        let v: i64 = values[i];
        remaining.push(v);
        i = i + 1;
    }
    proof {
        assert(remaining@ =~= values@);
    }
    let mut r: Vec<i64> = Vec::new();
    while remaining.len() > 0 && r.len() < 5
        invariant
            r@.len() <= 5,
            top_nonadjacent_spec(values@, 5) =~= r@ + top_nonadjacent_spec(
                remaining@,
                (5 - r@.len()) as nat,
            ),
        decreases remaining@.len(),
    {
        let ghost pre = remaining@;
        let ghost k = (5 - r@.len()) as nat;
        let j = argmax_last(&remaining);
        let top: i64 = remaining[j];
        r.push(top);
        let next = remove_neighborhood(&remaining, j);
        remaining = next;
        proof {
            assert(top_nonadjacent_spec(pre, k) =~= Seq::empty().push(top)
                + top_nonadjacent_spec(remaining@, (k - 1) as nat));
            assert(r@ + top_nonadjacent_spec(remaining@, (k - 1) as nat) =~= r@.drop_last() + (
            Seq::empty().push(top) + top_nonadjacent_spec(remaining@, (k - 1) as nat)));
        }
    }
    proof {
        assert(top_nonadjacent_spec(remaining@, (5 - r@.len()) as nat) =~= Seq::<i64>::empty());
        assert(r@ =~= top_nonadjacent_spec(values@, 5));
        if values@.len() >= 1 {
            lemma_top_nonadjacent_head(values@, 5);
        }
    }
    r
}

/// Sum of squares of a sequence of i64 values, as a mathematical
/// integer.
pub open spec fn seq_sum_sq(s: Seq<i64>) -> int
    decreases s.len(),
{
    if s.len() == 0 {
        0
    } else {
        seq_sum_sq(s.drop_last()) + s.last() * s.last()
    }
}

/// The candidate increment derived from the top maxima: the integer
/// sample standard deviation (truncated), floored at one unit so it
/// can serve as a divisor. A single value has no spread and also maps
/// to one unit.
pub open spec fn increment_spec(s: Seq<i64>) -> int {
    if s.len() <= 1 {
        1
    } else {
        let n = s.len() as int;
        let num = n * seq_sum_sq(s) - seq_sum(s) * seq_sum(s);
        let v = if num >= 0 {
            num / (n * (n - 1))
        } else {
            0
        };
        vstd::math::max(isqrt_spec(v as nat) as int, 1)
    }
}

proof fn lemma_sums_bounded(s: Seq<i64>, hi: int)
    requires
        hi >= 0,
        forall|i: int| 0 <= i < s.len() ==> 0 <= #[trigger] s[i] <= hi,
    ensures
        0 <= seq_sum(s) <= s.len() * hi,
        0 <= seq_sum_sq(s) <= s.len() * (hi * hi),
    decreases s.len(),
{
    if s.len() == 0 {
    } else {
        lemma_sums_bounded(s.drop_last(), hi);
        let l = s.last() as int;
        assert(0 <= l * l <= hi * hi) by (nonlinear_arith)
            requires 0 <= l <= hi
        ;
        assert((s.len() - 1) * hi + hi == s.len() * hi) by (nonlinear_arith);
        assert((s.len() - 1) * (hi * hi) + hi * hi == s.len() * (hi * hi)) by (nonlinear_arith);
    }
}

/// The spread of the given top maxima, floored at one unit.
pub fn increment_from(tops: &Vec<i64>) -> (r: i64)
    requires
        1 <= tops.len() <= 5,
        forall|i: int| 0 <= i < tops@.len() ==> 0 <= #[trigger] tops@[i] <= 300_000_000,
    ensures
        r == increment_spec(tops@),
        r >= 1,
{
    if tops.len() <= 1 {
        return 1;
    }
    let mut sx: u64 = 0;
    let mut sxx: u64 = 0;
    let mut i: usize = 0;
    proof {
        assert(tops@.subrange(0, 0) =~= Seq::<i64>::empty());
    }
    while i < tops.len()
        invariant
            0 <= i <= tops@.len(),
            tops@.len() <= 5,
            forall|k: int| 0 <= k < tops@.len() ==> 0 <= #[trigger] tops@[k] <= 300_000_000,
            sx == seq_sum(tops@.subrange(0, i as int)),
            sxx == seq_sum_sq(tops@.subrange(0, i as int)),
            sx <= i * 300_000_000,
            sxx <= i * 90_000_000_000_000_000,
        decreases tops@.len() - i,
    {
        let v: i64 = tops[i];
        proof {
            assert(tops@.subrange(0, i + 1).drop_last() =~= tops@.subrange(0, i as int));
            assert(tops@.subrange(0, i + 1).last() == tops@[i as int]);
            lemma_mul_le(v as int, v as int, 300_000_000, 300_000_000);
            assert((i + 1) * 300_000_000 == i * 300_000_000 + 300_000_000) by (nonlinear_arith);
            assert((i + 1) * 90_000_000_000_000_000 == i * 90_000_000_000_000_000 + (
            300_000_000 * 300_000_000)) by (nonlinear_arith);
        }
        sx = sx + (v as u64);
        sxx = sxx + (v as u64) * (v as u64);
        i = i + 1;
    }
    proof {
        assert(tops@.subrange(0, tops@.len() as int) =~= tops@);
    }
    let n: u64 = tops.len() as u64;
    proof {
        assert(sxx as int <= 5int * 90_000_000_000_000_000);
        assert(sx as int <= 5int * 300_000_000);
        lemma_mul_le(n as int, sxx as int, 5int, 5int * 90_000_000_000_000_000);
        lemma_mul_le(sx as int, sx as int, 5int * 300_000_000, 5int * 300_000_000);
        lemma_mul_le(n as int, (n - 1) as int, 5int, 4int);
        assert((n as int) * ((n - 1) as int) >= 2) by (nonlinear_arith)
            requires 2 <= n <= 5
        ;
    }
    let num_a: u128 = (n as u128) * (sxx as u128);
    let num_b: u128 = (sx as u128) * (sx as u128);
    let v: u64 = if num_a <= num_b {
        0
    } else {
        ((num_a - num_b) / ((n as u128) * ((n - 1) as u128))) as u64
    };
    proof {
        let nn = tops@.len() as int;
        let num = nn * seq_sum_sq(tops@) - seq_sum(tops@) * seq_sum(tops@);
        if num_a > num_b {
            vstd::arithmetic::div_mod::lemma_div_is_ordered(
                num,
                5int * (5int * 90_000_000_000_000_000),
                nn * (nn - 1),
            );
            vstd::arithmetic::div_mod::lemma_div_pos_is_pos(num, nn * (nn - 1));
        }
    }
    let rt: u64 = isqrt(v);
    proof {
        lemma_isqrt_spec_bounds(v as nat);
        assert(isqrt_spec(v as nat) * isqrt_spec(v as nat) <= v);
        assert(rt <= v) by (nonlinear_arith)
            requires
                rt == isqrt_spec(v as nat),
                (rt as int) * (rt as int) <= v as int,
        ;
    }
    if rt < 1 {
        1
    } else {
        rt as i64
    }
}

} // verus!
