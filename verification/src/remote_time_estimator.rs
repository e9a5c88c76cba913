//! Cross-clock correspondence: given a stream of (remote time, local
//! arrival time) observations, estimates the local time corresponding
//! to a previously observed remote time, assuming only that the
//! remote clock runs at a constant (unknown) rate, that messages
//! cannot arrive before they are sent, and that messages at least
//! occasionally arrive promptly. The estimator keeps the frontier of
//! lowest-latency observations: a new point evicts every earlier
//! point that, in hindsight, must have arrived late.

use vstd::prelude::*;
use crate::numeric::{div_trunc_spec, lemma_mul_abs_le_e15};

verus! {

/// Bound on every time value (microseconds) and remote tick fed to
/// the estimator, keeping all frontier arithmetic within i128.
pub const ESTIMATOR_TIME_BOUND: i64 = 1_000_000_000_000_000;

/// Whether the new observation (rt, rcv) proves that b cannot lie on
/// the minimal-latency line through a: b is popped when its local
/// arrival was at or after the arrival a perfectly linear path from a
/// to the new point would imply, minus the tolerance. (All products
/// are scaled by (rt - a.0) to avoid division.)
pub open spec fn should_pop(a: (i64, i64), b: (i64, i64), rt: int, rcv: int, tolerance: int) -> bool {
    (b.1 - a.1) * (rt - a.0) >= (b.0 - a.0) * (rcv - a.1) - tolerance * (rt - a.0)
}

/// The frontier after the new observation has evicted, from the back,
/// every point it proves late.
pub open spec fn pruned(f: Seq<(i64, i64)>, rt: int, rcv: int, tolerance: int) -> Seq<(i64, i64)>
    decreases f.len(),
{
    if f.len() >= 2 && should_pop(f[f.len() - 2], f[f.len() - 1], rt, rcv, tolerance) {
        pruned(f.drop_last(), rt, rcv, tolerance)
    } else {
        f
    }
}

/// The cursor after advancing it, never past the end, while the next
/// frontier point's remote time lies strictly below half of
/// `mid_twice`.
pub open spec fn advanced_cursor(f: Seq<(i64, i64)>, start: int, mid_twice: int) -> int
    decreases f.len() - start,
{
    if start + 1 < f.len() && 2 * f[start + 1].0 < mid_twice {
        advanced_cursor(f, start + 1, mid_twice)
    } else {
        start
    }
}

/// Remote times strictly increase and local times never decrease
/// along the frontier.
pub open spec fn frontier_monotone(f: Seq<(i64, i64)>) -> bool {
    forall|i: int|
        0 <= i < f.len() - 1 ==> (#[trigger] f[i]).0 < f[i + 1].0 && f[i].1 <= f[i + 1].1
}

/// All frontier coordinates lie within the estimator's time bound.
pub open spec fn frontier_bounded(f: Seq<(i64, i64)>) -> bool {
    forall|i: int|
        0 <= i < f.len() ==> 0 <= (#[trigger] f[i]).0 <= ESTIMATOR_TIME_BOUND && 0 <= f[i].1
            <= ESTIMATOR_TIME_BOUND
}

/// Local times strictly increase along the frontier.
pub open spec fn frontier_strict_local(f: Seq<(i64, i64)>) -> bool {
    forall|i: int| 0 <= i < f.len() - 1 ==> (#[trigger] f[i]).1 < f[i + 1].1
}

/// Monotonicity extends from adjacent points to all pairs.
pub proof fn lemma_frontier_monotone_pairs(f: Seq<(i64, i64)>, i: int, j: int)
    requires
        frontier_monotone(f),
        0 <= i <= j < f.len(),
    ensures
        f[i].0 <= f[j].0,
        f[i].1 <= f[j].1,
        i < j ==> f[i].0 < f[j].0,
    decreases j - i,
{
    if i < j {
        lemma_frontier_monotone_pairs(f, i, j - 1);
    }
}

/// The pruned frontier is a prefix of the original.
pub proof fn lemma_pruned_prefix(f: Seq<(i64, i64)>, rt: int, rcv: int, tolerance: int)
    ensures
        pruned(f, rt, rcv, tolerance).len() <= f.len(),
        pruned(f, rt, rcv, tolerance) == f.subrange(0, pruned(f, rt, rcv, tolerance).len() as int),
        f.len() >= 1 ==> pruned(f, rt, rcv, tolerance).len() >= 1,
    decreases f.len(),
{
    if f.len() >= 2 && should_pop(f[f.len() - 2], f[f.len() - 1], rt, rcv, tolerance) {
        lemma_pruned_prefix(f.drop_last(), rt, rcv, tolerance);
        let p = pruned(f, rt, rcv, tolerance);
        assert(f.drop_last() =~= f.subrange(0, f.len() - 1));
        assert(f.drop_last().subrange(0, p.len() as int) =~= f.subrange(0, p.len() as int));
    } else {
        assert(f =~= f.subrange(0, f.len() as int));
    }
}

/// Frontier monotonicity law: an observation that moves remote time
/// strictly forward and arrives no earlier than every retained
/// arrival keeps the frontier strictly increasing in remote time and
/// non-decreasing in local time; if it arrives strictly later, the
/// local times stay strictly increasing as well.
pub proof fn lemma_frontier_monotone_after_observe(
    f: Seq<(i64, i64)>,
    rt: i64,
    rcv: i64,
    tolerance: int,
)
    requires
        frontier_monotone(f),
        f.len() >= 1 ==> f.last().0 < rt && f.last().1 <= rcv,
    ensures
        frontier_monotone(pruned(f, rt as int, rcv as int, tolerance).push((rt, rcv))),
        frontier_strict_local(f) && (f.len() >= 1 ==> f.last().1 < rcv)
            ==> frontier_strict_local(
            pruned(f, rt as int, rcv as int, tolerance).push((rt, rcv)),
        ),
{
    let p = pruned(f, rt as int, rcv as int, tolerance);
    lemma_pruned_prefix(f, rt as int, rcv as int, tolerance);
    let g = p.push((rt, rcv));
    assert forall|i: int| 0 <= i < g.len() - 1 implies (#[trigger] g[i]).0 < g[i + 1].0 && g[i].1
        <= g[i + 1].1 by {
        if i < p.len() - 1 {
            assert(g[i] == f[i] && g[i + 1] == f[i + 1]);
        } else {
            // the last retained point against the new observation
            assert(g[i] == f[i]);
            lemma_frontier_monotone_pairs(f, i, f.len() - 1);
        }
    }
    if frontier_strict_local(f) && (f.len() >= 1 ==> f.last().1 < rcv) {
        assert forall|i: int| 0 <= i < g.len() - 1 implies (#[trigger] g[i]).1 < g[i + 1].1 by {
            if i < p.len() - 1 {
                assert(g[i] == f[i] && g[i + 1] == f[i + 1]);
            } else {
                assert(g[i] == f[i]);
                if i < f.len() - 1 {
                    lemma_strict_local_pairs(f, i, f.len() - 1);
                }
            }
        }
    }
}

proof fn lemma_strict_local_pairs(f: Seq<(i64, i64)>, i: int, j: int)
    requires
        frontier_strict_local(f),
        0 <= i <= j < f.len(),
    ensures
        f[i].1 <= f[j].1,
        i < j ==> f[i].1 < f[j].1,
    decreases j - i,
{
    if i < j {
        lemma_strict_local_pairs(f, i, j - 1);
    }
}

/// The interpolated local time for `remote_time`, read off the pair
/// of frontier points at the cursor: linear interpolation in
/// remote-time units. With fewer than two points from the cursor on,
/// the first known local time.
pub open spec fn estimate_spec(f: Seq<(i64, i64)>, cursor: int, remote_time: int) -> int {
    if 0 <= cursor && cursor + 2 <= f.len() {
        let a = f[cursor];
        let b = f[cursor + 1];
        a.1 + div_trunc_spec((b.1 - a.1) * (remote_time - a.0), b.0 - a.0)
    } else {
        f[0].1 as int
    }
}

/// Round-trip law at retained observations: for the remote times of
/// the two frontier points the cursor interpolates between, the
/// estimated local time is exactly the local arrival time the
/// frontier retained for them — the estimator reproduces its
/// minimal-latency evidence without error.
pub proof fn lemma_estimate_exact_at_bracketing_points(f: Seq<(i64, i64)>, cursor: int)
    requires
        frontier_monotone(f),
        0 <= cursor,
        cursor + 2 <= f.len(),
    ensures
        estimate_spec(f, cursor, f[cursor].0 as int) == f[cursor].1,
        estimate_spec(f, cursor, f[cursor + 1].0 as int) == f[cursor + 1].1,
{
    let a = f[cursor];
    let b = f[cursor + 1];
    assert(a.0 < b.0);
    assert((b.1 - a.1) * (a.0 - a.0) == 0) by (nonlinear_arith);
    vstd::arithmetic::div_mod::lemma_div_of0(b.0 - a.0);
    assert(div_trunc_spec(0, b.0 - a.0) == 0);
    assert((b.1 - a.1) * (b.0 - a.0) == (b.0 - a.0) * (b.1 - a.1)) by (nonlinear_arith);
    vstd::arithmetic::div_mod::lemma_div_multiples_vanish(b.1 - a.1, b.0 - a.0);
    assert((b.1 - a.1) * (b.0 - a.0) >= 0) by (nonlinear_arith)
        requires
            b.1 - a.1 >= 0,
            b.0 - a.0 > 0,
    ;
    assert(div_trunc_spec((b.1 - a.1) * (b.0 - a.0), b.0 - a.0) == b.1 - a.1);
}

/// Given a stream of times from a remote device, the best estimate of
/// the corresponding local times. The frontier holds the observations
/// of minimal latency seen so far; a cached cursor near the middle of
/// the observed remote range makes lookups O(1) amortized.
pub struct RemoteTimeEstimator {
    tolerance: i64,
    frontier: Vec<(i64, i64)>,
    before_middle_index: usize,
}

impl RemoteTimeEstimator {
    /// The retained (remote time, local arrival) observations.
    pub closed spec fn frontier_seq(&self) -> Seq<(i64, i64)> {
        self.frontier@
    }

    /// The slack allowed when judging a point late, in local time
    /// units.
    pub closed spec fn tolerance_spec(&self) -> i64 {
        self.tolerance
    }

    /// The cached cursor.
    pub closed spec fn cursor(&self) -> int {
        self.before_middle_index as int
    }

    pub closed spec fn wf(&self) -> bool {
        &&& 0 <= self.tolerance <= ESTIMATOR_TIME_BOUND
        &&& frontier_monotone(self.frontier@)
        &&& frontier_bounded(self.frontier@)
    }

    /// A fresh estimator with the given tolerance (microseconds of
    /// local time).
    pub fn new(tolerance: i64) -> (r: RemoteTimeEstimator)
        requires
            0 <= tolerance <= ESTIMATOR_TIME_BOUND,
        ensures
            r.wf(),
            r.frontier_seq() == Seq::<(i64, i64)>::empty(),
            r.tolerance_spec() == tolerance,
            r.cursor() == 0,
    {
        RemoteTimeEstimator { tolerance, frontier: Vec::new(), before_middle_index: 0 }
    }

    /// The retained frontier, oldest first.
    pub fn frontier(&self) -> (r: Vec<(i64, i64)>)
        ensures
            r@ == self.frontier_seq(),
    {
        let mut r: Vec<(i64, i64)> = Vec::new();
        let mut i: usize = 0;
        while i < self.frontier.len()
            invariant
                0 <= i <= self.frontier@.len(),
                r@ =~= self.frontier@.subrange(0, i as int),
            decreases self.frontier@.len() - i,
        {
            let p = self.frontier[i];
            r.push(p);
            i = i + 1;
        }
        proof {
            assert(r@ =~= self.frontier@);
        }
        r
    }

    /// The most recent observation, if any: what the next observation
    /// must not precede.
    pub fn last_observation(&self) -> (r: Option<(i64, i64)>)
        ensures
            match r {
                Some(p) => self.frontier_seq().len() > 0 && p == self.frontier_seq().last(),
                None => self.frontier_seq().len() == 0,
            },
    {
        if self.frontier.len() == 0 {
            None
        } else {
            Some(self.frontier[self.frontier.len() - 1])
        }
    }

    /// Feeds one observation: a remote time together with the local
    /// time it was received by. Observations must arrive in order in
    /// both coordinates; a repeat of the last remote time carries no
    /// information and is discarded. Otherwise every point the new
    /// observation proves late is evicted from the back, the cursor
    /// advances toward the middle of the observed remote range, and
    /// the observation is appended.
    /// Evicts from the back every point the new observation proves
    /// late.
    fn prune_late_points(&mut self, remote_time: i64, received_by: i64)
        requires
            old(self).wf(),
            0 <= remote_time <= ESTIMATOR_TIME_BOUND,
            0 <= received_by <= ESTIMATOR_TIME_BOUND,
        ensures
            final(self).wf(),
            final(self).tolerance_spec() == old(self).tolerance_spec(),
            final(self).cursor() == old(self).cursor(),
            final(self).frontier_seq() == pruned(
                old(self).frontier_seq(),
                remote_time as int,
                received_by as int,
                old(self).tolerance_spec() as int,
            ),
            old(self).frontier_seq().len() >= 1 ==> final(self).frontier_seq().len() >= 1 && final(
                self).frontier_seq()[0] == old(self).frontier_seq()[0],
    {
        let ghost old_f = self.frontier@;
        let ghost rt_g = remote_time as int;
        let ghost rcv_g = received_by as int;
        let ghost tol_g = self.tolerance as int;
        loop
            invariant_except_break
                frontier_monotone(self.frontier@),
                frontier_bounded(self.frontier@),
                0 <= self.tolerance <= ESTIMATOR_TIME_BOUND,
                self.tolerance == tol_g,
                0 <= remote_time <= ESTIMATOR_TIME_BOUND,
                0 <= received_by <= ESTIMATOR_TIME_BOUND,
                rt_g == remote_time as int,
                rcv_g == received_by as int,
                pruned(old_f, rt_g, rcv_g, tol_g) == pruned(self.frontier@, rt_g, rcv_g, tol_g),
                self.frontier@.len() <= old_f.len(),
                self.frontier@ == old_f.subrange(0, self.frontier@.len() as int),
                old_f.len() >= 1 ==> self.frontier@.len() >= 1,
                self.before_middle_index == old(self).before_middle_index,
            ensures
                self.frontier@ == pruned(old_f, rt_g, rcv_g, tol_g),
                frontier_monotone(self.frontier@),
                frontier_bounded(self.frontier@),
                self.tolerance == tol_g,
                old_f.len() >= 1 ==> self.frontier@.len() >= 1 && self.frontier@[0] == old_f[0],
                self.before_middle_index == old(self).before_middle_index,
            decreases self.frontier@.len(),
        {
            if self.frontier.len() < 2 {
                break ;
            }
            let n = self.frontier.len();
            let a = self.frontier[n - 2];
            let b = self.frontier[n - 1];
            proof {
                lemma_mul_abs_le_e15((b.1 - a.1) as int, (remote_time - a.0) as int);
                lemma_mul_abs_le_e15((b.0 - a.0) as int, (received_by - a.1) as int);
                lemma_mul_abs_le_e15(self.tolerance as int, (remote_time - a.0) as int);
            }
            let lhs: i128 = ((b.1 - a.1) as i128) * ((remote_time - a.0) as i128);
            let rhs: i128 = ((b.0 - a.0) as i128) * ((received_by - a.1) as i128) - (
            self.tolerance as i128) * ((remote_time - a.0) as i128);
            let ghost pre = self.frontier@;
            if lhs >= rhs {
                let _ = self.frontier.pop();
                proof {
                    assert(self.frontier@ =~= pre.drop_last());
                    assert(should_pop(pre[n - 2], pre[n - 1], rt_g, rcv_g, tol_g));
                }
            } else {
                proof {
                    assert(!should_pop(pre[n - 2], pre[n - 1], rt_g, rcv_g, tol_g));
                    assert(pruned(pre, rt_g, rcv_g, tol_g) == pre);
                }
                break ;
            }
        }
    }

    /// Advances the cached cursor toward the midpoint of the observed
    /// remote range.
    #[verifier::rlimit(50)]
    fn advance_cursor_toward(&mut self, remote_time: i64)
        requires
            old(self).wf(),
            old(self).frontier_seq().len() >= 1,
            0 <= remote_time <= ESTIMATOR_TIME_BOUND,
        ensures
            final(self).wf(),
            final(self).frontier_seq() == old(self).frontier_seq(),
            final(self).tolerance_spec() == old(self).tolerance_spec(),
            final(self).cursor() == advanced_cursor(
                old(self).frontier_seq(),
                old(self).cursor(),
                remote_time + old(self).frontier_seq()[0].0,
            ),
    {
        let first = self.frontier[0];
        let ghost p = self.frontier@;
        let ghost mid_twice = remote_time as int + first.0 as int;
        let ghost tol_g = self.tolerance;
        while self.before_middle_index < self.frontier.len() - 1 && 2 * self.frontier[
            self.before_middle_index + 1].0 < remote_time + first.0
            invariant
                frontier_monotone(self.frontier@),
                frontier_bounded(self.frontier@),
                self.frontier@ == p,
                self.frontier@.len() >= 1,
                first == self.frontier@[0],
                0 <= remote_time <= ESTIMATOR_TIME_BOUND,
                mid_twice == remote_time + first.0,
                advanced_cursor(p, self.before_middle_index as int, mid_twice)
                    == advanced_cursor(p, old(self).cursor(), mid_twice),
                self.tolerance == tol_g,
            decreases self.frontier@.len() - self.before_middle_index,
        {
            self.before_middle_index = self.before_middle_index + 1;
        }
        proof {
            assert(self.before_middle_index as int == advanced_cursor(
                p,
                old(self).cursor(),
                mid_twice,
            ));
        }
    }

    #[verifier::spinoff_prover]
    #[verifier::rlimit(100)]
    pub fn observe(&mut self, remote_time: i64, received_by: i64)
        requires
            old(self).wf(),
            0 <= remote_time <= ESTIMATOR_TIME_BOUND,
            0 <= received_by <= ESTIMATOR_TIME_BOUND,
            old(self).frontier_seq().len() > 0 ==> old(self).frontier_seq().last().0 <= remote_time
                && old(self).frontier_seq().last().1 <= received_by,
        ensures
            final(self).wf(),
            final(self).tolerance_spec() == old(self).tolerance_spec(),
            old(self).frontier_seq().len() > 0 && old(self).frontier_seq().last().0 == remote_time
                ==> final(self).frontier_seq() == old(self).frontier_seq() && final(self).cursor()
                == old(self).cursor(),
            (old(self).frontier_seq().len() == 0 || old(self).frontier_seq().last().0
                < remote_time) ==> {
                let p = pruned(
                    old(self).frontier_seq(),
                    remote_time as int,
                    received_by as int,
                    old(self).tolerance_spec() as int,
                );
                &&& final(self).frontier_seq() == p.push((remote_time, received_by))
                &&& final(self).cursor() == (if old(self).frontier_seq().len() > 0 {
                    advanced_cursor(
                        p,
                        old(self).cursor(),
                        remote_time + old(self).frontier_seq()[0].0,
                    )
                } else {
                    old(self).cursor()
                })
            },
    {
        if self.frontier.len() > 0 {
            let last = self.frontier[self.frontier.len() - 1];
            if remote_time == last.0 {
                return ;
            }
        }
        let ghost old_f = self.frontier@;
        let ghost rt_g = remote_time as int;
        let ghost rcv_g = received_by as int;
        let ghost tol_g = self.tolerance as int;

        self.prune_late_points(remote_time, received_by);
        if self.frontier.len() > 0 {
            self.advance_cursor_toward(remote_time);
        }

        proof {
            lemma_frontier_monotone_after_observe(
                old_f,
                remote_time,
                received_by,
                tol_g,
            );
            lemma_pruned_prefix(old_f, rt_g, rcv_g, tol_g);
            if old_f.len() > 0 {
                let pl = pruned(old_f, rt_g, rcv_g, tol_g).len();
                lemma_frontier_monotone_pairs(old_f, pl - 1, old_f.len() - 1);
            }
        }
        self.frontier.push((remote_time, received_by));
    }

    /// The local time estimated to correspond to the given remote
    /// time, by linear interpolation between the two frontier points
    /// at the cursor (or the first known local time when fewer than
    /// two points remain there). Meaningful only for remote times
    /// within the observed range; the result saturates at the i64
    /// range.
    pub fn estimate_local_time(&self, remote_time: i64) -> (r: i64)
        requires
            self.wf(),
            self.frontier_seq().len() >= 1,
            0 <= remote_time <= ESTIMATOR_TIME_BOUND,
        ensures
            ({
                let e = estimate_spec(self.frontier_seq(), self.cursor(), remote_time as int);
                r == (if e < i64::MIN {
                    i64::MIN
                } else if e > i64::MAX {
                    i64::MAX
                } else {
                    e as i64
                })
            }),
    {
        if self.before_middle_index < self.frontier.len() && self.frontier.len()
            - self.before_middle_index >= 2 {
            let a = self.frontier[self.before_middle_index];
            let b = self.frontier[self.before_middle_index + 1];
            proof {
                lemma_frontier_monotone_pairs(
                    self.frontier@,
                    self.before_middle_index as int,
                    self.before_middle_index + 1,
                );
                lemma_mul_abs_le_e15((b.1 - a.1) as int, (remote_time - a.0) as int);
            }
            let num: i128 = ((b.1 - a.1) as i128) * ((remote_time - a.0) as i128);
            let den: i128 = (b.0 - a.0) as i128;
            let q: i128 = if num >= 0 {
                (((num as u128) / (den as u128)) as i128)
            } else {
                -((((-num) as u128) / (den as u128)) as i128)
            };
            proof {
                lemma_mul_abs_le_e15((b.1 - a.1) as int, (remote_time - a.0) as int);
                if num >= 0 {
                    vstd::arithmetic::div_mod::lemma_div_nonincreasing(num as int, den as int);
                    vstd::arithmetic::div_mod::lemma_div_pos_is_pos(num as int, den as int);
                } else {
                    vstd::arithmetic::div_mod::lemma_div_nonincreasing(-(num as int), den as int);
                    vstd::arithmetic::div_mod::lemma_div_pos_is_pos(-(num as int), den as int);
                }
            }
            let e: i128 = (a.1 as i128) + q;
            if e < (i64::MIN as i128) {
                i64::MIN
            } else if e > (i64::MAX as i128) {
                i64::MAX
            } else {
                e as i64
            }
        } else {
            self.frontier[0].1
        }
    }
}

impl Default for RemoteTimeEstimator {
    /// The tolerance used for device report streams: 200
    /// microseconds.
    fn default() -> (r: RemoteTimeEstimator)
        ensures
            r.wf(),
            r.frontier_seq() == Seq::<(i64, i64)>::empty(),
            r.tolerance_spec() == 200i64,
            r.cursor() == 0,
    {
        RemoteTimeEstimator::new(200)
    }
}

} // verus!
