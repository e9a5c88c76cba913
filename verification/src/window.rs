//! Rolling window over a stream of fixed-point values with an
//! incrementally maintained sum: `push` appends and evicts the oldest
//! value once the capacity is reached, and every capacity-th push the
//! sum is recomputed from a fresh accumulator (in exact integer
//! arithmetic the resynchronization changes nothing, which is proved
//! here rather than assumed). The mean over the values currently held
//! is always the exact truncated quotient of their sum.

use vstd::prelude::*;
use crate::numeric::{div_trunc, div_trunc_spec, lemma_div_trunc_bound};
use std::collections::VecDeque;

verus! {

/// Sum of a sequence of i64 values, as a mathematical integer.
pub open spec fn seq_sum(s: Seq<i64>) -> int
    decreases s.len(),
{
    if s.len() == 0 {
        0
    } else {
        seq_sum(s.drop_last()) + s.last()
    }
}

pub proof fn lemma_seq_sum_push(s: Seq<i64>, v: i64)
    ensures
        seq_sum(s.push(v)) == seq_sum(s) + v,
{
    assert(s.push(v).drop_last() =~= s);
}

pub proof fn lemma_seq_sum_pop_front(s: Seq<i64>)
    requires
        s.len() > 0,
    ensures
        seq_sum(s.subrange(1, s.len() as int)) == seq_sum(s) - s[0],
    decreases s.len(),
{
    if s.len() == 1 {
        assert(s.subrange(1, 1) =~= Seq::<i64>::empty());
        assert(s.drop_last() =~= Seq::<i64>::empty());
    } else {
        lemma_seq_sum_pop_front(s.drop_last());
        assert(s.drop_last().subrange(1, s.len() - 1) =~= s.subrange(1, s.len() as int).drop_last());
        assert(s.subrange(1, s.len() as int).last() == s.last());
    }
}

pub proof fn lemma_seq_sum_bound(s: Seq<i64>, bound: int)
    requires
        forall|i: int| 0 <= i < s.len() ==> -bound <= #[trigger] s[i] <= bound,
    ensures
        -(s.len() * bound) <= seq_sum(s) <= s.len() * bound,
    decreases s.len(),
{
    if s.len() > 0 {
        lemma_seq_sum_bound(s.drop_last(), bound);
        assert((s.len() - 1) * bound == s.len() * bound - bound) by (nonlinear_arith);
    }
}

/// What a window's held values become when one more value arrives:
/// the value is appended, and the oldest held value leaves once the
/// capacity is reached.
pub open spec fn window_after_push(s: Seq<i64>, cap: int, v: i64) -> Seq<i64> {
    if s.len() < cap {
        s.push(v)
    } else {
        s.subrange(1, s.len() as int).push(v)
    }
}

/// Fixed-capacity rolling buffer of fixed-point values with a cached
/// running sum. `pushed()` is the whole stream seen so far; the buffer
/// holds its last `min(capacity, pushed().len())` values.
pub struct Window {
    capacity: usize,
    bound: i64,
    num_values_seen: u64,
    values: VecDeque<i64>,
    cached_sum: i64,
    next_sum: i64,
    history: Ghost<Seq<i64>>,
}

impl Window {
    /// The whole stream of values pushed so far, oldest first.
    pub closed spec fn pushed(&self) -> Seq<i64> {
        self.history@
    }

    /// The values currently held, oldest first.
    pub closed spec fn values_seq(&self) -> Seq<i64> {
        self.values@
    }

    /// The capacity the window was created with.
    pub closed spec fn cap(&self) -> int {
        self.capacity as int
    }

    /// The magnitude bound the window was created with: every pushed
    /// value must have magnitude at most this.
    pub closed spec fn bound_spec(&self) -> int {
        self.bound as int
    }

    pub closed spec fn wf(&self) -> bool {
        &&& self.capacity >= 1
        &&& self.bound >= 1
        &&& self.capacity * self.bound <= i64::MAX
        &&& self.num_values_seen == self.history@.len()
        &&& self.values@.len() == vstd::math::min(self.capacity as int, self.history@.len() as int)
        &&& self.values@ =~= self.history@.subrange(
            self.history@.len() - self.values@.len(),
            self.history@.len() as int,
        )
        &&& forall|i: int|
            0 <= i < self.history@.len() ==> -self.bound <= #[trigger] self.history@[i]
                <= self.bound
        &&& self.cached_sum == seq_sum(self.values@)
        &&& self.next_sum == seq_sum(
            self.history@.subrange(
                self.history@.len() - ((self.history@.len() as int) % (self.capacity as int)),
                self.history@.len() as int,
            ),
        )
    }

    /// A fresh, empty window.
    pub fn new(capacity: usize, bound: i64) -> (w: Window)
        requires
            capacity >= 1,
            bound >= 1,
            capacity * bound <= i64::MAX,
        ensures
            w.wf(),
            w.pushed() == Seq::<i64>::empty(),
            w.values_seq() == Seq::<i64>::empty(),
            w.cap() == capacity,
            w.bound_spec() == bound,
    {
        let w = Window {
            capacity,
            bound,
            num_values_seen: 0,
            values: VecDeque::new(),
            cached_sum: 0,
            next_sum: 0,
            history: Ghost(Seq::<i64>::empty()),
        };
        proof {
            assert(w.values@ =~= w.history@.subrange(0, 0));
            assert(w.history@.subrange(0, 0) =~= Seq::<i64>::empty());
        }
        w
    }

    /// Appends a value, evicting the oldest one once the capacity is
    /// reached, and keeps the cached sum equal to the exact sum of the
    /// values held.
    pub fn push(&mut self, value: i64)
        requires
            old(self).wf(),
            -old(self).bound_spec() <= value <= old(self).bound_spec(),
            old(self).pushed().len() < u64::MAX,
        ensures
            final(self).wf(),
            final(self).pushed() == old(self).pushed().push(value),
            final(self).values_seq() == window_after_push(
                old(self).values_seq(),
                old(self).cap(),
                value,
            ),
            final(self).cap() == old(self).cap(),
            final(self).bound_spec() == old(self).bound_spec(),
    {
        proof {
            let cap = self.capacity as int;
            let bound = self.bound as int;
            assert(forall|k: int, b: int|
                0 <= k <= cap && 1 <= b <= bound ==> #[trigger] (k * b) <= cap * bound)
                by (nonlinear_arith);
            assert(forall|k: int, b: int|
                0 <= k < cap && 1 <= b <= bound ==> #[trigger] (k * b) + b <= cap * bound)
                by (nonlinear_arith);
        }
        self.num_values_seen = self.num_values_seen + 1;
        if self.values.len() >= self.capacity {
            let evicted = self.values.pop_front().unwrap();
            proof {
                lemma_seq_sum_pop_front(old(self).values@);
                lemma_seq_sum_bound(old(self).values@, self.bound as int);
                lemma_seq_sum_bound(self.values@, self.bound as int);
            }
            self.cached_sum = self.cached_sum - evicted;
        }
        let ghost pre_push = self.values@;
        proof {
            // at this point the cached sum is the exact sum of the held values
            assert(self.cached_sum == seq_sum(pre_push));
        }
        self.values.push_back(value);
        proof {
            lemma_seq_sum_push(pre_push, value);
            assert(self.values@ == pre_push.push(value));
            assert(forall|i: int|
                0 <= i < self.values@.len() ==> -self.bound <= #[trigger] self.values@[i]
                    <= self.bound);
            lemma_seq_sum_bound(self.values@, self.bound as int);
            assert(self.cached_sum + value == seq_sum(self.values@));
        }
        self.cached_sum = self.cached_sum + value;

        let ghost old_hist = self.history@;
        proof {
            self.history@ = self.history@.push(value);
        }

        proof {
            let cap = self.capacity as int;
            let n = old_hist.len() as int;
            vstd::arithmetic::div_mod::lemma_mod_bound(n, cap);
            if n < cap {
                vstd::arithmetic::div_mod::lemma_small_mod(n as nat, cap as nat);
            }
            let old_phase = n % cap;
            let old_tail = old_hist.subrange(n - old_phase, n);
            assert(forall|i: int|
                0 <= i < old_tail.len() ==> -self.bound <= #[trigger] old_tail[i] <= self.bound);
            lemma_seq_sum_bound(old_tail, self.bound as int);
            // the new partial accumulator is the old one extended by the value
            lemma_seq_sum_push(old_tail, value);
            assert(old_tail.push(value) =~= self.history@.subrange(n - old_phase, n + 1));
        }
        self.next_sum = self.next_sum + value;
        if self.num_values_seen % (self.capacity as u64) == 0 {
            proof {
                let cap = self.capacity as int;
                let n1 = self.history@.len() as int;
                assert(n1 % cap == 0);
                assert((n1 - 1) % cap == cap - 1) by {
                    if cap == 1 {
                        assert((n1 - 1) % cap == 0);
                    } else {
                        vstd::arithmetic::div_mod::lemma_sub_mod_noop(n1, 1, cap);
                        vstd::arithmetic::div_mod::lemma_small_mod(1nat, cap as nat);
                        assert((n1 % cap - 1int % cap) % cap == (n1 - 1) % cap);
                        assert((n1 % cap - 1int % cap) == -1);
                        vstd::arithmetic::div_mod::lemma_mod_add_multiples_vanish(-1, cap);
                        vstd::arithmetic::div_mod::lemma_small_mod((cap - 1) as nat, cap as nat);
                    }
                };
                assert(self.values@ =~= self.history@.subrange(n1 - cap, n1));
            }
            self.cached_sum = self.next_sum;
            self.next_sum = 0;
            proof {
                assert(self.history@.subrange(
                    self.history@.len() as int,
                    self.history@.len() as int,
                ) =~= Seq::<i64>::empty());
            }
        } else {
            proof {
                let cap = self.capacity as int;
                let n1 = self.history@.len() as int;
                let old_phase = (n1 - 1) % cap;
                vstd::arithmetic::div_mod::lemma_mod_bound(n1 - 1, cap);
                if cap == 1 {
                    assert(n1 % cap == 0);
                } else {
                    vstd::arithmetic::div_mod::lemma_add_mod_noop(n1 - 1, 1, cap);
                    vstd::arithmetic::div_mod::lemma_small_mod(1nat, cap as nat);
                    if old_phase + 1 == cap {
                        vstd::arithmetic::div_mod::lemma_mod_self_0(cap);
                        assert(n1 % cap == 0);
                    } else {
                        vstd::arithmetic::div_mod::lemma_small_mod(
                            (old_phase + 1) as nat,
                            cap as nat,
                        );
                    }
                }
                assert(n1 % cap == old_phase + 1);
            }
        }
    }

    /// The held values are exactly the most recent pushed values: the
    /// last `min(capacity, pushed().len())` of them, in order.
    pub proof fn lemma_values_suffix(&self)
        requires
            self.wf(),
        ensures
            self.values_seq().len() == vstd::math::min(self.cap(), self.pushed().len() as int),
            self.values_seq() == self.pushed().subrange(
                self.pushed().len() - self.values_seq().len(),
                self.pushed().len() as int,
            ),
            forall|i: int|
                0 <= i < self.values_seq().len() ==> -self.bound_spec()
                    <= #[trigger] self.values_seq()[i] <= self.bound_spec(),
    {
    }

    /// The values currently held, oldest first.
    pub fn values(&self) -> (r: Vec<i64>)
        requires
            self.wf(),
        ensures
            r@ == self.values_seq(),
    {
        let mut r: Vec<i64> = Vec::new();
        let mut i: usize = 0;
        while i < self.values.len()
            invariant
                0 <= i <= self.values@.len(),
                r@ =~= self.values@.subrange(0, i as int),
            decreases self.values@.len() - i,
        {
            let v: i64 = self.values[i];
            r.push(v);
            i = i + 1;
        }
        proof {
            assert(r@ =~= self.values@);
        }
        r
    }

    /// How many values have been pushed in total.
    pub fn num_values_seen(&self) -> (r: u64)
        requires
            self.wf(),
        ensures
            r == self.pushed().len(),
    {
        self.num_values_seen
    }

    /// The most recently pushed value still held, if any.
    pub fn last(&self) -> (r: Option<i64>)
        requires
            self.wf(),
        ensures
            match r {
                Some(v) => self.values_seq().len() > 0 && v == self.values_seq().last(),
                None => self.values_seq().len() == 0,
            },
    {
        if self.values.len() == 0 {
            None
        } else {
            Some(self.values[self.values.len() - 1])
        }
    }

    /// How many values are currently held.
    pub fn len(&self) -> (r: usize)
        requires
            self.wf(),
        ensures
            r == self.values_seq().len(),
    {
        self.values.len()
    }

    /// The mean of the values currently held — exactly the truncated
    /// quotient of their sum by their count, and therefore, whenever at
    /// least `capacity` values have been pushed, the truncated mean of
    /// the last `capacity` pushed values.
    pub fn mean(&self) -> (r: i64)
        requires
            self.wf(),
            self.values_seq().len() > 0,
        ensures
            r == div_trunc_spec(seq_sum(self.values_seq()), self.values_seq().len() as int),
            -self.bound_spec() <= r <= self.bound_spec(),
            self.pushed().len() >= self.cap() ==> r == div_trunc_spec(
                seq_sum(self.pushed().subrange(self.pushed().len() - self.cap(), self.pushed().len() as int)),
                self.cap(),
            ),
    {
        proof {
            lemma_seq_sum_bound(self.values@, self.bound as int);
            let vlen = self.values@.len() as int;
            assert(vlen * self.bound <= self.capacity * self.bound && vlen <= vlen * self.bound)
                by (nonlinear_arith)
                requires
                    1 <= vlen <= self.capacity,
                    self.bound >= 1,
            ;
            lemma_div_trunc_bound(seq_sum(self.values@), vlen, vlen * self.bound);
            vstd::arithmetic::div_mod::lemma_div_multiples_vanish(self.bound as int, vlen);
            if self.pushed().len() >= self.cap() {
                assert(self.values@ =~= self.pushed().subrange(
                    self.pushed().len() - self.cap(),
                    self.pushed().len() as int,
                ));
            }
        }
        div_trunc(self.cached_sum, self.values.len() as i64)
    }
}

} // verus!
