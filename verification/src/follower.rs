//! Followers: the control-output targets a supervisor can drive (the
//! local pointer, or a networked peer), together with the bookkeeping
//! that decides which one last saw intentional input. The actual
//! output sinks (input injection, sockets, audio feedback) live
//! outside this crate; here a follower is the state the arbitration
//! logic reads and writes.

use vstd::prelude::*;
use crate::remote_time_estimator::{
    estimate_spec, pruned, RemoteTimeEstimator, ESTIMATOR_TIME_BOUND,
};

verus! {

/// A command for a follower.
#[derive(Clone, Copy, PartialEq, Eq, Structural, Debug)]
pub enum MessageToFollower {
    Mousedown,
    MouseUp,
    ScrollY(i32),
}

/// A report from a remote follower: its pointer moved, at the given
/// time by its own clock (microseconds since its start).
#[derive(Clone, Copy, PartialEq, Eq, Structural, Debug)]
pub enum MessageFromFollower {
    MouseMoved { time_since_start_micros: i64 },
}

/// The handshake a remote follower opens with.
#[derive(Clone, PartialEq, Debug)]
pub struct FollowerIntroduction {
    pub name: String,
}

/// A control-output sink. Implementations perform the actual output
/// (input injection locally, a message send for a peer) and therefore
/// live outside this crate.
pub trait Follower {
    fn handle_message(&mut self, message: MessageToFollower);

    fn mousedown(&mut self);

    fn mouse_up(&mut self);

    fn scroll_y(&mut self, length: i32);
}

/// The state the arbitration logic keeps about the local pointer: its
/// last polled location, so that a change marks an intentional move.
pub struct LocalFollower {
    most_recent_mouse_location: (i32, i32),
}

impl LocalFollower {
    pub closed spec fn location(&self) -> (i32, i32) {
        self.most_recent_mouse_location
    }

    /// Starts with an impossible location so the first poll counts as
    /// a move.
    pub fn new() -> (r: LocalFollower)
        ensures
            r.location() == (-1i32, -1i32),
    {
        LocalFollower { most_recent_mouse_location: (-1, -1) }
    }

    /// Feeds one poll of the pointer location: a changed location is
    /// an intentional move at `now`.
    pub fn update_most_recent_mouse_move(&mut self, new_location: (i32, i32), now: i64) -> (r:
        Option<i64>)
        ensures
            final(self).location() == new_location,
            r == (if new_location != old(self).location() {
                Some(now)
            } else {
                None::<i64>
            }),
    {
        let changed = new_location.0 != self.most_recent_mouse_location.0 || new_location.1
            != self.most_recent_mouse_location.1;
        self.most_recent_mouse_location = new_location;
        if changed {
            Some(now)
        } else {
            None
        }
    }
}

/// The state the arbitration logic keeps about a networked peer: the
/// estimator that maps the peer's self-reported times onto the local
/// clock. The peer's actual connection lives outside this crate.
pub struct RemoteFollower {
    pub remote_time_estimator: RemoteTimeEstimator,
}

/// The tolerance used for follower move reports, in microseconds.
pub const FOLLOWER_TOLERANCE_MICROS: i64 = 500;

impl RemoteFollower {
    pub fn new() -> (r: RemoteFollower)
        ensures
            r.remote_time_estimator.wf(),
            r.remote_time_estimator.frontier_seq() == Seq::<(i64, i64)>::empty(),
            r.remote_time_estimator.tolerance_spec() == FOLLOWER_TOLERANCE_MICROS,
    {
        RemoteFollower { remote_time_estimator: RemoteTimeEstimator::new(FOLLOWER_TOLERANCE_MICROS) }
    }
}

/// A follower paired with the local time of its most recent
/// intentional pointer move — what arbitration compares.
pub struct SupervisedFollower<F> {
    pub follower: F,
    pub most_recent_mouse_move: i64,
}

impl<F> SupervisedFollower<F> {
    pub open spec fn most_recent(&self) -> i64 {
        self.most_recent_mouse_move
    }

    /// Wraps a follower, counting `now` as its most recent move.
    pub fn new(follower: F, now: i64) -> (r: SupervisedFollower<F>)
        ensures
            r.most_recent() == now,
            r.follower == follower,
    {
        SupervisedFollower { follower, most_recent_mouse_move: now }
    }

    /// The local time of the follower's most recent intentional move.
    pub fn most_recent_mouse_move(&self) -> (r: i64)
        ensures
            r == self.most_recent(),
    {
        self.most_recent_mouse_move
    }
}

impl SupervisedFollower<LocalFollower> {
    /// Feeds one poll of the local pointer: a changed location
    /// refreshes the most recent move time.
    pub fn update_most_recent_mouse_move(&mut self, new_location: (i32, i32), now: i64)
        ensures
            final(self).follower.location() == new_location,
            final(self).most_recent() == (if new_location != old(self).follower.location() {
                now
            } else {
                old(self).most_recent()
            }),
    {
        let update = self.follower.update_most_recent_mouse_move(new_location, now);
        match update {
            Some(t) => {
                self.most_recent_mouse_move = t;
            },
            None => {},
        }
    }
}

impl SupervisedFollower<RemoteFollower> {
    /// Feeds one (remote time, local arrival) observation into the
    /// follower's clock estimator.
    pub fn observe_message(&mut self, remote_time_since_start: i64, received_by: i64)
        requires
            old(self).follower.remote_time_estimator.wf(),
            0 <= remote_time_since_start <= ESTIMATOR_TIME_BOUND,
            0 <= received_by <= ESTIMATOR_TIME_BOUND,
            old(self).follower.remote_time_estimator.frontier_seq().len() > 0 ==> (old(
                self).follower.remote_time_estimator.frontier_seq().last().0
                <= remote_time_since_start && old(
                self).follower.remote_time_estimator.frontier_seq().last().1 <= received_by),
        ensures
            final(self).follower.remote_time_estimator.wf(),
            final(self).most_recent() == old(self).most_recent(),
            final(self).follower.remote_time_estimator.tolerance_spec() == old(
                self).follower.remote_time_estimator.tolerance_spec(),
            ({
                let f = old(self).follower.remote_time_estimator.frontier_seq();
                let tol = old(self).follower.remote_time_estimator.tolerance_spec();
                let g = final(self).follower.remote_time_estimator.frontier_seq();
                &&& (f.len() > 0 && f.last().0 == remote_time_since_start ==> g == f)
                &&& ((f.len() == 0 || f.last().0 < remote_time_since_start) ==> g == pruned(
                    f,
                    remote_time_since_start as int,
                    received_by as int,
                    tol as int,
                ).push((remote_time_since_start, received_by)))
            }),
    {
        self.follower.remote_time_estimator.observe(remote_time_since_start, received_by);
    }

    /// Translates the peer's self-reported move time onto the local
    /// clock and records it as the most recent move.
    pub fn remote_mouse_moved(&mut self, remote_time_since_start: i64)
        requires
            old(self).follower.remote_time_estimator.wf(),
            old(self).follower.remote_time_estimator.frontier_seq().len() >= 1,
            0 <= remote_time_since_start <= ESTIMATOR_TIME_BOUND,
        ensures
            final(self).follower == old(self).follower,
            ({
                let e = estimate_spec(
                    old(self).follower.remote_time_estimator.frontier_seq(),
                    old(self).follower.remote_time_estimator.cursor(),
                    remote_time_since_start as int,
                );
                final(self).most_recent() == (if e < i64::MIN {
                    i64::MIN
                } else if e > i64::MAX {
                    i64::MAX
                } else {
                    e as i64
                })
            }),
    {
        self.most_recent_mouse_move = self.follower.remote_time_estimator.estimate_local_time(
            remote_time_since_start,
        );
    }
}

} // verus!
