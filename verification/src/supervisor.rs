//! The arbitration and decision layer: consumes sample reports,
//! drives the per-channel classifiers, decides which follower owns
//! the pointer (whoever moved most recently, never retargeting while
//! a click is held), and emits click and scroll commands. All I/O —
//! receiving reports, polling the pointer, delivering commands —
//! happens outside this crate; each handler takes plain values and
//! returns the commands to deliver.

use vstd::prelude::*;
use crate::config::Variables;
use crate::follower::{
    LocalFollower, MessageFromFollower, MessageToFollower, RemoteFollower, SupervisedFollower,
};
use crate::protocol::ReportFromServer;
use crate::remote_time_estimator::{
    estimate_spec, pruned, RemoteTimeEstimator, ESTIMATOR_TIME_BOUND,
};
use crate::signal::{signal_step_rel, ActiveState, Signal, TIME_LIMIT_MICROS};

verus! {

/// A follower that moved within this window is presumed to be under
/// the user's hand: firing a click beneath it would interfere.
pub const RECENT_MOVE_WINDOW_MICROS: i64 = 50_000;

/// A follower that has not moved within this window is stale: firing
/// a click at it would go nowhere the user is looking.
pub const STALE_MOVE_WINDOW_MICROS: i64 = 10_000_000;

/// How the supervisor is started: where to reach the sampling device
/// and which ports serve the dashboard and the followers. The
/// listening itself happens outside this crate.
pub struct SupervisorOptions {
    pub server_address: String,
    pub gui_port: u16,
    pub follower_port: u16,
}

/// Which follower currently owns the pointer.
#[derive(Clone, Copy, PartialEq, Eq, Structural, Debug)]
pub enum FollowerId {
    Local,
    Remote(usize),
}

/// Classification and timing state for one sampling device: its run
/// id, the estimator that maps its sample indices onto the local
/// clock, and one classifier per channel.
pub struct SupervisedServer {
    pub server_run_id: u64,
    pub remote_time_estimator: RemoteTimeEstimator,
    pub signals: Vec<Signal>,
}

/// A channel classifier holding no state yet.
pub open spec fn signal_fresh(s: Signal) -> bool {
    &&& s.total_inputs == 0
    &&& s.frequency_states@.len() == 0
    &&& s.recent_raw_inputs@.len() == 0
    &&& s.history@.len() == 0
    &&& s.aggregate_activity_level == 0
    &&& s.active_state == (ActiveState::Inactive {
        last_deactivated_time: i64::MIN,
        last_deactivated_sample: i64::MIN,
    })
}

/// The number of channels a sampling device reports.
pub const CHANNEL_COUNT: usize = 4;

/// The channel whose gesture means a click.
pub const CLICK_CHANNEL: usize = 2;

/// The channels whose gestures mean scrolling up and down.
pub const SCROLL_UP_CHANNEL: usize = 0;

pub const SCROLL_DOWN_CHANNEL: usize = 1;

impl SupervisedServer {
    pub open spec fn wf(&self) -> bool {
        &&& self.signals@.len() == CHANNEL_COUNT
        &&& forall|i: int| 0 <= i < CHANNEL_COUNT ==> (#[trigger] self.signals@[i]).wf()
        &&& self.remote_time_estimator.wf()
    }

    /// A server that has not reported yet.
    pub fn new() -> (r: SupervisedServer)
        ensures
            r.wf(),
            r.server_run_id == 0,
            forall|i: int| 0 <= i < CHANNEL_COUNT ==> signal_fresh(#[trigger] r.signals@[i]),
            r.remote_time_estimator.frontier_seq() == Seq::<(i64, i64)>::empty(),
            r.remote_time_estimator.tolerance_spec() == 200i64,
            r.remote_time_estimator.cursor() == 0,
    {
        let mut signals: Vec<Signal> = Vec::new();
        signals.push(Signal::default());
        signals.push(Signal::default());
        signals.push(Signal::default());
        signals.push(Signal::default());
        SupervisedServer {
            server_run_id: 0,
            remote_time_estimator: RemoteTimeEstimator::default(),
            signals,
        }
    }

    /// The device reconnected or rebooted: all classification and
    /// timing state is zeroed and reused.
    pub fn reconnected(&mut self)
        ensures
            final(self).wf(),
            final(self).server_run_id == old(self).server_run_id,
            forall|i: int|
                0 <= i < CHANNEL_COUNT ==> signal_fresh(#[trigger] final(self).signals@[i]),
            final(self).remote_time_estimator.frontier_seq() == Seq::<(i64, i64)>::empty(),
            final(self).remote_time_estimator.tolerance_spec() == 200i64,
            final(self).remote_time_estimator.cursor() == 0,
    {
        let mut signals: Vec<Signal> = Vec::new();
        signals.push(Signal::default());
        signals.push(Signal::default());
        signals.push(Signal::default());
        signals.push(Signal::default());
        self.signals = signals;
        self.remote_time_estimator = RemoteTimeEstimator::default();
    }
}

/// A raw sample report, as the transport hands it over, stamped with
/// the local time it arrived.
pub struct MessageFromServer {
    pub server_index: usize,
    pub local_time_received: i64,
    pub report: ReportFromServer,
}

/// The transport reconnected to a device.
pub struct ServerReconnected {
    pub server_index: usize,
}

/// A message from a follower the transport has already identified.
pub struct MessageFromIdentifiedFollower {
    pub follower_index: usize,
    pub message: MessageFromFollower,
}

/// A newly connected remote follower, ready to be supervised.
pub struct NewFollower {
    pub name: String,
    pub follower: SupervisedFollower<RemoteFollower>,
}

/// The index, among the remote followers, of the one with the latest
/// move time; ties resolve toward the later index.
pub open spec fn remote_argmax_last(s: Seq<(String, SupervisedFollower<RemoteFollower>)>) -> int
    decreases s.len(),
{
    if s.len() <= 1 {
        0
    } else {
        let j = remote_argmax_last(s.drop_last());
        if s.last().1.most_recent() >= s[j].1.most_recent() {
            s.len() - 1
        } else {
            j
        }
    }
}

pub proof fn lemma_remote_argmax_last_is_max(s: Seq<(String, SupervisedFollower<RemoteFollower>)>)
    requires
        s.len() >= 1,
    ensures
        0 <= remote_argmax_last(s) < s.len(),
        forall|i: int|
            0 <= i < s.len() ==> (#[trigger] s[i]).1.most_recent()
                <= s[remote_argmax_last(s)].1.most_recent(),
    decreases s.len(),
{
    if s.len() > 1 {
        lemma_remote_argmax_last_is_max(s.drop_last());
        assert(forall|i: int| 0 <= i < s.len() - 1 ==> s[i] == s.drop_last()[i]);
    }
}

/// Which follower arbitration picks: the remote follower with the
/// latest move if that beats the local one, else the local follower —
/// unless a click is held, in which case ownership never changes.
pub open spec fn arbitrated_follower(
    mouse_pressed: bool,
    current: FollowerId,
    remotes: Seq<(String, SupervisedFollower<RemoteFollower>)>,
    local_move: int,
) -> FollowerId {
    if mouse_pressed {
        current
    } else if remotes.len() > 0 && remotes[remote_argmax_last(remotes)].1.most_recent()
        > local_move {
        FollowerId::Remote(remote_argmax_last(remotes) as usize)
    } else {
        FollowerId::Local
    }
}

/// Whether a click may fire: the system is enabled and the target
/// follower moved long enough ago not to be under the user's hand,
/// yet recently enough not to be stale.
pub open spec fn click_allowed_spec(now: int, move_time: int, enabled: bool) -> bool {
    &&& enabled
    &&& !(now - move_time < RECENT_MOVE_WINDOW_MICROS)
    &&& now - move_time < STALE_MOVE_WINDOW_MICROS
}

fn click_allowed(now: i64, move_time: i64, enabled: bool) -> (r: bool)
    ensures
        r == click_allowed_spec(now as int, move_time as int, enabled),
{
    if !enabled {
        return false;
    }
    let age: i128 = (now as i128) - (move_time as i128);
    age >= RECENT_MOVE_WINDOW_MICROS as i128 && age < STALE_MOVE_WINDOW_MICROS as i128
}

/// The accelerating scroll schedule: how many ticks a sustained
/// scroll gesture has earned after the given number of samples — a
/// quadratic ramp with a linear head start, so the pace rises the
/// longer the gesture holds.
pub open spec fn scroll_progress_spec(inputs: int) -> int {
    (inputs * 400 + inputs * inputs + 119_999) / 120_000
}

pub fn scroll_progress(inputs: u64) -> (r: u64)
    requires
        inputs <= 3_000_000_000,
    ensures
        r == scroll_progress_spec(inputs as int),
{
    proof {
        assert((inputs as int) * (inputs as int) <= 9_000_000_000_000_000_000) by (nonlinear_arith)
            requires 0 <= inputs <= 3_000_000_000
        ;
        vstd::arithmetic::div_mod::lemma_div_pos_is_pos(
            (inputs as int) * 400 + (inputs as int) * (inputs as int) + 119_999,
            120_000,
        );
        vstd::arithmetic::div_mod::lemma_div_is_ordered(
            (inputs as int) * 400 + (inputs as int) * (inputs as int) + 119_999,
            9_000_000_000_000_000_000int + 1_200_000_000_000 + 119_999,
            120_000,
        );
    }
    let num: u128 = (inputs as u128) * 400 + (inputs as u128) * (inputs as u128) + 119_999;
    (num / 120_000) as u64
}

/// The time a sample carries, from its index in the device's stream:
/// the device samples at 1020 Hz.
pub open spec fn sample_time_micros(sample_index: int) -> int {
    (sample_index * 1_000_000) / 1020
}

/// The commands one sample gives rise to, with the click and scroll
/// bookkeeping it leaves behind:
/// - a press on the click channel's Inactive-to-Active edge, but only
///   when the click gate (`allowed`) holds, and then the button is
///   held;
/// - a release on its Active-to-Inactive edge whenever the button is
///   held, unconditionally;
/// - while enabled and exactly one scroll channel is active, one
///   scroll tick whenever the accelerating schedule increments, the
///   direction following the active channel; the scroll counter
///   advances, and resets whenever the channels agree again.
pub open spec fn sample_actions(
    click_before: bool,
    click_after: bool,
    scroll_up: bool,
    scroll_down: bool,
    enabled: bool,
    pressed: bool,
    counter: int,
    allowed: bool,
    owner: FollowerId,
) -> (Seq<(FollowerId, MessageToFollower)>, bool, int) {
    let click = if click_after != click_before {
        if click_after {
            if allowed {
                (seq![(owner, MessageToFollower::Mousedown)], true)
            } else {
                (Seq::<(FollowerId, MessageToFollower)>::empty(), pressed)
            }
        } else {
            if pressed {
                (seq![(owner, MessageToFollower::MouseUp)], false)
            } else {
                (Seq::<(FollowerId, MessageToFollower)>::empty(), pressed)
            }
        }
    } else {
        (Seq::<(FollowerId, MessageToFollower)>::empty(), pressed)
    };
    let scroll = if enabled && scroll_up != scroll_down {
        (
            if scroll_progress_spec(counter + 1) > scroll_progress_spec(counter) {
                seq![
                    (
                        owner,
                        MessageToFollower::ScrollY(
                            if scroll_up {
                                1i32
                            } else {
                                -1i32
                            },
                        ),
                    ),
                ]
            } else {
                Seq::<(FollowerId, MessageToFollower)>::empty()
            },
            counter + 1,
        )
    } else {
        (Seq::<(FollowerId, MessageToFollower)>::empty(), 0int)
    };
    (click.0 + scroll.0, click.1, scroll.1)
}

/// The commands of the first k samples of a report, folded in order
/// over the channel-state trace: `trace[k]` holds the four channels
/// as they stand after k samples, so each sample's click edge is
/// judged between consecutive trace entries and its scroll decision
/// on the entry after it.
pub open spec fn fold_decisions(
    trace: Seq<Seq<Signal>>,
    enabled: bool,
    allowed: bool,
    owner: FollowerId,
    pressed0: bool,
    counter0: int,
    k: nat,
) -> (Seq<(FollowerId, MessageToFollower)>, bool, int)
    decreases k,
{
    if k == 0 {
        (Seq::<(FollowerId, MessageToFollower)>::empty(), pressed0, counter0)
    } else {
        let prior = fold_decisions(trace, enabled, allowed, owner, pressed0, counter0, (k - 1) as nat);
        let step = sample_actions(
            trace[k - 1][CLICK_CHANNEL as int].active_state is Active,
            trace[k as int][CLICK_CHANNEL as int].active_state is Active,
            trace[k as int][SCROLL_UP_CHANNEL as int].active_state is Active,
            trace[k as int][SCROLL_DOWN_CHANNEL as int].active_state is Active,
            enabled,
            prior.1,
            prior.2,
            allowed,
            owner,
        );
        (prior.0 + step.0, step.1, step.2)
    }
}

/// A witness trace through one report: after an optional fresh
/// restart of the channels, every sample advances all four channel
/// classifiers by `signal_step_rel` at its indexed time, and the
/// emitted commands with the final click/scroll bookkeeping are
/// exactly the fold of the per-sample decisions along the trace.
pub open spec fn report_trace_ok(
    trace: Seq<Seq<Signal>>,
    reset: bool,
    old_signals: Seq<Signal>,
    fin_signals: Seq<Signal>,
    raws: Seq<[u16; 4]>,
    first_index: int,
    vars: Variables,
    enabled: bool,
    allowed: bool,
    owner: FollowerId,
    pressed0: bool,
    counter0: int,
    actions: Seq<(FollowerId, MessageToFollower)>,
    pressed1: bool,
    counter1: int,
) -> bool {
    &&& trace.len() == raws.len() + 1
    &&& (reset ==> trace[0].len() == CHANNEL_COUNT && (forall|ch: int|
        0 <= ch < CHANNEL_COUNT ==> signal_fresh(#[trigger] trace[0][ch])))
    &&& (!reset ==> trace[0] == old_signals)
    &&& trace[raws.len() as int] == fin_signals
    &&& (forall|k: int, ch: int|
        0 <= k < raws.len() && 0 <= ch < CHANNEL_COUNT ==> signal_step_rel(
            #[trigger] trace[k][ch],
            trace[k + 1][ch],
            raws[k][ch],
            sample_time_micros(first_index + k),
            vars,
        ))
    &&& (actions, pressed1, counter1) == fold_decisions(
        trace,
        enabled,
        allowed,
        owner,
        pressed0,
        counter0,
        raws.len(),
    )
}

/// One report's worth of classification and decisions, as the report
/// handler promises it: some channel-state trace witnesses the
/// processing.
pub open spec fn report_decisions(
    reset: bool,
    old_signals: Seq<Signal>,
    fin_signals: Seq<Signal>,
    raws: Seq<[u16; 4]>,
    first_index: int,
    vars: Variables,
    enabled: bool,
    allowed: bool,
    owner: FollowerId,
    pressed0: bool,
    counter0: int,
    actions: Seq<(FollowerId, MessageToFollower)>,
    pressed1: bool,
    counter1: int,
) -> bool {
    exists|trace: Seq<Seq<Signal>>|
        #[trigger] report_trace_ok(
            trace,
            reset,
            old_signals,
            fin_signals,
            raws,
            first_index,
            vars,
            enabled,
            allowed,
            owner,
            pressed0,
            counter0,
            actions,
            pressed1,
            counter1,
        )
}

/// The most recent move time of the follower that owns the pointer.
pub open spec fn owner_move_spec(s: Supervisor) -> int {
    match s.active_follower_id {
        FollowerId::Local => s.local_follower.most_recent() as int,
        FollowerId::Remote(i) => s.remote_followers@[i as int].1.most_recent() as int,
    }
}

/// The decision fold reads the trace only up to its index, so
/// extending the trace leaves it unchanged.
proof fn lemma_fold_decisions_prefix(
    t1: Seq<Seq<Signal>>,
    t2: Seq<Seq<Signal>>,
    enabled: bool,
    allowed: bool,
    owner: FollowerId,
    pressed0: bool,
    counter0: int,
    k: nat,
)
    requires
        k < t1.len(),
        k < t2.len(),
        forall|j: int| 0 <= j <= k ==> t1[j] == #[trigger] t2[j],
    ensures
        fold_decisions(t1, enabled, allowed, owner, pressed0, counter0, k) == fold_decisions(
            t2,
            enabled,
            allowed,
            owner,
            pressed0,
            counter0,
            k,
        ),
    decreases k,
{
    if k > 0 {
        lemma_fold_decisions_prefix(
            t1,
            t2,
            enabled,
            allowed,
            owner,
            pressed0,
            counter0,
            (k - 1) as nat,
        );
    }
}

/// A report processed from freshly restarted channels also witnesses
/// the run-id-change form of the report promise, whatever the
/// channels held before the restart.
proof fn lemma_report_decisions_after_reset(
    fresh_init: Seq<Signal>,
    old_signals: Seq<Signal>,
    fin_signals: Seq<Signal>,
    raws: Seq<[u16; 4]>,
    first_index: int,
    vars: Variables,
    enabled: bool,
    allowed: bool,
    owner: FollowerId,
    pressed0: bool,
    counter0: int,
    actions: Seq<(FollowerId, MessageToFollower)>,
    pressed1: bool,
    counter1: int,
)
    requires
        report_decisions(
            false,
            fresh_init,
            fin_signals,
            raws,
            first_index,
            vars,
            enabled,
            allowed,
            owner,
            pressed0,
            counter0,
            actions,
            pressed1,
            counter1,
        ),
        fresh_init.len() == CHANNEL_COUNT,
        forall|ch: int| 0 <= ch < CHANNEL_COUNT ==> signal_fresh(#[trigger] fresh_init[ch]),
    ensures
        report_decisions(
            true,
            old_signals,
            fin_signals,
            raws,
            first_index,
            vars,
            enabled,
            allowed,
            owner,
            pressed0,
            counter0,
            actions,
            pressed1,
            counter1,
        ),
{
    let trace = choose|trace: Seq<Seq<Signal>>|
        #[trigger] report_trace_ok(
            trace,
            false,
            fresh_init,
            fin_signals,
            raws,
            first_index,
            vars,
            enabled,
            allowed,
            owner,
            pressed0,
            counter0,
            actions,
            pressed1,
            counter1,
        );
    assert(report_trace_ok(
        trace,
        true,
        old_signals,
        fin_signals,
        raws,
        first_index,
        vars,
        enabled,
        allowed,
        owner,
        pressed0,
        counter0,
        actions,
        pressed1,
        counter1,
    ));
}

/// One pointer-owning session: the followers, the per-device
/// classification state, and the switches the decision rules read.
pub struct Supervisor {
    pub total_inputs: u64,
    pub local_follower: SupervisedFollower<LocalFollower>,
    pub remote_followers: Vec<(String, SupervisedFollower<RemoteFollower>)>,
    pub active_follower_id: FollowerId,
    pub servers: Vec<SupervisedServer>,
    pub enabled: bool,
    pub mouse_pressed: bool,
    pub inputs_since_scroll_start: u64,
    pub variables: Variables,
}

impl Supervisor {
    pub open spec fn wf(&self) -> bool {
        &&& forall|i: int| 0 <= i < self.servers@.len() ==> (#[trigger] self.servers@[i]).wf()
        &&& (self.active_follower_id matches FollowerId::Remote(i) ==> i
            < self.remote_followers@.len())
        &&& (self.mouse_pressed ==> self.enabled)
        &&& self.variables.wf()
        &&& forall|i: int|
            0 <= i < self.remote_followers@.len() ==> (
            #[trigger] self.remote_followers@[i]).1.follower.remote_time_estimator.wf()
    }

    /// A fresh supervisor over the given number of sampling devices,
    /// counting `now` as the local follower's last move. It starts
    /// disabled: gestures classify but no commands fire until the
    /// user enables it.
    pub fn new(server_count: usize, now: i64) -> (r: Supervisor)
        ensures
            r.wf(),
            r.total_inputs == 0,
            r.servers@.len() == server_count,
            r.remote_followers@.len() == 0,
            r.active_follower_id == FollowerId::Local,
            !r.enabled,
            !r.mouse_pressed,
            r.inputs_since_scroll_start == 0,
            r.local_follower.most_recent() == now,
            r.variables == (Variables {
                activity_threshold: 60_000_000,
                max_activity_contribution_per_frequency: 8_000_000,
            }),
            forall|i: int|
                0 <= i < server_count ==> (#[trigger] r.servers@[i]).server_run_id == 0 && forall|
                    j: int,
                |
                    0 <= j < CHANNEL_COUNT ==> signal_fresh(#[trigger] r.servers@[i].signals@[j]),
    {
        let mut servers: Vec<SupervisedServer> = Vec::new();
        let mut i: usize = 0;
        while i < server_count
            invariant
                0 <= i <= server_count,
                servers@.len() == i,
                forall|k: int| 0 <= k < i ==> (#[trigger] servers@[k]).wf(),
                forall|k: int|
                    0 <= k < i ==> (#[trigger] servers@[k]).server_run_id == 0 && forall|j: int|
                        0 <= j < CHANNEL_COUNT ==> signal_fresh(
                            #[trigger] servers@[k].signals@[j],
                        ),
            decreases server_count - i,
        {
            servers.push(SupervisedServer::new());
            i = i + 1;
        }
        Supervisor {
            total_inputs: 0,
            local_follower: SupervisedFollower::new(LocalFollower::new(), now),
            remote_followers: Vec::new(),
            active_follower_id: FollowerId::Local,
            servers,
            enabled: false,
            mouse_pressed: false,
            inputs_since_scroll_start: 0,
            variables: Variables::default(),
        }
    }

    /// The most recent move time of whichever follower currently owns
    /// the pointer.
    pub fn active_follower_most_recent_mouse_move(&self) -> (r: i64)
        requires
            self.active_follower_id matches FollowerId::Remote(i) ==> i
                < self.remote_followers@.len(),
        ensures
            r == (match self.active_follower_id {
                FollowerId::Local => self.local_follower.most_recent(),
                FollowerId::Remote(i) => self.remote_followers@[i as int].1.most_recent(),
            }),
    {
        match self.active_follower_id {
            FollowerId::Local => self.local_follower.most_recent_mouse_move(),
            FollowerId::Remote(i) => self.remote_followers[i].1.most_recent_mouse_move(),
        }
    }

    /// Re-arbitrates pointer ownership toward whoever moved most
    /// recently — except that ownership never changes while a click
    /// is held, so a button state change is never retargeted
    /// mid-gesture.
    pub fn update_active_follower(&mut self)
        requires
            old(self).active_follower_id matches FollowerId::Remote(i) ==> i < old(
                self,
            ).remote_followers@.len(),
        ensures
            final(self).active_follower_id == arbitrated_follower(
                old(self).mouse_pressed,
                old(self).active_follower_id,
                old(self).remote_followers@,
                old(self).local_follower.most_recent() as int,
            ),
            final(self).active_follower_id matches FollowerId::Remote(i) ==> i < old(
                self,
            ).remote_followers@.len(),
            final(self).total_inputs == old(self).total_inputs,
            final(self).local_follower == old(self).local_follower,
            final(self).remote_followers == old(self).remote_followers,
            final(self).servers == old(self).servers,
            final(self).enabled == old(self).enabled,
            final(self).mouse_pressed == old(self).mouse_pressed,
            final(self).inputs_since_scroll_start == old(self).inputs_since_scroll_start,
            final(self).variables == old(self).variables,
    {
        if self.mouse_pressed {
            return ;
        }
        if self.remote_followers.len() == 0 {
            self.active_follower_id = FollowerId::Local;
            return ;
        }
        let mut best: usize = 0;
        let mut k: usize = 1;
        proof {
            assert(self.remote_followers@.subrange(0, 1).len() == 1);
        }
        while k < self.remote_followers.len()
            invariant
                1 <= k <= self.remote_followers@.len(),
                best < k,
                best == remote_argmax_last(self.remote_followers@.subrange(0, k as int)),
            decreases self.remote_followers@.len() - k,
        {
            proof {
                assert(self.remote_followers@.subrange(0, k + 1).drop_last()
                    =~= self.remote_followers@.subrange(0, k as int));
                assert(self.remote_followers@.subrange(0, k + 1).last()
                    == self.remote_followers@[k as int]);
            }
            if self.remote_followers[k].1.most_recent_mouse_move()
                >= self.remote_followers[best].1.most_recent_mouse_move() {
                best = k;
            }
            k = k + 1;
        }
        proof {
            assert(self.remote_followers@.subrange(0, self.remote_followers@.len() as int)
                =~= self.remote_followers@);
        }
        if self.remote_followers[best].1.most_recent_mouse_move()
            > self.local_follower.most_recent_mouse_move() {
            self.active_follower_id = FollowerId::Remote(best);
        } else {
            self.active_follower_id = FollowerId::Local;
        }
    }

    /// Registers a freshly connected remote follower and returns the
    /// index it will be addressed by.
    pub fn handle_new_follower(&mut self, message: NewFollower) -> (index: usize)
        requires
            old(self).wf(),
            message.follower.follower.remote_time_estimator.wf(),
        ensures
            final(self).wf(),
            index == old(self).remote_followers@.len(),
            final(self).remote_followers@ == old(self).remote_followers@.push(
                (message.name, message.follower),
            ),
            final(self).total_inputs == old(self).total_inputs,
            final(self).local_follower == old(self).local_follower,
            final(self).servers == old(self).servers,
            final(self).active_follower_id == old(self).active_follower_id,
            final(self).enabled == old(self).enabled,
            final(self).mouse_pressed == old(self).mouse_pressed,
            final(self).variables == old(self).variables,
    {
        let index = self.remote_followers.len();
        let NewFollower { name, follower } = message;
        self.remote_followers.push((name, follower));
        index
    }

    /// The transport reconnected to a device: its classification and
    /// timing state is zeroed.
    pub fn handle_server_reconnected(&mut self, message: ServerReconnected)
        requires
            old(self).wf(),
            message.server_index < old(self).servers@.len(),
        ensures
            final(self).wf(),
            final(self).servers@.len() == old(self).servers@.len(),
            forall|j: int|
                0 <= j < old(self).servers@.len() && j != message.server_index
                    ==> #[trigger] final(self).servers@[j] == old(self).servers@[j],
            ({
                let s = final(self).servers@[message.server_index as int];
                &&& s.server_run_id == old(self).servers@[message.server_index as int].server_run_id
                &&& forall|j: int| 0 <= j < CHANNEL_COUNT ==> signal_fresh(#[trigger] s.signals@[j])
                &&& s.remote_time_estimator.frontier_seq() == Seq::<(i64, i64)>::empty()
                &&& s.remote_time_estimator.tolerance_spec() == 200i64
            }),
            final(self).total_inputs == old(self).total_inputs,
            final(self).local_follower == old(self).local_follower,
            final(self).remote_followers == old(self).remote_followers,
            final(self).active_follower_id == old(self).active_follower_id,
            final(self).enabled == old(self).enabled,
            final(self).mouse_pressed == old(self).mouse_pressed,
            final(self).variables == old(self).variables,
    {
        let idx = message.server_index;
        let mut server = self.servers.remove(idx);
        server.reconnected();
        self.servers.insert(idx, server);
        proof {
            assert(final(self).servers@ =~= old(self).servers@.update(
                idx as int,
                final(self).servers@[idx as int],
            ));
        }
    }

    /// A remote follower reported a pointer move at a time by its own
    /// clock: the observation feeds its clock estimator, and the
    /// translated local time becomes its most recent move.
    pub fn handle_message_from_identified_follower(
        &mut self,
        message: MessageFromIdentifiedFollower,
        now: i64,
    )
        requires
            old(self).wf(),
            message.follower_index < old(self).remote_followers@.len(),
            0 <= now <= ESTIMATOR_TIME_BOUND,
            message.message matches MessageFromFollower::MouseMoved { time_since_start_micros }
                ==> 0 <= time_since_start_micros <= ESTIMATOR_TIME_BOUND,
            ({
                let f = old(self).remote_followers@[
                    message.follower_index as int].1.follower.remote_time_estimator.frontier_seq();
                match message.message {
                    MessageFromFollower::MouseMoved { time_since_start_micros } => f.len() > 0
                        ==> f.last().0 <= time_since_start_micros && f.last().1 <= now,
                }
            }),
        ensures
            final(self).wf(),
            final(self).remote_followers@.len() == old(self).remote_followers@.len(),
            forall|j: int|
                0 <= j < old(self).remote_followers@.len() && j != message.follower_index
                    ==> #[trigger] final(self).remote_followers@[j] == old(
                    self,
                ).remote_followers@[j],
            ({
                let t = (match message.message {
                    MessageFromFollower::MouseMoved { time_since_start_micros } =>
                        time_since_start_micros,
                });
                let fol = final(self).remote_followers@[message.follower_index as int].1;
                let est = fol.follower.remote_time_estimator;
                let e = estimate_spec(est.frontier_seq(), est.cursor(), t as int);
                &&& est.frontier_seq().len() >= 1
                &&& fol.most_recent() == (if e < i64::MIN {
                    i64::MIN
                } else if e > i64::MAX {
                    i64::MAX
                } else {
                    e as i64
                })
            }),
            final(self).total_inputs == old(self).total_inputs,
            final(self).local_follower == old(self).local_follower,
            final(self).servers == old(self).servers,
            final(self).active_follower_id == old(self).active_follower_id,
            final(self).enabled == old(self).enabled,
            final(self).mouse_pressed == old(self).mouse_pressed,
            final(self).variables == old(self).variables,
    {
        let idx = message.follower_index;
        let MessageFromIdentifiedFollower { follower_index: _, message } = message;
        match message {
            MessageFromFollower::MouseMoved { time_since_start_micros } => {
                let mut entry = self.remote_followers.remove(idx);
                entry.1.observe_message(time_since_start_micros, now);
                entry.1.remote_mouse_moved(time_since_start_micros);
                self.remote_followers.insert(idx, entry);
                proof {
                    assert(final(self).remote_followers@ =~= old(self).remote_followers@.update(
                        idx as int,
                        final(self).remote_followers@[idx as int],
                    ));
                }
            },
        }
    }

    /// Enables or disables command output. Disabling while a click is
    /// held releases it first, so the button is never left down.
    pub fn set_enabled(&mut self, new_enabled: bool) -> (actions: Vec<(FollowerId,
        MessageToFollower)>)
        requires
            old(self).wf(),
        ensures
            final(self).wf(),
            final(self).enabled == new_enabled,
            old(self).mouse_pressed && !new_enabled ==> !final(self).mouse_pressed && actions@
                == seq![(old(self).active_follower_id, MessageToFollower::MouseUp)],
            !(old(self).mouse_pressed && !new_enabled) ==> final(self).mouse_pressed == (old(
                self,
            ).mouse_pressed && new_enabled) && actions@.len() == 0,
            final(self).total_inputs == old(self).total_inputs,
            final(self).local_follower == old(self).local_follower,
            final(self).remote_followers == old(self).remote_followers,
            final(self).servers == old(self).servers,
            final(self).active_follower_id == old(self).active_follower_id,
            final(self).variables == old(self).variables,
    {
        let mut actions: Vec<(FollowerId, MessageToFollower)> = Vec::new();
        if self.mouse_pressed && !new_enabled {
            actions.push((self.active_follower_id, MessageToFollower::MouseUp));
            self.mouse_pressed = false;
        }
        self.enabled = new_enabled;
        proof {
            if old(self).mouse_pressed && !new_enabled {
                assert(actions@ =~= seq![
                    (old(self).active_follower_id, MessageToFollower::MouseUp),
                ]);
            }
        }
        actions
    }

    /// Classifies one sample on all four channels and makes its click
    /// and scroll decisions, appending the commands it emits: exactly
    /// `sample_actions` of the click channel's edge and the scroll
    /// channels' states, judged at the sample's indexed time.
    #[verifier::loop_isolation(false)]
    #[verifier::rlimit(100)]
    #[verifier::spinoff_prover]
    fn process_one_sample(
        &mut self,
        server: &mut SupervisedServer,
        inputs: [u16; 4],
        sample_index: u64,
        local_time_received: i64,
        actions: &mut Vec<(FollowerId, MessageToFollower)>,
    )
        requires
            old(server).signals@.len() == CHANNEL_COUNT,
            forall|ch: int| 0 <= ch < CHANNEL_COUNT ==> (#[trigger] old(server).signals@[ch]).wf(),
            forall|ch: int|
                0 <= ch < CHANNEL_COUNT ==> (#[trigger] old(server).signals@[ch]).total_inputs
                    < TIME_LIMIT_MICROS,
            old(self).variables.wf(),
            old(self).mouse_pressed ==> old(self).enabled,
            old(self).active_follower_id matches FollowerId::Remote(i) ==> i < old(
                self).remote_followers@.len(),
            sample_index < 4_000_000_000_000,
            0 <= local_time_received <= ESTIMATOR_TIME_BOUND,
            old(self).total_inputs < TIME_LIMIT_MICROS,
            old(self).inputs_since_scroll_start + 1 < 3_000_000_000,
        ensures
            final(server).signals@.len() == CHANNEL_COUNT,
            forall|ch: int|
                0 <= ch < CHANNEL_COUNT ==> (#[trigger] final(server).signals@[ch]).wf(),
            forall|ch: int|
                0 <= ch < CHANNEL_COUNT ==> signal_step_rel(
                    old(server).signals@[ch],
                    #[trigger] final(server).signals@[ch],
                    inputs[ch],
                    sample_time_micros(sample_index as int),
                    old(self).variables,
                ),
            final(server).remote_time_estimator == old(server).remote_time_estimator,
            final(server).server_run_id == old(server).server_run_id,
            final(self).total_inputs == old(self).total_inputs + 1,
            final(self).local_follower == old(self).local_follower,
            final(self).remote_followers == old(self).remote_followers,
            final(self).active_follower_id == old(self).active_follower_id,
            final(self).servers == old(self).servers,
            final(self).enabled == old(self).enabled,
            final(self).variables == old(self).variables,
            final(self).mouse_pressed ==> final(self).enabled,
            ({
                let step = sample_actions(
                    old(server).signals@[CLICK_CHANNEL as int].active_state is Active,
                    final(server).signals@[CLICK_CHANNEL as int].active_state is Active,
                    final(server).signals@[SCROLL_UP_CHANNEL as int].active_state is Active,
                    final(server).signals@[SCROLL_DOWN_CHANNEL as int].active_state is Active,
                    old(self).enabled,
                    old(self).mouse_pressed,
                    old(self).inputs_since_scroll_start as int,
                    click_allowed_spec(
                        local_time_received as int,
                        owner_move_spec(*old(self)),
                        old(self).enabled,
                    ),
                    old(self).active_follower_id,
                );
                &&& final(actions)@ == old(actions)@ + step.0
                &&& final(self).mouse_pressed == step.1
                &&& final(self).inputs_since_scroll_start as int == step.2
            }),
            forall|k: int|
                old(actions)@.len() <= k < final(actions)@.len() ==> (#[trigger] final(
                    actions)@[k]).0 == old(self).active_follower_id,
            !old(self).enabled ==> final(actions)@ == old(actions)@ && final(self).mouse_pressed
                == old(self).mouse_pressed,
    {
        let time_micros: u64 = (((sample_index as u128) * 1_000_000) / 1020) as u64;
        proof {
            vstd::arithmetic::div_mod::lemma_div_is_ordered(
                (sample_index as int) * 1_000_000,
                4_000_000_000_000_000_000,
                1020,
            );
            vstd::arithmetic::div_mod::lemma_div_pos_is_pos(
                (sample_index as int) * 1_000_000,
                1020,
            );
            assert(4_000_000_000_000_000_000int / 1020 <= TIME_LIMIT_MICROS);
            assert(time_micros as int == sample_time_micros(sample_index as int));
        }
        let mouse_active_before = server.signals[CLICK_CHANNEL].is_active();

        let ghost pre_sigs = server.signals@;
        let ghost vars_g = self.variables;
        let mut ch: usize = 0;
        while ch < CHANNEL_COUNT
            invariant
                0 <= ch <= CHANNEL_COUNT,
                server.signals@.len() == CHANNEL_COUNT,
                pre_sigs.len() == CHANNEL_COUNT,
                time_micros <= TIME_LIMIT_MICROS,
                time_micros as int == sample_time_micros(sample_index as int),
                server.remote_time_estimator == old(server).remote_time_estimator,
                server.server_run_id == old(server).server_run_id,
                forall|c: int|
                    0 <= c < CHANNEL_COUNT ==> (#[trigger] pre_sigs[c]).wf()
                        && pre_sigs[c].total_inputs < TIME_LIMIT_MICROS,
                forall|c: int| ch <= c < CHANNEL_COUNT ==> server.signals@[c] == pre_sigs[c],
                forall|c: int|
                    0 <= c < ch ==> (#[trigger] server.signals@[c]).wf() && signal_step_rel(
                        pre_sigs[c],
                        server.signals@[c],
                        inputs[c],
                        sample_time_micros(sample_index as int),
                        vars_g,
                    ),
            decreases CHANNEL_COUNT - ch,
        {
            let ghost before = server.signals@;
            let mut sig = server.signals.remove(ch);
            proof {
                assert(sig == before[ch as int]);
                assert(before[ch as int] == pre_sigs[ch as int]);
                assert(pre_sigs[ch as int].wf());
                assert(pre_sigs[ch as int].total_inputs < TIME_LIMIT_MICROS);
            }
            let raw: u16 = inputs[ch];
            let _ = sig.receive_raw(raw, time_micros, &self.variables);
            server.signals.insert(ch, sig);
            proof {
                assert(server.signals@ =~= before.update(ch as int, sig));
            }
            ch = ch + 1;
        }

        let ghost acts_before = actions@;
        let ghost pressed_before = self.mouse_pressed;
        let ghost counter_before = self.inputs_since_scroll_start as int;
        let ghost allowed_g = click_allowed_spec(
            local_time_received as int,
            owner_move_spec(*old(self)),
            self.enabled,
        );

        let mouse_active_now = server.signals[CLICK_CHANNEL].is_active();
        if mouse_active_now != mouse_active_before {
            if mouse_active_now {
                let move_time = self.active_follower_most_recent_mouse_move();
                proof {
                    assert(move_time as int == owner_move_spec(*old(self)));
                }
                if click_allowed(local_time_received, move_time, self.enabled) {
                    actions.push((self.active_follower_id, MessageToFollower::Mousedown));
                    self.mouse_pressed = true;
                }
            } else {
                if self.mouse_pressed {
                    actions.push((self.active_follower_id, MessageToFollower::MouseUp));
                    self.mouse_pressed = false;
                }
            }
        }

        let scroll_up_now = server.signals[SCROLL_UP_CHANNEL].is_active();
        let scroll_down_now = server.signals[SCROLL_DOWN_CHANNEL].is_active();
        if self.enabled && (scroll_up_now != scroll_down_now) {
            if scroll_progress(self.inputs_since_scroll_start + 1) > scroll_progress(
                self.inputs_since_scroll_start,
            ) {
                if scroll_up_now {
                    actions.push((self.active_follower_id, MessageToFollower::ScrollY(1)));
                } else {
                    actions.push((self.active_follower_id, MessageToFollower::ScrollY(-1)));
                }
            }
            self.inputs_since_scroll_start = self.inputs_since_scroll_start + 1;
        } else {
            self.inputs_since_scroll_start = 0;
        }

        self.total_inputs = self.total_inputs + 1;
        proof {
            let step = sample_actions(
                mouse_active_before,
                mouse_active_now,
                scroll_up_now,
                scroll_down_now,
                self.enabled,
                pressed_before,
                counter_before,
                allowed_g,
                self.active_follower_id,
            );
            assert(actions@ =~= acts_before + step.0);
        }
    }

    /// Drives the four channel classifiers over a whole report's
    /// samples, in order, collecting the click and scroll commands:
    /// the channels, the commands, and the click/scroll bookkeeping
    /// are pinned, via a witness trace, as the fold of the per-sample
    /// steps and decisions (`report_decisions`, without a restart).
    #[verifier::loop_isolation(false)]
    #[verifier::rlimit(100)]
    #[verifier::spinoff_prover]
    fn process_report(
        &mut self,
        server: &mut SupervisedServer,
        samples: &Vec<[u16; 4]>,
        first_sample_index: u64,
        local_time_received: i64,
    ) -> (actions: Vec<(FollowerId, MessageToFollower)>)
        requires
            old(server).signals@.len() == CHANNEL_COUNT,
            forall|ch: int| 0 <= ch < CHANNEL_COUNT ==> (#[trigger] old(server).signals@[ch]).wf(),
            forall|ch: int|
                0 <= ch < CHANNEL_COUNT ==> (#[trigger] old(server).signals@[ch]).total_inputs
                    + samples@.len() <= TIME_LIMIT_MICROS,
            old(self).variables.wf(),
            old(self).mouse_pressed ==> old(self).enabled,
            old(self).active_follower_id matches FollowerId::Remote(i) ==> i < old(
                self).remote_followers@.len(),
            first_sample_index + samples@.len() <= 4_000_000_000_000,
            0 <= local_time_received <= ESTIMATOR_TIME_BOUND,
            old(self).total_inputs + samples@.len() <= TIME_LIMIT_MICROS,
            old(self).inputs_since_scroll_start + samples@.len() < 3_000_000_000,
        ensures
            report_decisions(
                false,
                old(server).signals@,
                final(server).signals@,
                samples@,
                first_sample_index as int,
                old(self).variables,
                old(self).enabled,
                click_allowed_spec(
                    local_time_received as int,
                    owner_move_spec(*old(self)),
                    old(self).enabled,
                ),
                old(self).active_follower_id,
                old(self).mouse_pressed,
                old(self).inputs_since_scroll_start as int,
                actions@,
                final(self).mouse_pressed,
                final(self).inputs_since_scroll_start as int,
            ),
            final(server).signals@.len() == CHANNEL_COUNT,
            forall|ch: int|
                0 <= ch < CHANNEL_COUNT ==> (#[trigger] final(server).signals@[ch]).wf(),
            forall|ch: int|
                0 <= ch < CHANNEL_COUNT ==> (#[trigger] final(server).signals@[ch]).total_inputs
                    == old(server).signals@[ch].total_inputs + samples@.len(),
            final(server).remote_time_estimator == old(server).remote_time_estimator,
            final(server).server_run_id == old(server).server_run_id,
            final(self).total_inputs == old(self).total_inputs + samples@.len(),
            final(self).local_follower == old(self).local_follower,
            final(self).remote_followers == old(self).remote_followers,
            final(self).active_follower_id == old(self).active_follower_id,
            final(self).servers == old(self).servers,
            final(self).enabled == old(self).enabled,
            final(self).variables == old(self).variables,
            final(self).mouse_pressed ==> final(self).enabled,
            forall|k: int|
                0 <= k < actions@.len() ==> (#[trigger] actions@[k]).0 == old(
                    self).active_follower_id,
            !old(self).enabled ==> actions@.len() == 0 && final(self).mouse_pressed == old(
                self).mouse_pressed,
    {
        let sample_count = samples.len();
        let ghost init_sigs = server.signals@;
        let ghost vars_g = self.variables;
        let ghost enabled_g = self.enabled;
        let ghost af = self.active_follower_id;
        let ghost pressed0 = self.mouse_pressed;
        let ghost counter0 = self.inputs_since_scroll_start as int;
        let ghost allowed_g = click_allowed_spec(
            local_time_received as int,
            owner_move_spec(*old(self)),
            self.enabled,
        );
        let ghost mut trace: Seq<Seq<Signal>> = seq![init_sigs];
        let mut actions: Vec<(FollowerId, MessageToFollower)> = Vec::new();
        let mut i: usize = 0;
        while i < sample_count
            invariant
                0 <= i <= sample_count,
                trace.len() == i + 1,
                trace[0] == init_sigs,
                trace[i as int] == server.signals@,
                forall|k: int, ch: int|
                    0 <= k < i && 0 <= ch < CHANNEL_COUNT ==> signal_step_rel(
                        #[trigger] trace[k][ch],
                        trace[k + 1][ch],
                        samples@[k][ch],
                        sample_time_micros(first_sample_index + k),
                        vars_g,
                    ),
                (actions@, self.mouse_pressed, self.inputs_since_scroll_start as int)
                    == fold_decisions(trace, enabled_g, allowed_g, af, pressed0, counter0, i as nat),
                server.signals@.len() == CHANNEL_COUNT,
                forall|ch: int| 0 <= ch < CHANNEL_COUNT ==> (#[trigger] server.signals@[ch]).wf(),
                forall|ch: int|
                    0 <= ch < CHANNEL_COUNT ==> (#[trigger] server.signals@[ch]).total_inputs
                        == init_sigs[ch].total_inputs + i,
                server.remote_time_estimator == old(server).remote_time_estimator,
                server.server_run_id == old(server).server_run_id,
                self.total_inputs == old(self).total_inputs + i,
                self.inputs_since_scroll_start <= old(self).inputs_since_scroll_start + i,
                self.local_follower == old(self).local_follower,
                self.active_follower_id == af,
                self.remote_followers == old(self).remote_followers,
                self.servers == old(self).servers,
                self.enabled == enabled_g,
                self.variables == vars_g,
                self.mouse_pressed ==> self.enabled,
                forall|k: int| 0 <= k < actions@.len() ==> (#[trigger] actions@[k]).0 == af,
                !self.enabled ==> actions@.len() == 0 && self.mouse_pressed == pressed0,
            decreases sample_count - i,
        {
            let inputs: [u16; 4] = samples[i];
            let sample_index: u64 = first_sample_index + (i as u64);
            let ghost t_old = trace;
            let ghost pre_sigs = server.signals@;
            self.process_one_sample(
                server,
                inputs,
                sample_index,
                local_time_received,
                &mut actions,
            );
            proof {
                trace = trace.push(server.signals@);
                lemma_fold_decisions_prefix(
                    t_old,
                    trace,
                    enabled_g,
                    allowed_g,
                    af,
                    pressed0,
                    counter0,
                    i as nat,
                );
                assert forall|k: int, ch: int|
                    0 <= k < i + 1 && 0 <= ch < CHANNEL_COUNT implies signal_step_rel(
                    #[trigger] trace[k][ch],
                    trace[k + 1][ch],
                    samples@[k][ch],
                    sample_time_micros(first_sample_index + k),
                    vars_g,
                ) by {
                    if k < i {
                        assert(trace[k] == t_old[k] && trace[k + 1] == t_old[k + 1]);
                        assert(signal_step_rel(
                            t_old[k][ch],
                            t_old[k + 1][ch],
                            samples@[k][ch],
                            sample_time_micros(first_sample_index + k),
                            vars_g,
                        ));
                    } else {
                        assert(trace[k] == pre_sigs && trace[k + 1] == server.signals@);
                        assert(inputs[ch] == samples@[i as int][ch]);
                    }
                }
                assert((actions@, self.mouse_pressed, self.inputs_since_scroll_start as int)
                    == fold_decisions(
                    trace,
                    enabled_g,
                    allowed_g,
                    af,
                    pressed0,
                    counter0,
                    (i + 1) as nat,
                ));
            }
            i = i + 1;
        }
        proof {
            assert(report_trace_ok(
                trace,
                false,
                init_sigs,
                server.signals@,
                samples@,
                first_sample_index as int,
                vars_g,
                enabled_g,
                allowed_g,
                af,
                pressed0,
                counter0,
                actions@,
                self.mouse_pressed,
                self.inputs_since_scroll_start as int,
            ));
        }
        actions
    }

    /// Processes one raw sample report: a changed run id zeroes the
    /// device's state first; the report's last sample index feeds the
    /// device's clock estimator; one poll of the local pointer and a
    /// re-arbitration of ownership happen up front; then every sample
    /// drives all four channel classifiers, a click-channel edge
    /// presses or releases (pressing only when enabled and the owner
    /// moved neither too recently nor too long ago), and a scroll
    /// channel disagreement emits ticks on the accelerating schedule.
    /// The returned commands are for the transport to deliver, in
    /// order. Reports carry at least one sample: the estimator is fed
    /// the report's last sample index, which an empty report would
    /// not have.
    #[verifier::loop_isolation(false)]
    #[verifier::rlimit(100)]
    #[verifier::spinoff_prover]
    pub fn handle_message_from_server(
        &mut self,
        message: MessageFromServer,
        local_mouse_location: (i32, i32),
    ) -> (actions: Vec<(FollowerId, MessageToFollower)>)
        requires
            old(self).wf(),
            message.server_index < old(self).servers@.len(),
            0 <= message.local_time_received <= ESTIMATOR_TIME_BOUND,
            1 <= message.report.samples@.len(),
            message.report.first_sample_index + message.report.samples@.len()
                <= 4_000_000_000_000,
            old(self).total_inputs + message.report.samples@.len() <= TIME_LIMIT_MICROS,
            old(self).inputs_since_scroll_start + message.report.samples@.len()
                < 3_000_000_000,
            forall|ch: int|
                0 <= ch < CHANNEL_COUNT ==> (#[trigger] old(self).servers@[
                    message.server_index as int].signals@[ch]).total_inputs
                    + message.report.samples@.len() <= TIME_LIMIT_MICROS,
            ({
                let est = old(self).servers@[message.server_index as int].remote_time_estimator;
                let rt = message.report.first_sample_index + message.report.samples@.len() - 1;
                (message.report.server_run_id == old(self).servers@[
                    message.server_index as int].server_run_id && est.frontier_seq().len() > 0)
                    ==> (est.frontier_seq().last().0 <= rt && est.frontier_seq().last().1
                    <= message.local_time_received)
            }),
        ensures
            final(self).wf(),
            final(self).total_inputs == old(self).total_inputs + message.report.samples@.len(),
            final(self).enabled == old(self).enabled,
            final(self).variables == old(self).variables,
            final(self).remote_followers == old(self).remote_followers,
            final(self).servers@.len() == old(self).servers@.len(),
            forall|j: int|
                0 <= j < old(self).servers@.len() && j != message.server_index
                    ==> #[trigger] final(self).servers@[j] == old(self).servers@[j],
            final(self).servers@[message.server_index as int].server_run_id
                == message.report.server_run_id,
            final(self).local_follower.follower.location() == local_mouse_location,
            final(self).local_follower.most_recent() == (if local_mouse_location != old(
                self,
            ).local_follower.follower.location() {
                message.local_time_received
            } else {
                old(self).local_follower.most_recent()
            }),
            final(self).active_follower_id == arbitrated_follower(
                old(self).mouse_pressed,
                old(self).active_follower_id,
                old(self).remote_followers@,
                final(self).local_follower.most_recent() as int,
            ),
            ({
                let idx = message.server_index as int;
                let rt = (message.report.first_sample_index + message.report.samples@.len()
                    - 1) as i64;
                let lt = message.local_time_received;
                let fin = final(self).servers@[idx].remote_time_estimator;
                if message.report.server_run_id != old(self).servers@[idx].server_run_id {
                    &&& fin.frontier_seq() == Seq::<(i64, i64)>::empty().push((rt, lt))
                    &&& fin.tolerance_spec() == 200i64
                } else {
                    let est = old(self).servers@[idx].remote_time_estimator;
                    &&& fin.tolerance_spec() == est.tolerance_spec()
                    &&& (est.frontier_seq().len() > 0 && est.frontier_seq().last().0 == rt
                        ==> fin.frontier_seq() == est.frontier_seq())
                    &&& ((est.frontier_seq().len() == 0 || est.frontier_seq().last().0 < rt)
                        ==> fin.frontier_seq() == pruned(
                        est.frontier_seq(),
                        rt as int,
                        lt as int,
                        est.tolerance_spec() as int,
                    ).push((rt, lt)))
                }
            }),
            forall|ch: int|
                0 <= ch < CHANNEL_COUNT ==> (#[trigger] final(self).servers@[
                    message.server_index as int].signals@[ch]).total_inputs == (
                if message.report.server_run_id == old(self).servers@[
                    message.server_index as int].server_run_id {
                    old(self).servers@[message.server_index as int].signals@[ch].total_inputs
                } else {
                    0
                }) + message.report.samples@.len(),
            forall|k: int|
                0 <= k < actions@.len() ==> (#[trigger] actions@[k]).0 == final(
                    self).active_follower_id,
            !old(self).enabled ==> actions@.len() == 0 && final(self).mouse_pressed == old(
                self).mouse_pressed,
            final(self).mouse_pressed ==> final(self).enabled,
            ({
                let reset = message.report.server_run_id != old(self).servers@[
                    message.server_index as int].server_run_id;
                let owner_move = (match final(self).active_follower_id {
                    FollowerId::Local => final(self).local_follower.most_recent() as int,
                    FollowerId::Remote(i) => old(self).remote_followers@[
                        i as int].1.most_recent() as int,
                });
                report_decisions(
                    reset,
                    old(self).servers@[message.server_index as int].signals@,
                    final(self).servers@[message.server_index as int].signals@,
                    message.report.samples@,
                    message.report.first_sample_index as int,
                    old(self).variables,
                    old(self).enabled,
                    click_allowed_spec(
                        message.local_time_received as int,
                        owner_move,
                        old(self).enabled,
                    ),
                    final(self).active_follower_id,
                    old(self).mouse_pressed,
                    old(self).inputs_since_scroll_start as int,
                    actions@,
                    final(self).mouse_pressed,
                    final(self).inputs_since_scroll_start as int,
                )
            }),
    {
        let MessageFromServer { server_index: idx, local_time_received, report } = message;
        let sample_count = report.samples.len();
        let mut server = self.servers.remove(idx);
        let ghost reset = report.server_run_id != old(self).servers@[idx as int].server_run_id;
        if server.server_run_id != report.server_run_id {
            server.server_run_id = report.server_run_id;
            server.reconnected();
        }
        let rt: i64 = ((report.first_sample_index + (sample_count as u64)) - 1) as i64;
        server.remote_time_estimator.observe(rt, local_time_received);
        self.local_follower.update_most_recent_mouse_move(
            local_mouse_location,
            local_time_received,
        );
        self.update_active_follower();

        let ghost post_reset_sigs = server.signals@;
        let ghost self_at_call = *self;
        let actions = self.process_report(
            &mut server,
            &report.samples,
            report.first_sample_index,
            local_time_received,
        );
        proof {
            if reset {
                lemma_report_decisions_after_reset(
                    post_reset_sigs,
                    old(self).servers@[idx as int].signals@,
                    server.signals@,
                    report.samples@,
                    report.first_sample_index as int,
                    old(self).variables,
                    old(self).enabled,
                    click_allowed_spec(
                        local_time_received as int,
                        owner_move_spec(self_at_call),
                        old(self).enabled,
                    ),
                    self.active_follower_id,
                    old(self).mouse_pressed,
                    old(self).inputs_since_scroll_start as int,
                    actions@,
                    self.mouse_pressed,
                    self.inputs_since_scroll_start as int,
                );
            }
        }
        self.servers.insert(idx, server);
        proof {
            assert(final(self).servers@ =~= old(self).servers@.update(
                idx as int,
                final(self).servers@[idx as int],
            ));
        }
        actions
    }

    /// Replaces the tunable parameters; the change takes effect on
    /// the next read.
    pub fn set_variables(&mut self, variables: Variables)
        requires
            old(self).wf(),
            variables.wf(),
        ensures
            final(self).wf(),
            final(self).variables == variables,
            final(self).total_inputs == old(self).total_inputs,
            final(self).local_follower == old(self).local_follower,
            final(self).remote_followers == old(self).remote_followers,
            final(self).servers == old(self).servers,
            final(self).active_follower_id == old(self).active_follower_id,
            final(self).enabled == old(self).enabled,
            final(self).mouse_pressed == old(self).mouse_pressed,
    {
        self.variables = variables;
    }
}

} // verus!
