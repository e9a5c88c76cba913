use emg_core::config::Variables;
use emg_core::follower::{
    MessageFromFollower, MessageToFollower, RemoteFollower, SupervisedFollower,
};
use emg_core::protocol::ReportFromServer;
use emg_core::supervisor::{
    scroll_progress, FollowerId, MessageFromIdentifiedFollower, MessageFromServer, NewFollower,
    Supervisor,
};

const SAMPLES_PER_REPORT: usize = 100;

fn feed_report_at(
    supervisor: &mut Supervisor,
    report_index: u64,
    mouse_location: (i32, i32),
    channel_values: impl Fn(u64) -> [u16; 4],
) -> Vec<(FollowerId, MessageToFollower)> {
    let first = report_index * SAMPLES_PER_REPORT as u64;
    let mut samples: Vec<[u16; 4]> = Vec::new();
    for k in 0..SAMPLES_PER_REPORT as u64 {
        samples.push(channel_values(first + k));
    }
    let local_time_received = 1_000_000 + (first as i64 + SAMPLES_PER_REPORT as i64) * 980;
    let message = MessageFromServer {
        server_index: 0,
        local_time_received,
        report: ReportFromServer { server_run_id: 7, first_sample_index: first, samples },
    };
    supervisor.handle_message_from_server(message, mouse_location)
}

fn feed_report(
    supervisor: &mut Supervisor,
    report_index: u64,
    channel_values: impl Fn(u64) -> [u16; 4],
) -> Vec<(FollowerId, MessageToFollower)> {
    feed_report_at(supervisor, report_index, (5, 5), channel_values)
}

fn sinusoid_sample(k: u64, gesture: bool) -> [u16; 4] {
    let baseline: u16 = 800;
    if gesture {
        // 200 Hz matches tracked bin 10; amplitude well above the floor
        let t = (k * 1_000_000 / 1020) as f64 / 1_000_000.0;
        let wave = (t * 200.0 * std::f64::consts::TAU).sin();
        let click = (baseline as f64 + 500.0 * wave) as u16;
        [baseline, baseline, click, baseline]
    } else {
        [baseline, baseline, baseline, baseline]
    }
}

#[test]
fn end_to_end_one_press_then_one_release() {
    // Channel 2 carries a sinusoid at a tracked frequency, well above a
    // noise floor calibrated on pure baseline, for longer than the
    // hold-off; the owner last moved within the allowed window and the
    // system is enabled: exactly one press fires, and exactly one
    // release once the amplitude returns to baseline.
    let mut supervisor = Supervisor::new(1, 0);
    let actions = supervisor.set_enabled(true);
    assert!(actions.is_empty());
    supervisor.set_variables(Variables {
        activity_threshold: 50_000,
        max_activity_contribution_per_frequency: 8_000_000,
    });

    let mut all_actions: Vec<(FollowerId, MessageToFollower)> = Vec::new();
    // calibration on pure baseline
    for r in 0..3 {
        all_actions.extend(feed_report(&mut supervisor, r, |k| sinusoid_sample(k, false)));
    }
    // the gesture, sustained for several hold-off spans
    for r in 3..8 {
        all_actions.extend(feed_report(&mut supervisor, r, |k| sinusoid_sample(k, true)));
    }
    // back to baseline for well over the hold-off
    for r in 8..12 {
        all_actions.extend(feed_report(&mut supervisor, r, |k| sinusoid_sample(k, false)));
    }

    let presses: Vec<_> = all_actions
        .iter()
        .filter(|a| a.1 == MessageToFollower::Mousedown)
        .collect();
    let releases: Vec<_> = all_actions
        .iter()
        .filter(|a| a.1 == MessageToFollower::MouseUp)
        .collect();
    assert_eq!(presses.len(), 1, "actions: {:?}", all_actions);
    assert_eq!(releases.len(), 1, "actions: {:?}", all_actions);
    assert_eq!(presses[0].0, FollowerId::Local);
    assert_eq!(releases[0].0, FollowerId::Local);
    assert!(!supervisor.mouse_pressed);
}

#[test]
fn press_suppressed_while_owner_is_moving() {
    // Same gesture as the end-to-end run, but the pointer moves with
    // every report, so at the click edge the owner moved within the
    // last 50ms: the press is suppressed without error.
    let mut supervisor = Supervisor::new(1, 0);
    let _ = supervisor.set_enabled(true);
    supervisor.set_variables(Variables {
        activity_threshold: 50_000,
        max_activity_contribution_per_frequency: 8_000_000,
    });
    let mut all_actions: Vec<(FollowerId, MessageToFollower)> = Vec::new();
    for r in 0..3 {
        let spot = (r as i32, r as i32);
        all_actions.extend(feed_report_at(&mut supervisor, r, spot, |k| sinusoid_sample(k, false)));
    }
    for r in 3..8 {
        let spot = (r as i32, r as i32);
        all_actions.extend(feed_report_at(&mut supervisor, r, spot, |k| sinusoid_sample(k, true)));
    }
    assert!(all_actions.is_empty(), "actions: {:?}", all_actions);
    assert!(!supervisor.mouse_pressed);
}

#[test]
fn disabled_supervisor_emits_nothing() {
    let mut supervisor = Supervisor::new(1, 0);
    supervisor.set_variables(Variables {
        activity_threshold: 50_000,
        max_activity_contribution_per_frequency: 8_000_000,
    });
    let mut all_actions: Vec<(FollowerId, MessageToFollower)> = Vec::new();
    for r in 0..3 {
        all_actions.extend(feed_report(&mut supervisor, r, |k| sinusoid_sample(k, false)));
    }
    for r in 3..8 {
        all_actions.extend(feed_report(&mut supervisor, r, |k| sinusoid_sample(k, true)));
    }
    assert!(all_actions.is_empty());
    assert!(!supervisor.mouse_pressed);
}

#[test]
fn arbitration_prefers_the_most_recent_mover() {
    // Local moved 5ms ago; remote follower A's reported move maps to
    // about 2s ago: the local follower owns the pointer. With the
    // recencies reversed, ownership switches to A.
    let mut supervisor = Supervisor::new(0, 0);
    let follower = SupervisedFollower::new(RemoteFollower::new(), 0);
    let index = supervisor.handle_new_follower(NewFollower {
        name: String::from("A"),
        follower,
    });
    assert_eq!(index, 0);

    // A's clock maps remote microseconds r onto local r + 8_000_000
    supervisor.handle_message_from_identified_follower(
        MessageFromIdentifiedFollower {
            follower_index: 0,
            message: MessageFromFollower::MouseMoved { time_since_start_micros: 0 },
        },
        8_000_000,
    );
    supervisor.handle_message_from_identified_follower(
        MessageFromIdentifiedFollower {
            follower_index: 0,
            message: MessageFromFollower::MouseMoved { time_since_start_micros: 2_000_000 },
        },
        10_000_000,
    );
    // A's last move: remote 2_000_000, i.e. local 10_000_000 — 2s before now (12_000_000)
    supervisor
        .local_follower
        .update_most_recent_mouse_move((9, 9), 11_995_000); // local moved 5ms before now
    supervisor.update_active_follower();
    assert_eq!(supervisor.active_follower_id, FollowerId::Local);

    // reverse the recency: A reports a move mapping to 11_999_000
    supervisor.handle_message_from_identified_follower(
        MessageFromIdentifiedFollower {
            follower_index: 0,
            message: MessageFromFollower::MouseMoved { time_since_start_micros: 3_999_000 },
        },
        12_100_000,
    );
    supervisor.update_active_follower();
    assert_eq!(supervisor.active_follower_id, FollowerId::Remote(0));
}

#[test]
fn disabling_while_pressed_releases_first() {
    let mut supervisor = Supervisor::new(0, 0);
    let none = supervisor.set_enabled(true);
    assert!(none.is_empty());
    supervisor.mouse_pressed = true;
    let actions = supervisor.set_enabled(false);
    assert_eq!(actions, vec![(FollowerId::Local, MessageToFollower::MouseUp)]);
    assert!(!supervisor.mouse_pressed);
    assert!(!supervisor.enabled);
}

#[test]
fn scroll_schedule_ramps_quadratically() {
    // (inputs * 400 + inputs^2 + 119_999) / 120_000
    assert_eq!(scroll_progress(0), 0);
    assert_eq!(scroll_progress(1), 1);
    assert_eq!(scroll_progress(170), 1);
    assert_eq!(scroll_progress(300), 2);
    assert_eq!(scroll_progress(600), 5);
    // ticks come faster as the gesture holds
    let mut last = scroll_progress(0);
    let mut gaps: Vec<u64> = Vec::new();
    let mut since = 0u64;
    for n in 1..2_000u64 {
        let p = scroll_progress(n);
        since += 1;
        if p > last {
            gaps.push(since);
            since = 0;
            last = p;
        }
    }
    // after the immediate first tick, sustained holding shortens the gaps
    assert!(gaps[1] > *gaps.last().unwrap());
}
