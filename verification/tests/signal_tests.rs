use emg_core::calibration::{increment_from, top_nonadjacent_maxima, ActivityThresholdStats};
use emg_core::config::Variables;
use emg_core::numeric::{cos_fp, isqrt, sin_fp, HALF_TURN, QUARTER_TURN, SCALE};
use emg_core::signal::{ActiveState, Signal, SingleFrequencyState};

#[test]
fn frequencies_snapshot_reports_every_bin() {
    let variables = Variables::default();
    let mut signal = Signal::default();
    for k in 0u64..120 {
        let time_micros = k * 1_000_000 / 1020;
        let _ = signal.receive_raw(900, time_micros, &variables);
    }
    let frame = signal.frequencies_frame(120_000, &variables);
    assert_eq!(frame.time, 120_000);
    assert_eq!(frame.scaled_norms.len(), 49);
    assert_eq!(frame.scaled_thresholds.len(), 49);
    assert_eq!(frame.normalized_activities.len(), 49);
    for i in 0..49 {
        // an uncalibrated floor reads as the (scaled) magnitude bound
        assert!(frame.scaled_thresholds[i] <= 50 * 150_000_000);
        assert!(frame.scaled_norms[i] >= 0);
        // activities are normalized to the cap: at most one unit
        assert!(0 <= frame.normalized_activities[i] && frame.normalized_activities[i] <= SCALE);
    }
}

#[test]
fn isqrt_exact_values() {
    assert_eq!(isqrt(0), 0);
    assert_eq!(isqrt(1), 1);
    assert_eq!(isqrt(15), 3);
    assert_eq!(isqrt(16), 4);
    assert_eq!(isqrt(999_999), 999);
    assert_eq!(isqrt(1_000_000_000_000_000_000), 1_000_000_000);
}

#[test]
fn sine_hits_the_cardinal_points() {
    assert_eq!(sin_fp(0), 0);
    assert_eq!(sin_fp(QUARTER_TURN), SCALE);
    assert_eq!(sin_fp(HALF_TURN), 0);
    assert_eq!(sin_fp(HALF_TURN + QUARTER_TURN), -SCALE);
    assert_eq!(cos_fp(0), SCALE);
    assert_eq!(cos_fp(HALF_TURN), -SCALE);
}

#[test]
fn top_nonadjacent_maxima_drops_neighbours_of_each_pick() {
    let values = vec![5, 9, 9, 3, 8, 1, 7];
    // last tie wins: index 2 (9); its neighbours leave with it, then 8, then 7
    assert_eq!(top_nonadjacent_maxima(&values), vec![9, 8, 7]);

    let burst = vec![1, 100, 99, 98, 1, 1];
    // a burst spanning adjacent chunks cannot fill several slots
    assert_eq!(top_nonadjacent_maxima(&burst), vec![100, 98, 1]);
}

#[test]
fn increment_is_the_spread_floored_at_one_unit() {
    // no spread: floored at one unit
    assert_eq!(increment_from(&vec![10, 10]), 1);
    // sample variance of {0, 10} is 50; its integer square root is 7
    assert_eq!(increment_from(&vec![0, 10]), 7);
    // a single top value has no spread
    assert_eq!(increment_from(&vec![42]), 1);
}

#[test]
fn hysteresis_brief_crossing_within_delay_never_activates() {
    // freshly deactivated at time 0: within the reactivation delay no
    // activity level whatsoever reactivates the channel
    let st = ActiveState::Inactive { last_deactivated_time: 0, last_deactivated_sample: 0 };
    let after = st.step(1_000_000_000, 1, 100_000, 10);
    assert_eq!(after, st);
    let after2 = st.step(1_000_000_000, 1, 400_000, 11);
    assert_eq!(after2, st);
}

#[test]
fn hysteresis_sustained_crossing_after_delay_activates() {
    let st = ActiveState::Inactive { last_deactivated_time: 0, last_deactivated_sample: 0 };
    let after = st.step(2, 1, 400_001, 12);
    assert_eq!(after, ActiveState::Active { last_sustained_time: 400_001 });
}

#[test]
fn hysteresis_dip_shorter_than_holdoff_stays_active() {
    let st = ActiveState::Active { last_sustained_time: 500_000 };
    // below threshold but within the hold-off: still active
    assert_eq!(st.step(0, 1, 550_000, 20), st);
    // past the hold-off: deactivates, recording time and sample
    assert_eq!(
        st.step(0, 1, 650_000, 21),
        ActiveState::Inactive { last_deactivated_time: 650_000, last_deactivated_sample: 21 }
    );
    // above threshold: sustained time refreshes
    assert_eq!(st.step(2, 1, 560_000, 22), ActiveState::Active { last_sustained_time: 560_000 });
}

#[test]
fn noise_floor_calibration_is_stable_under_stationary_noise() {
    // Pure periodic noise, period equal to the maximum chunk: every
    // chunk sees the same values, so once the floor has been committed
    // it never drifts under continued noise.
    let mut state = SingleFrequencyState::new(200_000);
    let mut committed: Vec<ActivityThresholdStats> = Vec::new();
    for k in 0u64..3_000 {
        let noise: i64 = 800_000;
        let time_micros = k * 1_000_000 / 1020;
        state.observe_raw_signal_value(noise, time_micros, true);
        if k % 500 == 499 {
            committed.push(state.activity_threshold_stats());
        }
    }
    let reference = committed[1];
    assert!(reference.threshold < i64::MAX, "the floor must have been calibrated");
    // the floor sits at the greatest recent magnitude, so pure noise
    // reads as no activity beyond a couple of rounding units
    assert!(state.latest_activity_level(8_000_000) <= 2);
    for stats in committed.iter().skip(1) {
        assert!(
            (stats.threshold - reference.threshold).abs() <= 16,
            "the calibrated floor must not drift: {} vs {}",
            stats.threshold,
            reference.threshold
        );
        assert!(stats.increment <= 16, "the spread of pure noise stays tiny");
    }
}

#[test]
fn signal_aggregates_and_reports_frames() {
    let variables = Variables::default();
    let mut signal = Signal::default();
    let mut frames = 0u32;
    for k in 0u64..200 {
        let time_micros = k * 1_000_000 / 1020;
        let frame = signal.receive_raw(900, time_micros, &variables);
        if frame.is_some() {
            frames += 1;
        }
    }
    assert_eq!(signal.total_inputs, 200);
    assert_eq!(signal.frequency_states.len(), 49);
    assert!(!signal.is_active());
    // frames are due every tenth sample once the input window is full
    assert_eq!(frames, 16);
    assert!(signal.aggregate_activity_level >= 0);
}
