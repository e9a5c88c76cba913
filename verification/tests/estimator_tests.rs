use emg_core::remote_time_estimator::RemoteTimeEstimator;

fn assert_frontier_strictly_increasing(est: &RemoteTimeEstimator) {
    let f = est.frontier();
    for k in 1..f.len() {
        assert!(f[k - 1].0 < f[k].0, "remote times must strictly increase");
        assert!(f[k - 1].1 < f[k].1, "local times must strictly increase");
    }
}

#[test]
fn frontier_stays_strictly_increasing_after_every_observe() {
    // Observations arrive in order with jittery latencies; after every
    // observe the frontier is strictly increasing in both coordinates.
    let mut est = RemoteTimeEstimator::new(200);
    let noise = [0i64, 700, 50, 0, 900, 20, 0, 333, 11, 0, 80, 0];
    for (k, &n) in noise.iter().enumerate() {
        let remote: i64 = 1_000 * (k as i64 + 1);
        let local: i64 = 2 * remote + 1_000_000 + n;
        est.observe(remote, local);
        assert_frontier_strictly_increasing(&est);
    }
}

#[test]
fn estimates_track_an_affine_clock_within_tolerance() {
    // Synthetic affine mapping local = 2 * remote + 1_000_000 with
    // non-negative latency noise and frequent minimal-latency arrivals:
    // estimates for observed remote times stay within the tolerance of
    // the true lower bound.
    let tolerance: i64 = 200;
    let mut est = RemoteTimeEstimator::new(tolerance);
    let mut observed: Vec<i64> = Vec::new();
    for k in 0..40i64 {
        let remote: i64 = 500 * k;
        let noise: i64 = if k % 2 == 0 { 0 } else { 150 + (k * 37) % 50 };
        let local: i64 = 2 * remote + 1_000_000 + noise;
        est.observe(remote, local);
        observed.push(remote);
    }
    for &r in observed.iter() {
        let estimate = est.estimate_local_time(r);
        let truth = 2 * r + 1_000_000;
        let error = (estimate - truth).abs();
        assert!(
            error <= tolerance + 2,
            "estimate {} for remote {} strays {} from {}",
            estimate,
            r,
            error,
            truth
        );
    }
}

#[test]
fn repeated_remote_time_is_discarded() {
    let mut est = RemoteTimeEstimator::new(200);
    est.observe(100, 5_000);
    est.observe(200, 5_200);
    let before = est.frontier();
    est.observe(200, 9_999);
    assert_eq!(est.frontier(), before);
}

#[test]
fn single_observation_is_returned_verbatim() {
    let mut est = RemoteTimeEstimator::new(200);
    est.observe(123, 456_789);
    assert_eq!(est.estimate_local_time(123), 456_789);
}

#[test]
fn late_points_are_evicted_by_prompt_arrivals() {
    // A point that arrived late is pruned once a prompt arrival proves
    // it could not lie on the minimal-latency line.
    let mut est = RemoteTimeEstimator::new(10);
    est.observe(0, 1_000_000);
    est.observe(1_000, 1_010_000); // late relative to the line below
    est.observe(2_000, 1_011_000); // prompt again
    let f = est.frontier();
    assert_eq!(f.len(), 2);
    assert_eq!(f[0], (0, 1_000_000));
    assert_eq!(f[1], (2_000, 1_011_000));
}

#[test]
fn equal_arrival_times_keep_remote_order_strict() {
    // Two observations may share a local arrival time; remote times
    // still increase strictly, and local times never decrease. Strict
    // growth of local times is only promised for strictly later
    // arrivals.
    let mut est = RemoteTimeEstimator::new(200);
    est.observe(10, 100);
    est.observe(20, 100);
    let f = est.frontier();
    assert_eq!(f, vec![(10, 100), (20, 100)]);
}

#[test]
fn default_estimator_starts_empty() {
    let est = RemoteTimeEstimator::default();
    assert!(est.frontier().is_empty());
    assert_eq!(est.last_observation(), None);
}
