use emg_core::window::Window;

#[test]
fn mean_matches_naive_recomputation_after_each_push() {
    // For a stream longer than the capacity, the reported mean always
    // equals a from-scratch recomputation over the last N pushed values.
    let mut w = Window::new(5, 2000);
    let mut pushed: Vec<i64> = Vec::new();
    let stream = [3, -7, 10, 10, 2, 999, -1000, 55, 0, 1, 12, 13, -4, -4, 17];
    for &v in stream.iter() {
        w.push(v);
        pushed.push(v);
        let start = pushed.len().saturating_sub(5);
        let held = &pushed[start..];
        let sum: i64 = held.iter().sum();
        let naive = sum / held.len() as i64;
        assert_eq!(w.mean(), naive);
        assert_eq!(w.last(), Some(v));
    }
    assert_eq!(w.num_values_seen(), stream.len() as u64);
    assert_eq!(w.values(), vec![12, 13, -4, -4, 17]);
}

#[test]
fn resync_boundary_keeps_the_sum_exact() {
    // Every capacity-th push resynchronizes the cached sum from a fresh
    // accumulator; in exact arithmetic that must change nothing.
    let mut w = Window::new(4, 1000);
    for k in 0..24i64 {
        w.push((k * 37) % 101 - 50);
        let count = w.num_values_seen() as i64;
        let held: Vec<i64> = ((count - 4).max(0)..count)
            .map(|j| (j * 37) % 101 - 50)
            .collect();
        let sum: i64 = held.iter().sum();
        assert_eq!(w.mean(), sum / held.len() as i64);
    }
}

#[test]
fn values_and_counts_track_the_window() {
    let mut w = Window::new(3, 100);
    assert_eq!(w.last(), None);
    assert_eq!(w.len(), 0);
    w.push(7);
    w.push(-7);
    assert_eq!(w.values(), vec![7, -7]);
    assert_eq!(w.len(), 2);
    w.push(1);
    w.push(2);
    assert_eq!(w.values(), vec![-7, 1, 2]);
    assert_eq!(w.num_values_seen(), 4);
    assert_eq!(w.mean(), (-7 + 1 + 2) / 3);
}
