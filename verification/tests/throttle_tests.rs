use loro_time_travel::throttle::{run_throttle, ThrottledDispatcher};

#[test]
fn burst_forwards_last_value_per_window() {
    // calls at t=0 (arg 10), t=30 (arg 20), t=250 (arg 30), window 100 ms:
    // exactly two forwarded calls, one with the last value of the first
    // window (20) and one with the lone value of the second window (30).
    let inputs = vec![(0u64, 10i64), (30, 20), (250, 30)];
    let out = run_throttle(100, &inputs);
    assert_eq!(out, vec![(100u64, 20i64), (350, 30)]);
}

#[test]
fn lone_call_is_never_skipped() {
    let out = run_throttle(100, &vec![(0u64, 7i64)]);
    assert_eq!(out, vec![(100u64, 7i64)]);
}

#[test]
fn empty_trace_forwards_nothing() {
    let out = run_throttle(100, &Vec::new());
    assert!(out.is_empty());
}

#[test]
fn forwarded_calls_are_at_least_one_window_apart() {
    let inputs = vec![(0u64, 1i64), (10, 2), (20, 3), (60, 4), (200, 5)];
    let out = run_throttle(50, &inputs);
    assert_eq!(out, vec![(50u64, 3i64), (110, 4), (250, 5)]);
    for w in out.windows(2) {
        assert!(w[0].0 + 50 <= w[1].0);
    }
    // the final call of the trace is never dropped
    assert_eq!(out.last().unwrap().1, 5);
}

#[test]
fn simultaneous_burst_keeps_only_the_last_value() {
    let inputs = vec![(0u64, 1i64), (0, 2), (0, 3)];
    let out = run_throttle(100, &inputs);
    assert_eq!(out, vec![(100u64, 3i64)]);
}

#[test]
fn dispatcher_opens_fires_and_flushes() {
    let mut d = ThrottledDispatcher::new(100);

    // first input opens a window and asks for a timer at its deadline
    assert_eq!(d.on_input(5, 1), Some(105));
    // later inputs inside the window only replace the argument
    assert_eq!(d.on_input(50, 2), None);

    // too early: nothing fires
    assert_eq!(d.on_timer(104), None);
    // at the deadline the pending call is forwarded with the last value
    assert_eq!(d.on_timer(105), Some((105, 2)));
    // the window is closed now
    assert_eq!(d.on_timer(400), None);

    // a new window opens independently and can be flushed
    assert_eq!(d.on_input(500, 9), Some(600));
    assert_eq!(d.flush(), Some((600, 9)));
    assert_eq!(d.flush(), None);
}
