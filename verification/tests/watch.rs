use dodeca::watch::{Debounce, DEBOUNCE_MS, MAX_DEBOUNCE_MS};

#[test]
fn single_event_waits_quiet_period() {
    let d = Debounce::start(1_000);
    assert_eq!(d.batch_start, 1_000);
    assert_eq!(d.wake_at(), 1_000 + DEBOUNCE_MS);
}

#[test]
fn new_event_restarts_quiet_period() {
    let mut d = Debounce::start(1_000);
    d.event(1_050);
    assert_eq!(d.wake_at(), 1_150);
    assert_eq!(d.batch_start, 1_000);
}

#[test]
fn steady_events_are_cut_off_at_longest_wait() {
    let mut d = Debounce::start(0);
    let mut t = 0;
    while t < 2_000 {
        t += 50;
        d.event(t);
        assert!(d.wake_at() <= MAX_DEBOUNCE_MS);
    }
    assert_eq!(d.wake_at(), MAX_DEBOUNCE_MS);
}
