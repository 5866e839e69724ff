use polymer::timeout::{add_timer, Delivery, TimerTable};

#[test]
fn handles_start_at_one_and_increase() {
    let mut t = TimerTable::new();
    assert_eq!(add_timer(&mut t, 0, 10), 1);
    assert_eq!(add_timer(&mut t, 5, 10), 2);
    assert_eq!(add_timer(&mut t, 5, 0), 3);
    assert_eq!(t.len(), 3);
}

#[test]
fn timer_runs_once_and_not_early() {
    let mut t = TimerTable::new();
    let h = add_timer(&mut t, 100, 40);
    assert!(matches!(t.deliver(h, 139), Delivery::Early { remaining_ms: 1 }));
    assert!(matches!(t.deliver(h, 120), Delivery::Early { remaining_ms: 20 }));
    assert!(matches!(t.deliver(h, 140), Delivery::Invoke));
    assert_eq!(t.entry(h).unwrap().fired_at, Some(140));
    assert!(matches!(t.deliver(h, 500), Delivery::AlreadyFired));
    assert_eq!(t.entry(h).unwrap().fired_at, Some(140));
}

#[test]
fn zero_delay_timer_runs_at_once() {
    let mut t = TimerTable::new();
    let h = add_timer(&mut t, 7, 0);
    assert!(matches!(t.deliver(h, 7), Delivery::Invoke));
}

#[test]
fn delivery_before_scheduling_instant_waits_whole_delay() {
    let mut t = TimerTable::new();
    let h = add_timer(&mut t, 100, 40);
    assert!(matches!(t.deliver(h, 90), Delivery::Early { remaining_ms: 50 }));
}

#[test]
fn largest_delay_saturates_wait() {
    let mut t = TimerTable::new();
    let h = add_timer(&mut t, 10, u64::MAX);
    assert!(matches!(t.deliver(h, 0), Delivery::Early { remaining_ms: u64::MAX }));
    assert!(matches!(t.deliver(h, 10), Delivery::Early { remaining_ms: u64::MAX }));
    assert!(matches!(t.deliver(h, 11), Delivery::Early { remaining_ms: 18446744073709551614 }));
}

#[test]
fn unknown_handle_is_reported() {
    let mut t = TimerTable::new();
    assert!(matches!(t.deliver(1, 0), Delivery::Unknown));
    add_timer(&mut t, 0, 1);
    assert!(matches!(t.deliver(0, 5), Delivery::Unknown));
    assert!(matches!(t.deliver(2, 5), Delivery::Unknown));
    assert!(matches!(t.deliver(-1, 5), Delivery::Unknown));
    assert!(t.entry(2).is_none());
}

#[test]
fn well_separated_timers_fire_in_delay_order() {
    let mut t = TimerTable::new();
    let short = add_timer(&mut t, 0, 10);
    let long = add_timer(&mut t, 0, 200);
    assert!(matches!(t.deliver(long, 100), Delivery::Early { remaining_ms: 100 }));
    assert!(matches!(t.deliver(short, 100), Delivery::Invoke));
    assert!(matches!(t.deliver(long, 200), Delivery::Invoke));
    assert!(t.entry(short).unwrap().fired_at < t.entry(long).unwrap().fired_at);
}

#[test]
fn timers_at_50_and_150_both_fire_once_by_250() {
    let mut t = TimerTable::new();
    let a = add_timer(&mut t, 0, 50);
    let b = add_timer(&mut t, 0, 150);
    assert!(matches!(t.deliver(a, 50), Delivery::Invoke));
    assert!(matches!(t.deliver(b, 150), Delivery::Invoke));
    assert!(matches!(t.deliver(a, 250), Delivery::AlreadyFired));
    assert!(matches!(t.deliver(b, 250), Delivery::AlreadyFired));
    let fa = t.entry(a).unwrap().fired_at.unwrap();
    let fb = t.entry(b).unwrap().fired_at.unwrap();
    assert!(fa < fb);
    assert!(fa <= 250 && fb <= 250);
}
