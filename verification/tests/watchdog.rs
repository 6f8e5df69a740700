use thermite::watchdog::{LivenessWatchdog, WatchdogAction};

#[test]
fn the_timeout_must_exceed_the_poll_interval() {
    assert!(LivenessWatchdog::new(2, 3).is_some());
    assert!(LivenessWatchdog::new(0, 1).is_some());
    assert!(LivenessWatchdog::new(3, 3).is_none());
    assert!(LivenessWatchdog::new(5, 2).is_none());
    assert!(LivenessWatchdog::new(0, 0).is_none());
}

#[test]
fn the_watchdog_reports_its_parameters() {
    let w = LivenessWatchdog::new(2, 3).unwrap();
    assert_eq!(w.poll_interval(), 2);
    assert_eq!(w.timeout(), 3);
}

#[test]
fn a_write_is_stale_only_after_more_than_the_timeout() {
    let w = LivenessWatchdog::new(2, 3).unwrap();
    assert!(!w.is_stale(10, 10));
    assert!(!w.is_stale(10, 12));
    assert!(!w.is_stale(10, 13));
    assert!(w.is_stale(10, 14));
    assert!(w.is_stale(10, 1000));
    assert!(w.is_stale(0, u64::MAX));
}

#[test]
fn a_clock_behind_the_last_write_is_not_stale() {
    let w = LivenessWatchdog::new(2, 3).unwrap();
    assert!(!w.is_stale(10, 9));
    assert!(!w.is_stale(u64::MAX, 0));
}

#[test]
fn a_poll_sleeps_or_terminates() {
    let w = LivenessWatchdog::new(2, 3).unwrap();
    assert_eq!(w.poll(10, 13), WatchdogAction::SleepFor(2));
    assert_eq!(w.poll(10, 14), WatchdogAction::Terminate);
}

#[test]
fn writes_every_time_unit_never_end_the_process() {
    let w = LivenessWatchdog::new(2, 3).unwrap();
    let mut now = 0u64;
    for _ in 0..1000 {
        now += w.poll_interval();
        // The writer completes a write at every whole time unit.
        let last = now;
        assert_eq!(w.poll(last, now), WatchdogAction::SleepFor(2));
        // Even where the poll comes just before the next write.
        assert_eq!(w.poll(now - 1, now), WatchdogAction::SleepFor(2));
    }
}

#[test]
fn silence_for_longer_than_the_timeout_ends_the_process() {
    let w = LivenessWatchdog::new(2, 3).unwrap();
    let last = 10u64;
    let mut now = 0u64;
    let mut ended_at = None;
    for _ in 0..100 {
        now += w.poll_interval();
        if now < last {
            continue;
        }
        if w.poll(last, now) == WatchdogAction::Terminate {
            ended_at = Some(now);
            break;
        }
    }
    assert_eq!(ended_at, Some(14));
}

#[test]
fn silence_is_found_within_one_poll_interval_after_the_timeout() {
    for poll in 1u64..6 {
        for timeout in (poll + 1)..9 {
            let w = LivenessWatchdog::new(poll, timeout).unwrap();
            for last in 0u64..30 {
                let mut now = 0u64;
                loop {
                    now += poll;
                    if w.poll(last, now) == WatchdogAction::Terminate {
                        break;
                    }
                    assert!(now <= last + timeout);
                }
                assert!(now > last + timeout);
                assert!(now <= last + timeout + poll);
            }
        }
    }
}
