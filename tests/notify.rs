use plex_monitor::notify::NotificationState;

#[test]
fn starts_up_without_reminder() {
    let s = NotificationState::new();
    assert!(s.last_state_up);
    assert_eq!(s.last_reminder_time, None);
}

#[test]
fn first_down_alerts_then_reminders_after_threshold() {
    let mut s = NotificationState::new();
    assert!(s.on_verdict(false, 100, 10));
    assert_eq!(s.last_reminder_time, Some(100));
    assert!(!s.last_state_up);
    assert!(!s.on_verdict(false, 105, 10));
    assert!(!s.on_verdict(false, 110, 10));
    assert!(s.on_verdict(false, 111, 10));
    assert_eq!(s.last_reminder_time, Some(111));
}

#[test]
fn up_clears_reminder_and_next_down_alerts() {
    let mut s = NotificationState::new();
    assert!(s.on_verdict(false, 0, 1000));
    assert!(!s.on_verdict(true, 5, 1000));
    assert!(s.last_state_up);
    assert_eq!(s.last_reminder_time, None);
    assert!(s.on_verdict(false, 6, 1000));
    assert_eq!(s.last_reminder_time, Some(6));
}

#[test]
fn up_verdicts_never_alert() {
    let mut s = NotificationState::new();
    for t in 0..5u64 {
        assert!(!s.on_verdict(true, t, 0));
    }
}

#[test]
fn alerts_in_streak_checked_each_second() {
    let mut s = NotificationState::new();
    let mut count = 0;
    let mut at = Vec::new();
    for t in 0..31u64 {
        if s.on_verdict(false, t, 10) {
            count += 1;
            at.push(t);
        }
    }
    assert_eq!(at, vec![0, 11, 22]);
    assert_eq!(count, 30 / 11 + 1);
}

#[test]
fn zero_threshold_alerts_when_time_moves() {
    let mut s = NotificationState::new();
    assert!(s.on_verdict(false, 7, 0));
    assert!(!s.on_verdict(false, 7, 0));
    assert!(s.on_verdict(false, 8, 0));
}
