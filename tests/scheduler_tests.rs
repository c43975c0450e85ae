use intime::processor::{dispatch, Dispatch, FocusDecision, FocusTracker};
use intime::events::{WindowEvent, WindowEventType, WindowForegroundEvent};
use intime::scheduler::{get_remaining_time, should_take_screenshot, CaptureLog, TickAction};

#[test]
fn capture_due_rules() {
    assert!(should_take_screenshot(None, 0, 10_000));
    assert!(!should_take_screenshot(Some(1_000), 5_000, 10_000));
    assert!(should_take_screenshot(Some(1_000), 11_000, 10_000));
    assert!(!should_take_screenshot(Some(9_000), 5_000, 10_000));
}

#[test]
fn remaining_time_rules() {
    assert_eq!(get_remaining_time(None, 0, 10_000), 10_000);
    assert_eq!(get_remaining_time(Some(1_000), 5_000, 10_000), 6_000);
    assert_eq!(get_remaining_time(Some(1_000), 50_000, 10_000), 0);
    assert_eq!(get_remaining_time(Some(9_000), 5_000, 10_000), 10_000);
}

#[test]
fn windows_are_tracked_apart() {
    let mut log = CaptureLog::new();
    log.record_capture(1, 1_000);
    assert_eq!(log.last_capture(1), Some(1_000));
    assert_eq!(log.last_capture(2), None);
    assert_eq!(log.tick(2, 1_500, 10_000), TickAction::Capture);
    assert_eq!(log.tick(1, 1_500, 10_000), TickAction::Sleep(9_500));
    log.record_capture(1, 20_000);
    assert_eq!(log.last_capture(1), Some(20_000));
}

/// Runs the capture loop of one window from `start` to `end`, waking exactly when told.
fn run_loop(log: &mut CaptureLog, hwnd: isize, start: u64, end: u64, interval: u64) -> u64 {
    let mut now = start;
    let mut count = 0;
    while now <= end {
        match log.tick(hwnd, now, interval) {
            TickAction::Capture => {
                count += 1;
                log.record_capture(hwnd, now);
            }
            TickAction::Sleep(ms) => now += ms,
        }
    }
    count
}

#[test]
fn capture_count_over_active_duration() {
    let mut log = CaptureLog::new();
    assert_eq!(run_loop(&mut log, 7, 0, 35_000, 10_000), 4);
    let mut log = CaptureLog::new();
    log.record_capture(7, 0);
    assert_eq!(run_loop(&mut log, 7, 5_000, 40_000, 10_000), 4);
    let mut log = CaptureLog::new();
    log.record_capture(7, 0);
    assert_eq!(run_loop(&mut log, 7, 5_000, 9_000, 10_000), 0);
}

#[test]
fn at_most_one_active_task() {
    let mut t = FocusTracker::new();
    assert!(t.active_task().is_none());
    for hwnd in [1isize, 1, 2, 3, 3, 1, 2, 2] {
        t.on_foreground(hwnd);
        let active = t.active_task().unwrap();
        assert_eq!(active.hwnd, hwnd);
    }
}

#[test]
fn same_window_keeps_task() {
    let mut t = FocusTracker::new();
    let first = match t.on_foreground(5) {
        FocusDecision::Switch { cancel, start } => {
            assert!(cancel.is_none());
            start
        }
        FocusDecision::Unchanged => panic!("first focus must start a task"),
    };
    assert_eq!(t.on_foreground(5), FocusDecision::Unchanged);
    assert_eq!(t.active_task(), Some(first));
}

#[test]
fn cancelled_task_capture_is_discarded() {
    let mut t = FocusTracker::new();
    t.on_foreground(1);
    let old = t.active_task().unwrap();
    assert!(t.accepts_capture(old));
    match t.on_foreground(2) {
        FocusDecision::Switch { cancel, start } => {
            assert_eq!(cancel, Some(old));
            assert_eq!(start.hwnd, 2);
            assert_ne!(start.ticket, old.ticket);
            assert!(t.accepts_capture(start));
        }
        FocusDecision::Unchanged => panic!("focus change must switch tasks"),
    }
    assert!(!t.accepts_capture(old));
    t.on_foreground(2);
    assert!(!t.accepts_capture(old));
    for hwnd in [3isize, 1, 2, 1] {
        t.on_foreground(hwnd);
        assert!(!t.accepts_capture(old));
    }
}

#[test]
fn dispatch_by_kind() {
    let fg = WindowEvent::Foreground(WindowForegroundEvent {
        name: "a.exe".to_string(),
        title: "A".to_string(),
        path: "/a.exe".to_string(),
        hwnd: 3,
    });
    match dispatch(&fg) {
        Dispatch::Foreground(e) => assert_eq!(e.hwnd, 3),
        Dispatch::Drop => panic!("foreground events are handled"),
    }
    assert_eq!(fg.event().event_code, 3);
    let other = WindowEvent::Other(WindowEventType::new(22));
    assert!(matches!(dispatch(&other), Dispatch::Drop));
    assert_eq!(other.event().event_code, 22);
}

#[test]
fn slow_captures_stay_under_the_bound() {
    // Each capture takes 5 s; its instant is recorded when it completes.
    let mut log = CaptureLog::new();
    let (interval, delay, end) = (10_000u64, 5_000u64, 100_000u64);
    let mut now = 0u64;
    let mut count = 0u64;
    while now <= end {
        match log.tick(9, now, interval) {
            TickAction::Capture => {
                count += 1;
                now += delay;
                log.record_capture(9, now);
            }
            TickAction::Sleep(ms) => now += ms,
        }
    }
    assert_eq!(count, 7);
    assert!(count <= end / interval + 1);
}
