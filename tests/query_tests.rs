use intime::models::{ScreenshotBlob, WindowEventRow};
use intime::query::{
    events_in_range, fetch_window_events, nearest_screenshot, pick_nearest, secs_from_ms,
    DEFAULT_EVENT_LIMIT,
};

fn shot(id: i64, app_id: i64, t: i64) -> ScreenshotBlob {
    ScreenshotBlob { id, app_id, created_at_sec: t, png: vec![id as u8] }
}

fn row(app_id: i64, title: &str, t: i64) -> WindowEventRow {
    WindowEventRow {
        app_id,
        app_name: format!("app{}", app_id),
        window_title: title.to_string(),
        event_type: "EVENT_SYSTEM_FOREGROUND".to_string(),
        created_at_sec: t,
    }
}

#[test]
fn nearest_prefers_closer_older() {
    let shots = vec![shot(1, 1, 10), shot(2, 1, 20)];
    let r = nearest_screenshot(&shots, 14, None).unwrap();
    assert_eq!(r.id, 1);
    assert_eq!(r.created_at_sec, 10);
}

#[test]
fn nearest_tie_goes_to_older() {
    let shots = vec![shot(1, 1, 10), shot(2, 1, 20)];
    let r = nearest_screenshot(&shots, 15, None).unwrap();
    assert_eq!(r.created_at_sec, 10);
}

#[test]
fn nearest_prefers_closer_newer() {
    let shots = vec![shot(1, 1, 10), shot(2, 1, 20)];
    let r = nearest_screenshot(&shots, 16, None).unwrap();
    assert_eq!(r.created_at_sec, 20);
}

#[test]
fn nearest_only_older_side() {
    let shots = vec![shot(2, 1, 20)];
    let r = nearest_screenshot(&shots, 25, None).unwrap();
    assert_eq!(r.created_at_sec, 20);
    assert_eq!(r.png, vec![2u8]);
}

#[test]
fn nearest_only_newer_side() {
    let shots = vec![shot(2, 1, 20)];
    let r = nearest_screenshot(&shots, 5, None).unwrap();
    assert_eq!(r.id, 2);
}

#[test]
fn nearest_exact_match_is_newer_side() {
    let shots = vec![shot(1, 1, 10), shot(2, 1, 20)];
    let r = nearest_screenshot(&shots, 20, None).unwrap();
    assert_eq!(r.id, 2);
}

#[test]
fn nearest_with_no_screenshots() {
    let shots: Vec<ScreenshotBlob> = Vec::new();
    assert!(nearest_screenshot(&shots, 14, None).is_none());
}

#[test]
fn nearest_filters_by_application() {
    let shots = vec![shot(1, 1, 10), shot(2, 2, 13), shot(3, 1, 20)];
    let r = nearest_screenshot(&shots, 14, Some(1)).unwrap();
    assert_eq!(r.id, 1);
    let r = nearest_screenshot(&shots, 14, None).unwrap();
    assert_eq!(r.id, 2);
    assert!(nearest_screenshot(&shots, 14, Some(9)).is_none());
}

#[test]
fn nearest_unsorted_input() {
    let shots = vec![shot(3, 1, 30), shot(1, 1, 10), shot(2, 1, 20), shot(4, 1, 12)];
    let r = nearest_screenshot(&shots, 17, None).unwrap();
    assert_eq!(r.id, 2);
    let r = nearest_screenshot(&shots, 11, None).unwrap();
    assert_eq!(r.id, 1);
}

#[test]
fn pick_nearest_cases() {
    assert!(pick_nearest(14, None, None).is_none());
    assert_eq!(pick_nearest(14, Some(shot(1, 1, 10)), None).unwrap().id, 1);
    assert_eq!(pick_nearest(14, None, Some(shot(2, 1, 20))).unwrap().id, 2);
    assert_eq!(pick_nearest(14, Some(shot(1, 1, 10)), Some(shot(2, 1, 20))).unwrap().id, 1);
    assert_eq!(pick_nearest(15, Some(shot(1, 1, 10)), Some(shot(2, 1, 20))).unwrap().id, 1);
    assert_eq!(pick_nearest(16, Some(shot(1, 1, 10)), Some(shot(2, 1, 20))).unwrap().id, 2);
}

#[test]
fn pick_nearest_extreme_times() {
    let r = pick_nearest(i64::MAX, Some(shot(1, 1, i64::MIN)), Some(shot(2, 1, i64::MAX)));
    assert_eq!(r.unwrap().id, 2);
}

#[test]
fn range_is_inclusive_and_ordered() {
    let log = vec![row(1, "a", 5), row(1, "b", 10), row(2, "c", 15), row(1, "d", 20), row(2, "e", 25)];
    let r = events_in_range(&log, 10, 20, 100);
    let titles: Vec<&str> = r.iter().map(|e| e.window_title.as_str()).collect();
    assert_eq!(titles, vec!["b", "c", "d"]);
    for w in r.windows(2) {
        assert!(w[0].created_at_sec < w[1].created_at_sec);
    }
    for e in &r {
        assert!(10 <= e.created_at_sec && e.created_at_sec <= 20);
    }
}

#[test]
fn range_respects_limit() {
    let log = vec![row(1, "a", 5), row(1, "b", 10), row(2, "c", 15), row(1, "d", 20)];
    let r = events_in_range(&log, 0, 100, 2);
    assert_eq!(r.len(), 2);
    assert_eq!(r[0].window_title, "a");
    assert_eq!(r[1].window_title, "b");
    assert!(events_in_range(&log, 0, 100, 0).is_empty());
}

#[test]
fn range_negative_limit_is_unbounded() {
    let log = vec![row(1, "a", 5), row(1, "b", 10), row(2, "c", 15)];
    assert_eq!(events_in_range(&log, 0, 100, -1).len(), 3);
}

#[test]
fn range_empty_and_inverted() {
    let log: Vec<WindowEventRow> = Vec::new();
    assert!(events_in_range(&log, 0, 100, 10).is_empty());
    let log = vec![row(1, "a", 5)];
    assert!(events_in_range(&log, 10, 0, 10).is_empty());
}

#[test]
fn millisecond_conversion_truncates() {
    assert_eq!(secs_from_ms(0), 0);
    assert_eq!(secs_from_ms(1999), 1);
    assert_eq!(secs_from_ms(2000), 2);
    assert_eq!(secs_from_ms(-1500), -1);
    assert_eq!(secs_from_ms(i64::MIN), i64::MIN / 1000);
}

#[test]
fn fetch_converts_and_defaults_limit() {
    let log = vec![row(1, "a", 5), row(1, "b", 10), row(2, "c", 15)];
    let r = fetch_window_events(&log, 10_000, 15_999, None);
    assert_eq!(r.len(), 2);
    assert_eq!(r[0].window_title, "b");
    let r = fetch_window_events(&log, 0, 20_000, Some(1));
    assert_eq!(r.len(), 1);
    assert_eq!(DEFAULT_EVENT_LIMIT, 2000);
}
