use intime::tracker::{gather_window_info, get_app_name_from_path, is_interesting_window, is_visible_and_valid};

#[test]
fn app_name_is_file_name() {
    assert_eq!(get_app_name_from_path("/usr/bin/editor".to_string()), Some("editor".to_string()));
    assert_eq!(get_app_name_from_path("code.exe".to_string()), Some("code.exe".to_string()));
    assert_eq!(get_app_name_from_path(String::new()), None);
    assert_eq!(get_app_name_from_path("/".to_string()), None);
}

#[test]
fn visibility_filter() {
    assert!(is_visible_and_valid(false, true, 0));
    assert!(is_visible_and_valid(false, true, -4));
    assert!(!is_visible_and_valid(true, true, 0));
    assert!(!is_visible_and_valid(false, false, 0));
    assert!(!is_visible_and_valid(false, true, -3));
}

#[test]
fn interesting_window_filter() {
    assert!(is_interesting_window(0, &Some("Editor".to_string())));
    assert!(is_interesting_window(0, &None));
    assert!(!is_interesting_window(0x80, &Some("Editor".to_string())));
    assert!(!is_interesting_window(0, &Some(String::new())));
}

#[test]
fn gather_builds_foreground_event() {
    let e = gather_window_info(Some("/opt/app/viewer".to_string()), Some("Doc".to_string()), 42).unwrap();
    assert_eq!(e.name, "viewer");
    assert_eq!(e.title, "Doc");
    assert_eq!(e.path, "/opt/app/viewer");
    assert_eq!(e.hwnd, 42);
    assert!(gather_window_info(None, Some("Doc".to_string()), 1).is_none());
    assert!(gather_window_info(Some("/a".to_string()), None, 1).is_none());
}
