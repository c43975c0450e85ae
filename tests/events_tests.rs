use intime::events::{WindowEventType, WindowForegroundEvent, EVENT_APPLICATION_CLOSE, EVENT_SYSTEM_FOREGROUND};

#[test]
fn event_type_new_keeps_code() {
    assert_eq!(WindowEventType::new(3).event_code, 3);
    assert_eq!(WindowEventType::new(EVENT_APPLICATION_CLOSE).event_code, 99999);
}

#[test]
fn event_type_names() {
    let cases = [
        (32780u32, "EVENT_SYSTEM_NAMECHANGE"),
        (3, "EVENT_SYSTEM_FOREGROUND"),
        (32768, "EVENT_OBJECT_CREATE"),
        (32769, "EVENT_OBJECT_DESTROY"),
        (32771, "EVENT_OBJECT_HIDE"),
        (23, "EVENT_SYSTEM_MINIMIZEEND"),
        (22, "EVENT_SYSTEM_MINIMIZESTART"),
        (32773, "EVENT_OBJECT_FOCUS"),
        (99999, "EVENT_APPLICATION_CLOSE"),
    ];
    for (code, name) in cases {
        assert_eq!(WindowEventType::new(code).name(), Some(name.to_string()));
    }
}

#[test]
fn unknown_event_code_has_no_name() {
    assert_eq!(WindowEventType::new(4).name(), None);
    assert_eq!(WindowEventType::new(0).name(), None);
}

#[test]
fn foreground_event_kind() {
    let e = WindowForegroundEvent {
        name: "a.exe".to_string(),
        title: "A".to_string(),
        path: "/a.exe".to_string(),
        hwnd: 1,
    };
    assert_eq!(e.event().event_code, EVENT_SYSTEM_FOREGROUND);
}

#[test]
fn labels_fall_back_to_code() {
    assert_eq!(WindowEventType::new(3).label(), "EVENT_SYSTEM_FOREGROUND");
    assert_eq!(WindowEventType::new(99999).label(), "EVENT_APPLICATION_CLOSE");
    assert_eq!(WindowEventType::new(4).label(), "EVENT_4");
    assert_eq!(WindowEventType::new(0).label(), "EVENT_0");
    assert_eq!(WindowEventType::new(1230).label(), "EVENT_1230");
    assert_eq!(WindowEventType::new(u32::MAX).label(), "EVENT_4294967295");
}
