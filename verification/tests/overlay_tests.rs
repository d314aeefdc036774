use shortcut_core::overlay::{is_mouse_within_monitor, monitor_with_cursor_index, MonitorRect};

#[test]
fn points_inside_and_outside_a_monitor() {
    let m = MonitorRect { x: 100, y: 50, width: 1920, height: 1080 };
    assert!(is_mouse_within_monitor((100, 50), &m));
    assert!(is_mouse_within_monitor((2019, 1129), &m));
    assert!(!is_mouse_within_monitor((2020, 1129), &m));
    assert!(!is_mouse_within_monitor((2019, 1130), &m));
    assert!(!is_mouse_within_monitor((99, 50), &m));
    assert!(!is_mouse_within_monitor((100, 49), &m));
}

#[test]
fn negative_origins_are_handled() {
    let m = MonitorRect { x: -1920, y: 0, width: 1920, height: 1080 };
    assert!(is_mouse_within_monitor((-1, 0), &m));
    assert!(is_mouse_within_monitor((-1920, 1079), &m));
    assert!(!is_mouse_within_monitor((0, 0), &m));
}

#[test]
fn the_first_matching_monitor_wins() {
    let monitors = vec![
        MonitorRect { x: 0, y: 0, width: 1920, height: 1080 },
        MonitorRect { x: 1920, y: 0, width: 1920, height: 1080 },
    ];
    assert_eq!(monitor_with_cursor_index((10, 10), &monitors), Some(0));
    assert_eq!(monitor_with_cursor_index((2000, 10), &monitors), Some(1));
    assert_eq!(monitor_with_cursor_index((5000, 10), &monitors), None);
    assert_eq!(monitor_with_cursor_index((10, 10), &Vec::new()), None);
}
