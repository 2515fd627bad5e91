use floatdo::window_pos::{beside_widget, bottom_right_corner, format_pos, key_for, parse_pos, position_on_screen, PET_POS_KEY, WIDGET_POS_KEY};

#[test]
fn key_for_maps_known_windows_only() {
    assert_eq!(key_for("widget"), Some(WIDGET_POS_KEY));
    assert_eq!(key_for("pet"), Some(PET_POS_KEY));
    assert_eq!(key_for("settings"), None);
}

#[test]
fn stored_positions_read_back() {
    for (x, b) in [(0, 0), (-120, 1080), (2147483647, -2147483648), (35, -7)] {
        assert_eq!(parse_pos(&format_pos(x, b)), Some((x, b)));
    }
    assert_eq!(format_pos(-5, 300), "-5,300");
    assert_eq!(parse_pos("10,20,30"), Some((10, 20)));
    assert_eq!(parse_pos("10"), None);
    assert_eq!(parse_pos("a,2"), None);
    assert_eq!(parse_pos("+3,4"), Some((3, 4)));
}

#[test]
fn restored_windows_must_stay_on_screen() {
    let monitor = Some((0, 0, 1920, 1080));
    assert!(position_on_screen(100, 100, 300, 200, monitor));
    assert!(!position_on_screen(-250, 100, 300, 200, monitor));
    assert!(!position_on_screen(1900, 100, 300, 200, monitor));
    assert!(position_on_screen(-5000, -5000, 300, 200, None));
}

#[test]
fn default_places_stay_on_screen() {
    assert_eq!(bottom_right_corner(1920, 1080, 360, 520, 24), (1536, 536));
    assert_eq!(bottom_right_corner(300, 200, 360, 520, 16), (0, 0));
    assert_eq!(beside_widget(1536, 536, 520, 128, 128, 18), (1390, 928));
    assert_eq!(beside_widget(50, -600, 520, 128, 128, 18), (0, 0));
}
