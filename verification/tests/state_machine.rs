use hdim::image_data::Size;
use hdim::state::{
    crop_value_at, handle_crop_events, handle_key_press, parse_u32_digits, ActiveWidget, AppMode,
    AppState, CropState, Key, ListNav, Tool,
};
use hdim::viewport::Viewport;

fn fresh_app() -> AppState {
    AppState::new(Viewport::new(100, 100, 1000))
}

fn grid() -> Size {
    Size { width: 10, height: 10 }
}

#[test]
fn parse_decimal_digits() {
    assert_eq!(parse_u32_digits(&vec!['4', '2']), Some(42));
    assert_eq!(parse_u32_digits(&vec!['0']), Some(0));
    assert_eq!(parse_u32_digits(&vec!['0', '7']), Some(7));
    assert_eq!(parse_u32_digits(&vec![]), None);
    assert_eq!(parse_u32_digits(&vec!['a']), None);
    assert_eq!(parse_u32_digits(&vec!['1', ' ', '2']), None);
    assert_eq!(
        parse_u32_digits(&vec!['4', '2', '9', '4', '9', '6', '7', '2', '9', '5']),
        Some(u32::MAX)
    );
    assert_eq!(
        parse_u32_digits(&vec!['4', '2', '9', '4', '9', '6', '7', '2', '9', '6']),
        None
    );
    assert_eq!(
        parse_u32_digits(&vec!['9', '9', '9', '9', '9', '9', '9', '9', '9', '9', '9', '9']),
        None
    );
}

#[test]
fn selecting_crop_tool() {
    let mut app = fresh_app();
    handle_key_press(&mut app, Key::Char('1'), grid());
    assert!(matches!(app.selected_tool, Some(Tool::Crop)));
    assert_eq!(app.active_widget, ActiveWidget::RightToolbar);
    assert_eq!(app.mode, AppMode::Normal);
}

#[test]
fn editing_a_crop_margin() {
    let mut app = fresh_app();
    handle_key_press(&mut app, Key::Char('1'), grid());
    // Tab twice: from "left" to "top".
    handle_key_press(&mut app, Key::Tab, grid());
    handle_key_press(&mut app, Key::Tab, grid());
    assert_eq!(app.selected_crop_option_index, 2);
    handle_key_press(&mut app, Key::Enter, grid());
    assert_eq!(app.mode, AppMode::EditingCropValue);
    handle_key_press(&mut app, Key::Char('1'), grid());
    handle_key_press(&mut app, Key::Char('2'), grid());
    handle_key_press(&mut app, Key::Char('x'), grid()); // ignored: not a digit
    assert_eq!(app.crop_input, vec!['1', '2']);
    handle_key_press(&mut app, Key::Enter, grid());
    assert_eq!(app.crop_state.top, 12);
    assert_eq!(app.mode, AppMode::Normal);
    assert!(app.crop_input.is_empty());
}

#[test]
fn backspace_edits_pending_digits() {
    let mut app = fresh_app();
    app.selected_tool = Some(Tool::Crop);
    app.mode = AppMode::EditingCropValue;
    handle_crop_events(Key::Char('7'), &mut app);
    handle_crop_events(Key::Char('8'), &mut app);
    handle_crop_events(Key::Backspace, &mut app);
    assert_eq!(app.crop_input, vec!['7']);
    handle_crop_events(Key::Enter, &mut app);
    assert_eq!(app.crop_state.left, 7);
}

#[test]
fn escape_abandons_crop_edit() {
    let mut app = fresh_app();
    app.mode = AppMode::EditingCropValue;
    handle_crop_events(Key::Char('9'), &mut app);
    handle_crop_events(Key::Esc, &mut app);
    assert_eq!(app.mode, AppMode::Normal);
    assert!(app.crop_input.is_empty());
    assert_eq!(app.crop_state.left, 0);
}

#[test]
fn tab_wraps_through_crop_options() {
    let mut app = fresh_app();
    app.selected_tool = Some(Tool::Crop);
    for expected in [1, 2, 3, 4, 0, 1] {
        handle_crop_events(Key::Tab, &mut app);
        assert_eq!(app.selected_crop_option_index, expected);
    }
}

#[test]
fn enter_on_action_option_does_not_edit() {
    let mut app = fresh_app();
    app.selected_tool = Some(Tool::Crop);
    app.selected_crop_option_index = 4; // "crop from viewport"
    handle_crop_events(Key::Enter, &mut app);
    assert_eq!(app.mode, AppMode::Normal);
}

#[test]
fn exif_mode_scrolls_list() {
    let mut app = fresh_app();
    app.exif_view = Some(ListNav::new(3));
    handle_key_press(&mut app, Key::Char('2'), grid());
    assert_eq!(app.mode, AppMode::ExifView);
    assert!(matches!(app.selected_tool, Some(Tool::Exif)));
    assert_eq!(app.exif_view.unwrap().selected, Some(0));
    handle_key_press(&mut app, Key::Down, grid());
    assert_eq!(app.exif_view.unwrap().selected, Some(1));
    handle_key_press(&mut app, Key::Down, grid());
    handle_key_press(&mut app, Key::Down, grid());
    assert_eq!(app.exif_view.unwrap().selected, Some(0)); // wrapped
    handle_key_press(&mut app, Key::Up, grid());
    assert_eq!(app.exif_view.unwrap().selected, Some(2)); // wrapped back
    handle_key_press(&mut app, Key::Esc, grid());
    assert_eq!(app.mode, AppMode::Normal);
    assert_eq!(app.active_widget, ActiveWidget::Main);
}

#[test]
fn list_nav_wraps_both_ways() {
    let mut nav = ListNav::new(1);
    nav.next();
    assert_eq!(nav.selected, Some(0));
    nav.next();
    assert_eq!(nav.selected, Some(0));
    nav.previous();
    assert_eq!(nav.selected, Some(0));
    nav.unselect();
    assert_eq!(nav.selected, None);
    nav.previous();
    assert_eq!(nav.selected, Some(0));

    let mut empty = ListNav::new(0);
    empty.next();
    assert_eq!(empty.selected, None);
    empty.previous();
    assert_eq!(empty.selected, None);
}

#[test]
fn arrows_pan_the_viewport() {
    let mut app = fresh_app();
    // zoom 1.0: ten columns pan ten pixels; visible width 10 of 100.
    handle_key_press(&mut app, Key::Right, grid());
    assert_eq!(app.viewport.source_x, 10);
    handle_key_press(&mut app, Key::Down, grid());
    assert_eq!(app.viewport.source_y, 10);
    handle_key_press(&mut app, Key::Left, grid());
    assert_eq!(app.viewport.source_x, 0);
    handle_key_press(&mut app, Key::Up, grid());
    assert_eq!(app.viewport.source_y, 0);
}

#[test]
fn page_keys_zoom_the_viewport() {
    let mut app = fresh_app();
    handle_key_press(&mut app, Key::PageDown, grid());
    assert_eq!(app.viewport.zoom_milli, 1200);
    handle_key_press(&mut app, Key::PageUp, grid());
    assert_eq!(app.viewport.zoom_milli, 999); // 1200 * 833 / 1000, truncated
}

#[test]
fn escape_in_normal_mode_drops_tool() {
    let mut app = fresh_app();
    handle_key_press(&mut app, Key::Char('1'), grid());
    handle_key_press(&mut app, Key::Esc, grid());
    assert!(app.selected_tool.is_none());
    assert_eq!(app.active_widget, ActiveWidget::Main);
}

#[test]
fn crop_value_lookup() {
    let c = CropState { left: 1, right: 2, top: 3, bottom: 4 };
    assert_eq!(crop_value_at(&c, 0), Some(1));
    assert_eq!(crop_value_at(&c, 1), Some(2));
    assert_eq!(crop_value_at(&c, 2), Some(3));
    assert_eq!(crop_value_at(&c, 3), Some(4));
    assert_eq!(crop_value_at(&c, 4), None);
}

#[test]
fn default_crop_state_is_zero() {
    let c = CropState::default();
    assert_eq!(c.left, 0);
    assert_eq!(c.right, 0);
    assert_eq!(c.top, 0);
    assert_eq!(c.bottom, 0);
}
