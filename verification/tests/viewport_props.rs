use hdim::image_data::Size;
use hdim::viewport::{Viewport, MIN_ZOOM_MILLI};

#[test]
fn pan_clamps_to_visible_width() {
    // A 1000 x 1000 image at zoom 1.0 with a 100 x 50 grid: panning 2000
    // columns right stops at 1000 - visible width, not at 2000.
    let mut v = Viewport::new(1000, 1000, 1000);
    let grid = Size { width: 100, height: 50 };
    v.scroll(2000, 0, grid);
    assert_eq!(v.source_x, 900);
    assert_eq!(v.source_y, 0);
}

#[test]
fn pan_saturates_at_zero() {
    let mut v = Viewport::new(1000, 1000, 1000);
    let grid = Size { width: 100, height: 50 };
    v.scroll(-500, -500, grid);
    assert_eq!(v.source_x, 0);
    assert_eq!(v.source_y, 0);
}

#[test]
fn pan_sequence_keeps_view_inside_image() {
    let mut v = Viewport::new(640, 480, 2000);
    let grid = Size { width: 80, height: 24 };
    let moves = [(300, 0), (300, 300), (-50, 700), (9999, -3), (0, 9999)];
    for (dx, dy) in moves {
        v.scroll(dx, dy, grid);
        // visible width = 80 * 2 = 160, visible height = 2 * 24 * 2 = 96
        assert!(v.source_x + 160 <= 640);
        assert!(v.source_y + 96 <= 480);
        assert!(v.zoom_milli >= MIN_ZOOM_MILLI);
    }
}

#[test]
fn zoom_converges_at_floor() {
    let mut v = Viewport::new(1000, 1000, 12);
    let grid = Size { width: 10, height: 10 };
    v.zoom(833, grid);
    assert_eq!(v.zoom_milli, MIN_ZOOM_MILLI);
    v.zoom(833, grid);
    assert_eq!(v.zoom_milli, MIN_ZOOM_MILLI);
    v.zoom(833, grid);
    assert_eq!(v.zoom_milli, MIN_ZOOM_MILLI);
}

#[test]
fn zoom_out_then_in_scales_zoom() {
    let mut v = Viewport::new(4000, 4000, 1000);
    let grid = Size { width: 10, height: 10 };
    v.zoom(1200, grid);
    assert_eq!(v.zoom_milli, 1200);
    v.zoom(1200, grid);
    assert_eq!(v.zoom_milli, 1440);
    v.zoom(833, grid);
    assert_eq!(v.zoom_milli, 1199); // 1440 * 833 / 1000, truncated
}

#[test]
fn zoom_clamps_position_afterwards() {
    // Zooming out widens the visible span, which drags the position back.
    let mut v = Viewport::new(200, 200, 1000);
    let grid = Size { width: 100, height: 50 };
    v.scroll(100, 0, grid);
    assert_eq!(v.source_x, 100);
    v.zoom(2000, grid); // zoom 2.0: visible width becomes 200
    assert_eq!(v.zoom_milli, 2000);
    assert_eq!(v.source_x, 0);
}

#[test]
fn new_viewport_raises_zoom_to_floor() {
    let v = Viewport::new(10, 10, 3);
    assert_eq!(v.zoom_milli, MIN_ZOOM_MILLI);
    let v = Viewport::new(10, 10, 250);
    assert_eq!(v.zoom_milli, 250);
}

#[test]
fn view_rect_reports_visible_span() {
    let v = Viewport::new(5000, 5000, 1000);
    let grid = Size { width: 80, height: 24 };
    let view = v.view_rect(grid);
    assert_eq!(view.source_x, 0);
    assert_eq!(view.source_y, 0);
    assert_eq!(view.source_width, 80);
    assert_eq!(view.source_height, 48);
    assert_eq!(view.target_width, 80);
    assert_eq!(view.target_height, 24);
}
