use hdim::average::get_average_rgb;
use hdim::image_data::{Color, HdimImage};
use hdim::render::{render, render_cells, View};

fn uniform_image(w: u32, h: u32, c: Color) -> HdimImage {
    HdimImage::new(w, h, vec![c; (w * h) as usize]).unwrap()
}

#[test]
fn render_is_deterministic() {
    let gray = Color { r: 90, g: 120, b: 150 };
    let image = uniform_image(33, 21, gray);
    let view = View {
        source_x: 3,
        source_y: 1,
        source_width: 30,
        source_height: 20,
        target_width: 7,
        target_height: 5,
    };
    let a = render(&image, &view).unwrap();
    let b = render(&image, &view).unwrap();
    assert_eq!(a, b);
}

#[test]
fn render_fills_grid_exactly() {
    // A tiny image with an oversized grid still yields the full grid shape.
    let image = uniform_image(3, 5, Color { r: 10, g: 20, b: 30 });
    let view = View {
        source_x: 0,
        source_y: 0,
        source_width: 3,
        source_height: 5,
        target_width: 4,
        target_height: 3,
    };
    let output = render(&image, &view).unwrap();
    assert_eq!(output.lines().count(), 3);
    for line in output.lines() {
        assert_eq!(line.matches('\u{2584}').count(), 4);
    }

    let cells = render_cells(&image, &view);
    assert_eq!(cells.len(), 3);
    for row in &cells {
        assert_eq!(row.len(), 4);
    }
}

#[test]
fn uniform_gray_renders_as_itself() {
    // 100 x 100 uniform gray into a 10 x 10 grid: every cell shows the
    // exact gray on both bands.
    let gray = Color { r: 128, g: 128, b: 128 };
    let image = uniform_image(100, 100, gray);
    let view = View {
        source_x: 0,
        source_y: 0,
        source_width: 100,
        source_height: 100,
        target_width: 10,
        target_height: 10,
    };
    let output = render(&image, &view).unwrap();

    let cell = "\u{1b}[48;2;128;128;128m\u{1b}[38;2;128;128;128m\u{2584}";
    let mut expected = String::new();
    for _ in 0..10 {
        for _ in 0..10 {
            expected.push_str(cell);
        }
        expected.push_str("\u{1b}[0m\n");
    }
    assert_eq!(output, expected);
}

#[test]
fn empty_grid_renders_empty_buffer() {
    // sourceRect {0,0,50,50} with a 0 x 0 target grid: an empty buffer and
    // no division by zero.
    let image = uniform_image(50, 50, Color { r: 1, g: 2, b: 3 });
    let view = View {
        source_x: 0,
        source_y: 0,
        source_width: 50,
        source_height: 50,
        target_width: 0,
        target_height: 0,
    };
    let output = render(&image, &view).unwrap();
    assert_eq!(output, "");
}

#[test]
fn average_outside_bounds_is_black() {
    let image = uniform_image(10, 10, Color { r: 200, g: 100, b: 50 });
    let c = get_average_rgb(&image, 20, 20, 5, 5);
    assert_eq!(c, Color { r: 0, g: 0, b: 0 });
    let c = get_average_rgb(&image, 0, 10, 3, 3);
    assert_eq!(c, Color { r: 0, g: 0, b: 0 });
}

#[test]
fn average_uniform_block_is_exact() {
    let teal = Color { r: 12, g: 210, b: 190 };
    let image = uniform_image(64, 64, teal);
    assert_eq!(get_average_rgb(&image, 0, 0, 64, 64), teal);
    assert_eq!(get_average_rgb(&image, 10, 20, 7, 3), teal);
    assert_eq!(get_average_rgb(&image, 63, 63, 1, 1), teal);
}

#[test]
fn average_clamps_to_in_bounds_area() {
    // Rect {90,90,20,20} on a 100 x 100 image: only the in-bounds 10 x 10
    // corner is sampled.
    let mut pixels = vec![Color { r: 200, g: 200, b: 200 }; 100 * 100];
    for y in 90..100u32 {
        for x in 90..100u32 {
            pixels[(y * 100 + x) as usize] = Color { r: 10, g: 20, b: 30 };
        }
    }
    let image = HdimImage::new(100, 100, pixels).unwrap();
    let c = get_average_rgb(&image, 90, 90, 20, 20);
    assert_eq!(c, Color { r: 10, g: 20, b: 30 });
}

#[test]
fn average_mixes_two_pixels() {
    // (0 + 255) / 2 = 127 with truncating division.
    let pixels = vec![
        Color { r: 0, g: 0, b: 0 },
        Color { r: 255, g: 255, b: 255 },
    ];
    let image = HdimImage::new(2, 1, pixels).unwrap();
    let c = get_average_rgb(&image, 0, 0, 2, 1);
    assert_eq!(c, Color { r: 127, g: 127, b: 127 });
}

#[test]
fn image_new_rejects_wrong_pixel_count() {
    let pixels = vec![Color { r: 0, g: 0, b: 0 }; 5];
    assert!(HdimImage::new(2, 2, pixels).is_none());
    let pixels = vec![Color { r: 0, g: 0, b: 0 }; 4];
    assert!(HdimImage::new(2, 2, pixels).is_some());
}
