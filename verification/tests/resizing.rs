use hdim::image_data::{calculate_resize, Color, HdimImage, Size};

fn make_dummy_image(w: u32, h: u32) -> HdimImage {
    let pixels = vec![Color { r: 0, g: 0, b: 0 }; (w * h) as usize];
    HdimImage::new(w, h, pixels).unwrap()
}

#[test]
fn test_resize_logic_external() {
    let img = make_dummy_image(100, 100);
    let max = Size {
        width: 50,
        height: 50,
    };

    let result = calculate_resize(&img, max);

    assert!(result.width <= 50);
    // Remember our logic doubles the height budget for terminal cells
    assert!(result.height <= 100);
}

#[test]
fn resizing_test_resize_logic_external() {
    let img = make_dummy_image(100, 100);
    let max = Size {
        width: 50,
        height: 50,
    };

    let result = calculate_resize(&img, max);

    assert!(result.width <= 50);
    // Remember our logic doubles the height budget for terminal cells
    assert!(result.height <= 100);
}

#[test]
fn resize_square_into_half_budget_is_exact() {
    // Width is the binding constraint: ratio 1/2 on both axes.
    let img = make_dummy_image(100, 100);
    let max = Size {
        width: 50,
        height: 50,
    };
    let result = calculate_resize(&img, max);
    assert_eq!(result, Size { width: 50, height: 50 });
}

#[test]
fn resize_tall_image_is_height_bound() {
    // 10 x 400 into 100 columns by 2*50 pixel rows: height ratio 1/4 binds.
    let img = make_dummy_image(10, 400);
    let max = Size {
        width: 100,
        height: 50,
    };
    let result = calculate_resize(&img, max);
    assert_eq!(result, Size { width: 2, height: 100 });
}
