use hdim::image_data::{Color, HdimImage};
use hdim::render::{render, View};

fn generate_benchmark_image() -> HdimImage {
    let size: u32 = 256;
    let mut pixels = Vec::new();

    for y in 0..size {
        for x in 0..size {
            // 1. Background Gradient (Blue to Black)
            let b = (y as f32 / size as f32 * 255.0) as u8;
            let mut color = [0, 0, b];

            // 2. Horizontal & Vertical White Lines (Grid test)
            if x % 32 == 0 || y % 32 == 0 {
                color = [200, 200, 200];
            }

            // 3. Diagonal Red Line (Check aliasing/stepping)
            if x == y || x == (size - y - 1) {
                color = [255, 0, 0];
            }

            // 4. Color Circles (Center check)
            let dx = x as i32 - (size / 2) as i32;
            let dy = y as i32 - (size / 2) as i32;
            let dist_sq = dx * dx + dy * dy;

            if dist_sq < 2500 {
                // Large Green Circle
                color = [0, 255, 0];
            }
            if dist_sq < 400 {
                // Small Yellow Core
                color = [255, 255, 0];
            }

            // 5. Brightness Ramp (Top edge)
            if y < 10 {
                let brightness = (x as f32 / size as f32 * 255.0) as u8;
                color = [brightness, brightness, brightness];
            }

            pixels.push(Color { r: color[0], g: color[1], b: color[2] });
        }
    }
    HdimImage::new(size, size, pixels).unwrap()
}

#[test]
fn test_complex_render() {
    let image = generate_benchmark_image();

    // Define the View to replicate old `area_size: 2`
    let area_size = 2u32;
    let view = View {
        source_x: 0,
        source_y: 0,
        source_width: image.width,
        source_height: image.height,
        target_width: (image.width + area_size - 1) / area_size,
        target_height: (image.height + area_size * 2 - 1) / (area_size * 2),
    };

    let output = render(&image, &view).unwrap();

    println!("{}", output);

    // The frame fills the requested grid exactly: 64 rows of 128 cells.
    assert_eq!(output.lines().count(), 64);
    for line in output.lines() {
        assert_eq!(line.matches('\u{2584}').count(), 128);
    }
}
