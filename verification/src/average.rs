use vstd::prelude::*;
use crate::image_data::{Color, HdimImage};

verus! {

/// Channel `i` of a sample: 0 is red, 1 is green, everything else blue.
pub open spec fn channel(c: Color, i: int) -> int {
    if i == 0 {
        c.r as int
    } else if i == 1 {
        c.g as int
    } else {
        c.b as int
    }
}

/// Sum of channel `i` over the pixels `[x0, x1)` of row `y`.
pub open spec fn row_sum(img: HdimImage, y: int, x0: int, x1: int, i: int) -> int
    decreases x1 - x0,
{
    if x1 <= x0 {
        0
    } else {
        row_sum(img, y, x0, x1 - 1, i) + channel(img.pix(x1 - 1, y), i)
    }
}

/// Sum of channel `i` over the rectangle `[x0, x1) x [y0, y1)`.
pub open spec fn rect_sum(img: HdimImage, y0: int, y1: int, x0: int, x1: int, i: int) -> int
    decreases y1 - y0,
{
    if y1 <= y0 {
        0
    } else {
        rect_sum(img, y0, y1 - 1, x0, x1, i) + row_sum(img, y1 - 1, x0, x1, i)
    }
}

/// The mean color of the rectangle of size `w x h` at `(x0, y0)`, clamped to
/// the image bounds; black when nothing of it lies inside the image.
/// Per-channel integer division truncates toward zero.
pub open spec fn average_spec(img: HdimImage, x0: int, y0: int, w: int, h: int) -> Color {
    let ex = if x0 + w <= img.width as int { x0 + w } else { img.width as int };
    let ey = if y0 + h <= img.height as int { y0 + h } else { img.height as int };
    if x0 < ex && y0 < ey {
        let count = (ex - x0) * (ey - y0);
        (Color {
            r: (rect_sum(img, y0, ey, x0, ex, 0) / count) as u8,
            g: (rect_sum(img, y0, ey, x0, ex, 1) / count) as u8,
            b: (rect_sum(img, y0, ey, x0, ex, 2) / count) as u8,
        })
    } else {
        (Color { r: 0, g: 0, b: 0 })
    }
}

/// Every channel sum sits between 0 and 255 per pixel counted.
proof fn lemma_row_sum_bounds(img: HdimImage, y: int, x0: int, x1: int, i: int)
    ensures
        0 <= row_sum(img, y, x0, x1, i),
        x1 >= x0 ==> row_sum(img, y, x0, x1, i) <= 255 * (x1 - x0),
    decreases x1 - x0,
{
    if x1 > x0 {
        lemma_row_sum_bounds(img, y, x0, x1 - 1, i);
    }
}

proof fn lemma_rect_sum_bounds(img: HdimImage, y0: int, y1: int, x0: int, x1: int, i: int)
    requires
        x0 <= x1,
    ensures
        0 <= rect_sum(img, y0, y1, x0, x1, i),
        y1 >= y0 ==> rect_sum(img, y0, y1, x0, x1, i) <= 255 * ((y1 - y0) * (x1 - x0)),
    decreases y1 - y0,
{
    if y1 > y0 {
        lemma_rect_sum_bounds(img, y0, y1 - 1, x0, x1, i);
        lemma_row_sum_bounds(img, y1 - 1, x0, x1, i);
        assert(255 * ((y1 - y0) * (x1 - x0)) == 255 * ((y1 - 1 - y0) * (x1 - x0)) + 255 * (x1
            - x0)) by (nonlinear_arith);
    }
}

/// A sum of at most `255 * count` divided by `count` fits a byte.
proof fn lemma_mean_fits_byte(total: int, count: int)
    requires
        0 < count,
        0 <= total <= 255 * count,
    ensures
        0 <= total / count <= 255,
{
    assert(0 <= total / count <= 255) by (nonlinear_arith)
        requires
            0 < count,
            0 <= total <= 255 * count,
    ;
}

proof fn lemma_row_sum_uniform(img: HdimImage, y: int, x0: int, x1: int, i: int, v: int)
    requires
        x0 <= x1,
        forall|x: int| x0 <= x < x1 ==> #[trigger] channel(img.pix(x, y), i) == v,
    ensures
        row_sum(img, y, x0, x1, i) == v * (x1 - x0),
    decreases x1 - x0,
{
    if x1 > x0 {
        lemma_row_sum_uniform(img, y, x0, x1 - 1, i, v);
        assert(v * (x1 - x0) == v * (x1 - 1 - x0) + v) by (nonlinear_arith);
    } else {
        assert(v * (x1 - x0) == 0) by (nonlinear_arith)
            requires
                x1 == x0,
        ;
    }
}

proof fn lemma_rect_sum_uniform(img: HdimImage, y0: int, y1: int, x0: int, x1: int, i: int, v: int)
    requires
        x0 <= x1,
        y0 <= y1,
        forall|x: int, y: int|
            x0 <= x < x1 && y0 <= y < y1 ==> #[trigger] channel(img.pix(x, y), i) == v,
    ensures
        rect_sum(img, y0, y1, x0, x1, i) == v * ((y1 - y0) * (x1 - x0)),
    decreases y1 - y0,
{
    if y1 > y0 {
        lemma_rect_sum_uniform(img, y0, y1 - 1, x0, x1, i, v);
        lemma_row_sum_uniform(img, y1 - 1, x0, x1, i, v);
        assert(v * ((y1 - y0) * (x1 - x0)) == v * ((y1 - 1 - y0) * (x1 - x0)) + v * (x1 - x0))
            by (nonlinear_arith);
    } else {
        assert(v * ((y1 - y0) * (x1 - x0)) == 0) by (nonlinear_arith)
            requires
                y1 == y0,
        ;
    }
}

/// A uniform block averages to its own color: over any rectangle that lies
/// fully inside the image and whose pixels all hold `col`, the mean is
/// exactly `col`.
pub proof fn lemma_average_uniform(img: HdimImage, x0: int, y0: int, w: int, h: int, col: Color)
    requires
        0 <= x0,
        0 <= y0,
        0 < w,
        0 < h,
        x0 + w <= img.width as int,
        y0 + h <= img.height as int,
        forall|x: int, y: int|
            x0 <= x < x0 + w && y0 <= y < y0 + h ==> #[trigger] img.pix(x, y) == col,
    ensures
        average_spec(img, x0, y0, w, h) == col,
{
    let ex = x0 + w;
    let ey = y0 + h;
    let count = w * h;
    assert(w * h > 0) by (nonlinear_arith)
        requires
            w > 0,
            h > 0,
    ;
    assert forall|i: int| 0 <= i < 3 implies rect_sum(img, y0, ey, x0, ex, i) == channel(col, i) * (
    (ey - y0) * (ex - x0)) by {
        assert(forall|x: int, y: int|
            x0 <= x < ex && y0 <= y < ey ==> #[trigger] channel(img.pix(x, y), i) == channel(
                col,
                i,
            ));
        lemma_rect_sum_uniform(img, y0, ey, x0, ex, i, channel(col, i));
    }
    assert((ex - x0) * (ey - y0) == (ey - y0) * (ex - x0)) by (nonlinear_arith);
    lemma_uniform_mean(col.r as int, ex - x0, ey - y0);
    lemma_uniform_mean(col.g as int, ex - x0, ey - y0);
    lemma_uniform_mean(col.b as int, ex - x0, ey - y0);
    assert(rect_sum(img, y0, ey, x0, ex, 0) / ((ex - x0) * (ey - y0)) == col.r as int);
    assert(rect_sum(img, y0, ey, x0, ex, 1) / ((ex - x0) * (ey - y0)) == col.g as int);
    assert(rect_sum(img, y0, ey, x0, ex, 2) / ((ex - x0) * (ey - y0)) == col.b as int);
}

/// A constant value summed over every cell of a block and divided by the
/// block's area gives the value back.
proof fn lemma_uniform_mean(v: int, w: int, h: int)
    requires
        0 <= v,
        0 < w,
        0 < h,
    ensures
        v * (h * w) / (w * h) == v,
{
    assert(v * (h * w) / (w * h) == v) by (nonlinear_arith)
        requires
            0 <= v,
            0 < w,
            0 < h,
    ;
}

/// A rectangle that starts at or beyond the right or bottom edge of the image
/// samples nothing and averages to black.
pub proof fn lemma_average_outside_is_black(img: HdimImage, x0: int, y0: int, w: int, h: int)
    requires
        x0 >= img.width as int || y0 >= img.height as int,
    ensures
        average_spec(img, x0, y0, w, h) == (Color { r: 0, g: 0, b: 0 }),
{
}

/// Computes the average color of the axis-aligned rectangle of `width` by
/// `height` pixels whose top-left corner is `(start_x, start_y)`. The
/// rectangle is clamped to the image bounds first; an empty clamped region
/// yields black.
pub fn get_average_rgb(image: &HdimImage, start_x: u32, start_y: u32, width: u32, height: u32) -> (c:
    Color)
    requires
        image.wf(),
    ensures
        c == average_spec(*image, start_x as int, start_y as int, width as int, height as int),
{
    let end_x: u32 = if (start_x as u64) + (width as u64) <= image.width as u64 {
        start_x + width
    } else {
        image.width
    };
    let end_y: u32 = if (start_y as u64) + (height as u64) <= image.height as u64 {
        start_y + height
    } else {
        image.height
    };
    if start_x >= end_x || start_y >= end_y {
        return Color { r: 0, g: 0, b: 0 };
    }
    let mut r_total: u128 = 0;
    let mut g_total: u128 = 0;
    let mut b_total: u128 = 0;
    let mut count: u128 = 0;
    let ghost rw: int = end_x as int - start_x as int;
    let mut py: u32 = start_y;
    while py < end_y
        invariant
            image.wf(),
            start_x < end_x <= image.width,
            start_y <= py <= end_y <= image.height,
            rw == end_x as int - start_x as int,
            count == (py - start_y) * rw,
            r_total == rect_sum(*image, start_y as int, py as int, start_x as int, end_x as int, 0),
            g_total == rect_sum(*image, start_y as int, py as int, start_x as int, end_x as int, 1),
            b_total == rect_sum(*image, start_y as int, py as int, start_x as int, end_x as int, 2),
            r_total <= 255 * count,
            g_total <= 255 * count,
            b_total <= 255 * count,
        decreases end_y - py,
    {
        let mut px: u32 = start_x;
        while px < end_x
            invariant
                image.wf(),
                start_x <= px <= end_x <= image.width,
                start_y <= py < end_y <= image.height,
                rw == end_x as int - start_x as int,
                count == (py - start_y) * rw + (px - start_x),
                r_total == rect_sum(*image, start_y as int, py as int, start_x as int, end_x as int, 0)
                    + row_sum(*image, py as int, start_x as int, px as int, 0),
                g_total == rect_sum(*image, start_y as int, py as int, start_x as int, end_x as int, 1)
                    + row_sum(*image, py as int, start_x as int, px as int, 1),
                b_total == rect_sum(*image, start_y as int, py as int, start_x as int, end_x as int, 2)
                    + row_sum(*image, py as int, start_x as int, px as int, 2),
                r_total <= 255 * count,
                g_total <= 255 * count,
                b_total <= 255 * count,
            decreases end_x - px,
        {
            proof {
                crate::image_data::lemma_mul_u32_fits_u64((py - start_y) as int + 1, rw);
                assert(((py - start_y) as int + 1) * rw == ((py - start_y) as int) * rw + rw)
                    by (nonlinear_arith);
            }
            let pixel = image.get_pixel(px, py);
            r_total = r_total + pixel.r as u128;
            g_total = g_total + pixel.g as u128;
            b_total = b_total + pixel.b as u128;
            count = count + 1;
            px = px + 1;
        }
        proof {
            assert((py + 1 - start_y) * rw == (py - start_y) * rw + rw) by (nonlinear_arith);
        }
        py = py + 1;
    }
    proof {
        assert(count > 0) by {
            assert(count == (end_y - start_y) * rw);
            assert((end_y as int - start_y as int) * rw > 0) by (nonlinear_arith)
                requires
                    end_y as int - start_y as int > 0,
                    rw > 0,
            ;
        }
        lemma_mean_fits_byte(r_total as int, count as int);
        lemma_mean_fits_byte(g_total as int, count as int);
        lemma_mean_fits_byte(b_total as int, count as int);
        assert((end_y as int - start_y as int) * rw == (end_x as int - start_x as int) * (
        end_y as int - start_y as int)) by (nonlinear_arith)
            requires
                rw == end_x as int - start_x as int,
        ;
    }
    Color {
        r: (r_total / count) as u8,
        g: (g_total / count) as u8,
        b: (b_total / count) as u8,
    }
}

} // verus!
