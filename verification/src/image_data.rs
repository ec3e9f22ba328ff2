use vstd::prelude::*;

verus! {

/// One RGB sample, a byte per channel.
#[derive(Clone, Copy, Debug, PartialEq, Eq, Structural)]
pub struct Color {
    pub r: u8,
    pub g: u8,
    pub b: u8,
}

/// A decoded raster image held as plain pixel data, row-major, top row first.
///
/// Decoding a file into this form is the surrounding application's business;
/// the library only reads the dimensions and the samples.
#[derive(Debug, Clone)]
pub struct HdimImage {
    pub width: u32,
    pub height: u32,
    pub pixels: Vec<Color>,
}

impl HdimImage {
    /// The pixel store covers exactly `width * height` samples.
    pub open spec fn wf(self) -> bool {
        self.pixels@.len() == self.width * self.height
    }

    /// The sample at column `x`, row `y` (both zero-based, in bounds).
    pub open spec fn pix(self, x: int, y: int) -> Color {
        self.pixels@[y * self.width + x]
    }

    /// Builds an image from its dimensions and row-major samples; refuses a
    /// pixel vector whose length does not match the dimensions.
    pub fn new(width: u32, height: u32, pixels: Vec<Color>) -> (r: Option<HdimImage>)
        ensures
            r is Some <==> pixels@.len() == width * height,
            r is Some ==> r->Some_0 == (HdimImage { width, height, pixels }),
            r is Some ==> r->Some_0.wf(),
    {
        proof {
            lemma_mul_u32_fits_u64(width as int, height as int);
        }
        if pixels.len() as u64 == (width as u64) * (height as u64) {
            Some(HdimImage { width, height, pixels })
        } else {
            None
        }
    }

    /// Reads one sample.
    pub fn get_pixel(&self, x: u32, y: u32) -> (c: Color)
        requires
            self.wf(),
            x < self.width,
            y < self.height,
        ensures
            c == self.pix(x as int, y as int),
    {
        let n = self.pixels.len();
        proof {
            lemma_row_major_index_in_bounds(
                x as int,
                y as int,
                self.width as int,
                self.height as int,
            );
            assert(y * self.width + x < n);
        }
        self.pixels[(y as usize) * (self.width as usize) + (x as usize)]
    }
}

/// A rectangle size: an image's in pixels, or a character area's in columns
/// and rows.
#[derive(Clone, Copy, Debug, PartialEq, Eq, Structural)]
pub struct Size {
    pub width: u32,
    pub height: u32,
}

/// The largest size with the source's aspect ratio that fits a budget of
/// `max.width` columns by `2 * max.height` pixel rows (each character row is
/// two pixel rows tall). Exact rational arithmetic, truncated at the end.
pub open spec fn resize_fit(w: int, h: int, max: Size) -> Size {
    let tw = max.width as int;
    let th2 = 2 * max.height as int;
    if w == 0 && h == 0 {
        (Size { width: 0, height: 0 })
    } else if w == 0 {
        (Size { width: 0, height: th2 as u32 })
    } else if h == 0 {
        (Size { width: tw as u32, height: 0 })
    } else if tw * h <= th2 * w {
        (Size { width: tw as u32, height: (h * tw / w) as u32 })
    } else {
        (Size { width: (w * th2 / h) as u32, height: th2 as u32 })
    }
}

/// Scales the image's dimensions down (or up) to fill `max_size` columns and
/// rows while keeping the aspect ratio, with the height budget doubled since
/// one character cell shows two pixel rows.
pub fn calculate_resize(img: &HdimImage, max_size: Size) -> (r: Size)
    requires
        2 * max_size.height <= u32::MAX,
    ensures
        r == resize_fit(img.width as int, img.height as int, max_size),
{
    let w = img.width;
    let h = img.height;
    let tw = max_size.width;
    let th2 = 2 * max_size.height;
    if w == 0 && h == 0 {
        Size { width: 0, height: 0 }
    } else if w == 0 {
        Size { width: 0, height: th2 }
    } else if h == 0 {
        Size { width: tw, height: 0 }
    } else {
        proof {
            lemma_mul_u32_fits_u64(tw as int, h as int);
            lemma_mul_u32_fits_u64(th2 as int, w as int);
            lemma_mul_u32_fits_u64(h as int, tw as int);
            lemma_mul_u32_fits_u64(w as int, th2 as int);
        }
        if (tw as u64) * (h as u64) <= (th2 as u64) * (w as u64) {
            let nh = (h as u64) * (tw as u64) / (w as u64);
            proof {
                lemma_div_bounded_by_factor(h as int, tw as int, w as int, th2 as int);
            }
            Size { width: tw, height: nh as u32 }
        } else {
            let nw = (w as u64) * (th2 as u64) / (h as u64);
            proof {
                lemma_div_bounded_by_factor(w as int, th2 as int, h as int, tw as int);
            }
            Size { width: nw as u32, height: th2 }
        }
    }
}

/// When `a * b <= bound * d` with `d > 0`, the quotient `a * b / d` stays at
/// or below `bound`.
proof fn lemma_div_bounded_by_factor(a: int, b: int, d: int, bound: int)
    requires
        0 <= a,
        0 <= b,
        0 < d,
        a * b <= bound * d,
    ensures
        0 <= a * b / d <= bound,
{
    assert(0 <= a * b / d <= bound) by (nonlinear_arith)
        requires
            0 <= a,
            0 <= b,
            0 < d,
            a * b <= bound * d,
    ;
}

/// A product of two values below `2^32` stays below `2^64`.
pub proof fn lemma_mul_u32_fits_u64(a: int, b: int)
    requires
        0 <= a < 0x1_0000_0000,
        0 <= b < 0x1_0000_0000,
    ensures
        0 <= a * b < 0x1_0000_0000_0000_0000,
{
    assert(0 <= a * b < 0x1_0000_0000_0000_0000) by (nonlinear_arith)
        requires
            0 <= a < 0x1_0000_0000,
            0 <= b < 0x1_0000_0000,
    ;
}

/// A row-major index lies inside the pixel store.
proof fn lemma_row_major_index_in_bounds(x: int, y: int, w: int, h: int)
    requires
        0 <= x < w,
        0 <= y < h,
    ensures
        0 <= y * w + x < w * h,
{
    assert(0 <= y * w + x < w * h) by (nonlinear_arith)
        requires
            0 <= x < w,
            0 <= y < h,
    ;
}

} // verus!
