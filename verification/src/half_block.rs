use vstd::prelude::*;
use crate::glyph::{buffer_chars, encode_buffer, CellColors};
use crate::image_data::HdimImage;
use crate::render::RenderError;

verus! {

/// The cell whose upper band is the pixel at `(x, y)` and whose lower band is
/// the pixel directly below it, or the upper pixel again on the bottom edge.
pub open spec fn half_block_cell(img: HdimImage, x: int, y: int) -> CellColors {
    let top = img.pix(x, y);
    let bot = if y + 1 < img.height as int {
        img.pix(x, y + 1)
    } else {
        top
    };
    (CellColors { top, bot })
}

/// One output row per two pixel rows (the last pixel row doubled when the
/// height is odd), each with one cell per pixel column.
pub open spec fn half_block_rows(img: HdimImage) -> Seq<Seq<CellColors>> {
    Seq::new(
        ((img.height as int + 1) / 2) as nat,
        |r: int| Seq::new(img.width as nat, |x: int| half_block_cell(img, x, 2 * r)),
    )
}

/// Renders the whole image one pixel per cell band: each character cell
/// stacks two vertically adjacent pixels. The formatting cannot fail, so the
/// result is always `Ok`.
pub fn render_half_block(img: &HdimImage) -> (r: Result<String, RenderError>)
    requires
        img.wf(),
    ensures
        r is Ok,
        r->Ok_0@ == buffer_chars(half_block_rows(*img)),
{
    let mut cells: Vec<Vec<CellColors>> = Vec::new();
    let mut y: u64 = 0;
    while y < img.height as u64
        invariant
            img.wf(),
            y % 2 == 0,
            y <= img.height + 1,
            cells@.len() == y / 2,
            forall|rr: int|
                0 <= rr < cells@.len() ==> #[trigger] cells@[rr]@ == half_block_rows(*img)[rr],
        decreases img.height as int + 1 - y as int,
    {
        let mut row: Vec<CellColors> = Vec::new();
        let mut x: u32 = 0;
        while x < img.width
            invariant
                img.wf(),
                y < img.height as u64,
                y % 2 == 0,
                x <= img.width,
                row@.len() == x,
                forall|xx: int|
                    0 <= xx < x ==> #[trigger] row@[xx] == half_block_cell(*img, xx, y as int),
            decreases img.width - x,
        {
            let top = img.get_pixel(x, y as u32);
            let bot = if y + 1 < img.height as u64 {
                img.get_pixel(x, (y + 1) as u32)
            } else {
                top
            };
            row.push(CellColors { top, bot });
            x = x + 1;
        }
        proof {
            assert(2 * ((y / 2) as int) == y as int);
            assert(row@ =~= half_block_rows(*img)[(y / 2) as int]);
        }
        cells.push(row);
        y = y + 2;
    }
    proof {
        assert(cells@.map_values(|row: Vec<CellColors>| row@) =~= half_block_rows(*img));
    }
    let out = encode_buffer(&cells);
    Ok(out)
}

} // verus!
