use vstd::prelude::*;
use vstd::view::View as VstdView;
use crate::average::{average_spec, get_average_rgb, lemma_average_outside_is_black};
use crate::glyph::{buffer_chars, CellColors};
use crate::image_data::{Color, HdimImage};

verus! {

/// The mapping between a rectangular area of the source image and the target
/// rendering area in the terminal. The source rectangle need not lie inside
/// the image: sampling clamps to the image bounds.
#[derive(Clone, Copy, Debug, PartialEq, Eq, Structural)]
pub struct View {
    /// The top-left X coordinate of the view on the source image (in pixels).
    pub source_x: u32,
    /// The top-left Y coordinate of the view on the source image (in pixels).
    pub source_y: u32,
    /// The width of the view on the source image (in pixels).
    pub source_width: u32,
    /// The height of the view on the source image (in pixels).
    pub source_height: u32,
    /// The width of the target render area (in terminal columns).
    pub target_width: u32,
    /// The height of the target render area (in terminal rows).
    pub target_height: u32,
}

/// Failure of the character-formatting step. The built-in formatter cannot
/// fail, so `render` never actually produces one; the variant keeps the
/// frame-fatal error path in the signature.
#[derive(Clone, Copy, Debug, PartialEq, Eq, Structural)]
pub struct RenderError;

/// Source pixels per target column, rounded to the nearest whole block width,
/// never below one.
pub open spec fn block_width_of(view: View) -> int {
    let r = (2 * view.source_width as int + view.target_width as int) / (2
        * view.target_width as int);
    if r < 1 {
        1
    } else {
        r
    }
}

/// Height of one half-block sample band: half the source rows per target row,
/// rounded, never below one.
pub open spec fn half_height_of(view: View) -> int {
    let r = (view.source_height as int + view.target_height as int) / (2
        * view.target_height as int);
    if r < 1 {
        1
    } else {
        r
    }
}

/// Source X coordinate where the block of target column `x` starts.
pub open spec fn sample_x(view: View, x: int) -> int {
    view.source_x + x * view.source_width / view.target_width as int
}

/// Source Y coordinate where the upper half-block of target row `y` starts.
pub open spec fn sample_y(view: View, y: int) -> int {
    view.source_y + y * view.source_height / view.target_height as int
}

/// The pair of averaged colors for target cell `(x, y)`: the upper half-block
/// band and, directly below it, the lower one.
pub open spec fn cell_at(img: HdimImage, view: View, x: int, y: int) -> CellColors {
    let bw = block_width_of(view);
    let hh = half_height_of(view);
    let sx = sample_x(view, x);
    let sy = sample_y(view, y);
    (CellColors {
        top: average_spec(img, sx, sy, bw, hh),
        bot: average_spec(img, sx, sy + hh, bw, hh),
    })
}

/// The full grid of cell colors for a frame: `target_height` rows of
/// `target_width` cells, row-major.
pub open spec fn grid_of(img: HdimImage, view: View) -> Seq<Seq<CellColors>> {
    Seq::new(
        view.target_height as nat,
        |y: int| Seq::new(view.target_width as nat, |x: int| cell_at(img, view, x, y)),
    )
}

/// The rows of cells one frame yields: none at all for a degenerate target
/// grid, else the full grid.
pub open spec fn frame_rows(img: HdimImage, view: View) -> Seq<Seq<CellColors>> {
    if view.target_width == 0 || view.target_height == 0 {
        Seq::empty()
    } else {
        grid_of(img, view)
    }
}

/// Everything `render` emits: the encoded frame, empty when the target grid
/// is degenerate.
pub open spec fn render_chars(img: HdimImage, view: View) -> Seq<char> {
    buffer_chars(frame_rows(img, view))
}

/// Rendering is deterministic: `render` pins its output to `render_chars`,
/// a function of the image and view alone, so any two outputs for the same
/// inputs are identical, character for character.
pub proof fn lemma_render_deterministic(img: HdimImage, view: View, a: Seq<char>, b: Seq<char>)
    requires
        a == render_chars(img, view),
        b == render_chars(img, view),
    ensures
        a == b,
{
}

/// A non-degenerate target grid is filled exactly: the frame holds
/// `target_height` rows of `target_width` cells each, whatever the image
/// and the source rectangle hold.
pub proof fn lemma_grid_shape(img: HdimImage, view: View)
    requires
        view.target_width > 0,
        view.target_height > 0,
    ensures
        frame_rows(img, view).len() == view.target_height,
        forall|y: int|
            0 <= y < view.target_height ==> #[trigger] frame_rows(img, view)[y].len()
                == view.target_width,
{
}

/// The same grid-shape guarantee at the wire level: a rendered frame holds
/// exactly one line break per grid row and exactly one half-block glyph per
/// grid cell.
pub proof fn lemma_render_line_and_glyph_counts(img: HdimImage, view: View)
    requires
        view.target_width > 0,
        view.target_height > 0,
    ensures
        crate::glyph::count_char(render_chars(img, view), '\n') == view.target_height,
        crate::glyph::count_char(render_chars(img, view), '\u{2584}') == view.target_height
            * view.target_width,
{
    crate::glyph::lemma_buffer_chars_counts(frame_rows(img, view));
    crate::glyph::lemma_cell_total_uniform(frame_rows(img, view), view.target_width as int);
}

/// Averages the block at `(sx, sy)`, where the coordinates may exceed the
/// `u32` range after offsetting; such a block lies wholly outside the image
/// and averages to black.
fn sample_average(image: &HdimImage, sx: u64, sy: u64, bw: u32, bh: u32) -> (c: Color)
    requires
        image.wf(),
    ensures
        c == average_spec(*image, sx as int, sy as int, bw as int, bh as int),
{
    let cx: u32 = if sx > u32::MAX as u64 {
        u32::MAX
    } else {
        sx as u32
    };
    let cy: u32 = if sy > u32::MAX as u64 {
        u32::MAX
    } else {
        sy as u32
    };
    proof {
        if sx > u32::MAX as u64 || sy > u32::MAX as u64 {
            lemma_average_outside_is_black(*image, sx as int, sy as int, bw as int, bh as int);
            lemma_average_outside_is_black(*image, cx as int, cy as int, bw as int, bh as int);
        }
    }
    get_average_rgb(image, cx, cy, bw, bh)
}

/// A product of two values at most `2^32 - 1` stays at most `(2^32 - 1)^2`.
proof fn lemma_mul_u32_tight(a: int, b: int)
    requires
        0 <= a <= 0xffff_ffff,
        0 <= b <= 0xffff_ffff,
    ensures
        0 <= a * b <= 0xffff_ffff * 0xffff_ffff,
{
    assert(0 <= a * b <= 0xffff_ffff * 0xffff_ffff) by (nonlinear_arith)
        requires
            0 <= a <= 0xffff_ffff,
            0 <= b <= 0xffff_ffff,
    ;
}

/// The rounded blocks-per-cell ratio never exceeds the source extent (for a
/// target extent of at least one), so it fits a `u32`.
proof fn lemma_round_ratio_bound(s: int, t: int)
    requires
        0 <= s,
        1 <= t,
    ensures
        (2 * s + t) / (2 * t) <= if s == 0 { 1int } else { s },
        (s + t) / (2 * t) <= if s == 0 { 1int } else { s },
        0 <= (2 * s + t) / (2 * t),
        0 <= (s + t) / (2 * t),
{
    assert((2 * s + t) / (2 * t) <= (if s == 0 { 1int } else { s }) && (s + t) / (2 * t) <= (if s
        == 0 {
        1int
    } else {
        s
    }) && 0 <= (2 * s + t) / (2 * t) && 0 <= (s + t) / (2 * t)) by (nonlinear_arith)
        requires
            0 <= s,
            1 <= t,
    ;
}

/// Renders the frame's grid of cell color pairs: exactly `target_height`
/// rows of exactly `target_width` cells, whatever the image and view sizes;
/// a degenerate target grid yields no rows at all.
pub fn render_cells(image: &HdimImage, view: &View) -> (cells: Vec<Vec<CellColors>>)
    requires
        image.wf(),
    ensures
        cells@.map_values(|row: Vec<CellColors>| row@) == frame_rows(*image, *view),
{
    let mut cells: Vec<Vec<CellColors>> = Vec::new();
    if view.target_width == 0 || view.target_height == 0 {
        proof {
            assert(cells@.map_values(|row: Vec<CellColors>| row@) =~= frame_rows(
                *image,
                *view,
            ));
        }
        return cells;
    }
    let sw: u64 = view.source_width as u64;
    let sh: u64 = view.source_height as u64;
    let tw: u64 = view.target_width as u64;
    let th: u64 = view.target_height as u64;
    proof {
        lemma_round_ratio_bound(sw as int, tw as int);
        lemma_round_ratio_bound(sh as int, th as int);
    }
    let bw_raw: u64 = (2 * sw + tw) / (2 * tw);
    let bw: u32 = if bw_raw < 1 {
        1
    } else {
        bw_raw as u32
    };
    let hh_raw: u64 = (sh + th) / (2 * th);
    let hh: u32 = if hh_raw < 1 {
        1
    } else {
        hh_raw as u32
    };
    assert(bw as int == block_width_of(*view));
    assert(hh as int == half_height_of(*view));
    let mut y: u32 = 0;
    while y < view.target_height
        invariant
            image.wf(),
            y <= view.target_height,
            view.target_width >= 1,
            view.target_height >= 1,
            sw == view.source_width,
            sh == view.source_height,
            tw == view.target_width,
            th == view.target_height,
            bw as int == block_width_of(*view),
            hh as int == half_height_of(*view),
            cells@.len() == y,
            forall|yy: int|
                0 <= yy < y ==> #[trigger] cells@[yy]@ == grid_of(*image, *view)[yy],
        decreases view.target_height - y,
    {
        let mut row: Vec<CellColors> = Vec::new();
        proof {
            lemma_mul_u32_tight(y as int, sh as int);
            assert((y as int) * (sh as int) / (th as int) <= (y as int) * (sh as int)) by (
            nonlinear_arith)
                requires
                    th >= 1,
                    0 <= (y as int) * (sh as int),
            ;
        }
        let sy_off: u64 = (y as u64) * sh / th;
        let sy: u64 = (view.source_y as u64) + sy_off;
        let mut x: u32 = 0;
        while x < view.target_width
            invariant
                image.wf(),
                x <= view.target_width,
                y < view.target_height,
                view.target_width >= 1,
                view.target_height >= 1,
                sw == view.source_width,
                sh == view.source_height,
                tw == view.target_width,
                th == view.target_height,
                bw as int == block_width_of(*view),
                hh as int == half_height_of(*view),
                sy as int == sample_y(*view, y as int),
                sy <= 0xffff_ffffu64 + 0xffff_ffff * 0xffff_ffff,
                row@.len() == x,
                forall|xx: int|
                    0 <= xx < x ==> #[trigger] row@[xx] == cell_at(*image, *view, xx, y as int),
            decreases view.target_width - x,
        {
            proof {
                lemma_mul_u32_tight(x as int, sw as int);
                assert((x as int) * (sw as int) / (tw as int) <= (x as int) * (sw as int)) by (
                nonlinear_arith)
                    requires
                        tw >= 1,
                        0 <= (x as int) * (sw as int),
                ;
            }
            let sx_off: u64 = (x as u64) * sw / tw;
            let sx: u64 = (view.source_x as u64) + sx_off;
            let top = sample_average(image, sx, sy, bw, hh);
            let bot = sample_average(image, sx, sy + hh as u64, bw, hh);
            row.push(CellColors { top, bot });
            x = x + 1;
        }
        proof {
            assert(row@ =~= grid_of(*image, *view)[y as int]);
        }
        cells.push(row);
        y = y + 1;
    }
    proof {
        assert(cells@.map_values(|row: Vec<CellColors>| row@) =~= grid_of(*image, *view));
    }
    cells
}

/// Renders a portion of the image to a text block of half-block glyph cells,
/// `view.target_height` lines of `view.target_width` styled cells each (none
/// for a degenerate target grid). The character formatting cannot fail, so
/// the result is always `Ok`.
pub fn render(image: &HdimImage, view: &View) -> (r: Result<String, RenderError>)
    requires
        image.wf(),
    ensures
        r is Ok,
        r->Ok_0@ == render_chars(*image, *view),
{
    let cells = render_cells(image, view);
    let out = crate::glyph::encode_buffer(&cells);
    proof {
        if view.target_width == 0 || view.target_height == 0 {
            assert(frame_rows(*image, *view) =~= Seq::<Seq<CellColors>>::empty());
            assert(buffer_chars(Seq::<Seq<CellColors>>::empty()) == Seq::<char>::empty());
        }
    }
    Ok(out)
}

} // verus!
