use vstd::prelude::*;
use crate::image_data::Size;
use crate::render::View;

verus! {

/// Smallest zoom the viewport accepts, in thousandths of a source pixel per
/// column. Stops runaway magnification: a hundredth of a pixel per column.
pub const MIN_ZOOM_MILLI: u32 = 10;

/// Pan-and-zoom state over one source image.
///
/// `zoom_milli` holds the zoom ratio in thousandths of a source pixel per
/// target column; a smaller value is more zoomed in. The position and the
/// zoom only move through `scroll`, `zoom` and `clamp_source_pos`, each of
/// which restores the bounds invariants before returning.
#[derive(Clone, Copy, Debug, PartialEq, Eq, Structural)]
pub struct Viewport {
    /// The top-left X coordinate of the viewport on the source image.
    pub source_x: u32,
    /// The top-left Y coordinate of the viewport on the source image.
    pub source_y: u32,
    /// Thousandths of a source pixel per target column.
    pub zoom_milli: u32,
    /// Width of the source image, in pixels.
    pub image_width: u32,
    /// Height of the source image, in pixels.
    pub image_height: u32,
}

/// Source pixels covered by `cols` columns at `z` thousandths of a pixel per
/// column, rounded to the nearest pixel.
pub open spec fn visible_width_spec(z: int, cols: int) -> int {
    (cols * z + 500) / 1000
}

/// Source pixel rows covered by `rows` character rows, each two pixel bands
/// tall, rounded to the nearest pixel.
pub open spec fn visible_height_spec(z: int, rows: int) -> int {
    (2 * rows * z + 500) / 1000
}

/// `a - b`, stopping at zero.
pub open spec fn sat_sub_spec(a: int, b: int) -> int {
    if b <= a {
        a - b
    } else {
        0
    }
}

/// `a + d` held inside the `u32` range.
pub open spec fn sat_signed_spec(a: int, d: int) -> int {
    if a + d < 0 {
        0
    } else if a + d > u32::MAX {
        u32::MAX as int
    } else {
        a + d
    }
}

/// The zoom after multiplying by `f` thousandths: truncated, held inside the
/// `u32` range, and floored at the configured minimum.
pub open spec fn zoom_apply(z: int, f: int) -> int {
    let raw = z * f / 1000;
    let sat = if raw > u32::MAX {
        u32::MAX as int
    } else {
        raw
    };
    if sat < MIN_ZOOM_MILLI {
        MIN_ZOOM_MILLI as int
    } else {
        sat
    }
}

/// The viewport after its position is clamped so the visible span (for the
/// given grid) ends at the image edge; a visible span wider than the image
/// pins the position to zero.
pub open spec fn clamp_spec(v: Viewport, grid: Size) -> Viewport {
    let vw = visible_width_spec(v.zoom_milli as int, grid.width as int);
    let vh = visible_height_spec(v.zoom_milli as int, grid.height as int);
    let mx = sat_sub_spec(v.image_width as int, vw);
    let my = sat_sub_spec(v.image_height as int, vh);
    (Viewport {
        source_x: if v.source_x <= mx {
            v.source_x
        } else {
            mx as u32
        },
        source_y: if v.source_y <= my {
            v.source_y
        } else {
            my as u32
        },
        ..v
    })
}

/// The viewport after a pan by `(dx, dy)`: the deltas applied with
/// saturation, then the position clamped.
pub open spec fn scrolled(v: Viewport, dx: int, dy: int, grid: Size) -> Viewport {
    clamp_spec(
        Viewport {
            source_x: sat_signed_spec(v.source_x as int, dx) as u32,
            source_y: sat_signed_spec(v.source_y as int, dy) as u32,
            ..v
        },
        grid,
    )
}

/// The viewport after a zoom by `f` thousandths: the zoom multiplied and
/// floored, then the position clamped.
pub open spec fn zoomed(v: Viewport, f: int, grid: Size) -> Viewport {
    clamp_spec(
        Viewport { zoom_milli: zoom_apply(v.zoom_milli as int, f) as u32, ..v },
        grid,
    )
}

impl Viewport {
    /// The zoom never falls under its configured floor.
    pub open spec fn wf(self) -> bool {
        self.zoom_milli >= MIN_ZOOM_MILLI
    }

    /// A fresh viewport at the image's top-left corner; an initial zoom under
    /// the floor is raised to it.
    pub fn new(image_width: u32, image_height: u32, initial_zoom_milli: u32) -> (v: Viewport)
        ensures
            v.source_x == 0,
            v.source_y == 0,
            v.image_width == image_width,
            v.image_height == image_height,
            v.zoom_milli == if initial_zoom_milli < MIN_ZOOM_MILLI {
                MIN_ZOOM_MILLI
            } else {
                initial_zoom_milli
            },
            v.wf(),
    {
        Viewport {
            source_x: 0,
            source_y: 0,
            zoom_milli: if initial_zoom_milli < MIN_ZOOM_MILLI {
                MIN_ZOOM_MILLI
            } else {
                initial_zoom_milli
            },
            image_width,
            image_height,
        }
    }

    /// Pulls the viewport position back so the visible span for `grid` stays
    /// inside the image wherever it can.
    pub fn clamp_source_pos(&mut self, grid: Size)
        ensures
            *final(self) == clamp_spec(*old(self), grid),
            final(self).wf() == old(self).wf(),
    {
        proof {
            lemma_mul_bound(grid.width as int, self.zoom_milli as int, 0xffff_ffff, 0xffff_ffff);
            lemma_mul_bound(
                2 * grid.height as int,
                self.zoom_milli as int,
                0x1_ffff_fffe,
                0xffff_ffff,
            );
        }
        let vw: u128 = ((grid.width as u128) * (self.zoom_milli as u128) + 500) / 1000;
        let vh: u128 = (2 * (grid.height as u128) * (self.zoom_milli as u128) + 500) / 1000;
        let mx: u32 = if vw <= self.image_width as u128 {
            self.image_width - vw as u32
        } else {
            0
        };
        let my: u32 = if vh <= self.image_height as u128 {
            self.image_height - vh as u32
        } else {
            0
        };
        if self.source_x > mx {
            self.source_x = mx;
        }
        if self.source_y > my {
            self.source_y = my;
        }
    }

    /// Moves the viewport by the signed pixel deltas, saturating at the
    /// image's zero edge, then restores the bounds invariants.
    pub fn scroll(&mut self, dx: i32, dy: i32, grid: Size)
        ensures
            *final(self) == scrolled(*old(self), dx as int, dy as int, grid),
            final(self).wf() == old(self).wf(),
    {
        self.source_x = add_signed_saturating(self.source_x, dx);
        self.source_y = add_signed_saturating(self.source_y, dy);
        self.clamp_source_pos(grid);
    }

    /// Multiplies the zoom by `factor_milli` thousandths (under one thousand
    /// zooms in, over it zooms out), holds it at or above the floor, then
    /// restores the bounds invariants.
    pub fn zoom(&mut self, factor_milli: u32, grid: Size)
        ensures
            *final(self) == zoomed(*old(self), factor_milli as int, grid),
            final(self).wf(),
    {
        proof {
            lemma_mul_bound(
                self.zoom_milli as int,
                factor_milli as int,
                0xffff_ffff,
                0xffff_ffff,
            );
        }
        let raw: u64 = (self.zoom_milli as u64) * (factor_milli as u64) / 1000;
        let sat: u32 = if raw > u32::MAX as u64 {
            u32::MAX
        } else {
            raw as u32
        };
        self.zoom_milli = if sat < MIN_ZOOM_MILLI {
            MIN_ZOOM_MILLI
        } else {
            sat
        };
        self.clamp_source_pos(grid);
    }

    /// The source rectangle and target grid for one frame: the clamped
    /// position with the visible span, each span held inside the `u32` range.
    pub fn view_rect(&self, grid: Size) -> (v: View)
        ensures
            v.source_x == self.source_x,
            v.source_y == self.source_y,
            v.source_width as int == if visible_width_spec(
                self.zoom_milli as int,
                grid.width as int,
            ) <= u32::MAX {
                visible_width_spec(self.zoom_milli as int, grid.width as int)
            } else {
                u32::MAX as int
            },
            v.source_height as int == if visible_height_spec(
                self.zoom_milli as int,
                grid.height as int,
            ) <= u32::MAX {
                visible_height_spec(self.zoom_milli as int, grid.height as int)
            } else {
                u32::MAX as int
            },
            v.target_width == grid.width,
            v.target_height == grid.height,
    {
        proof {
            lemma_mul_bound(grid.width as int, self.zoom_milli as int, 0xffff_ffff, 0xffff_ffff);
            lemma_mul_bound(
                2 * grid.height as int,
                self.zoom_milli as int,
                0x1_ffff_fffe,
                0xffff_ffff,
            );
        }
        let vw: u128 = ((grid.width as u128) * (self.zoom_milli as u128) + 500) / 1000;
        let vh: u128 = (2 * (grid.height as u128) * (self.zoom_milli as u128) + 500) / 1000;
        View {
            source_x: self.source_x,
            source_y: self.source_y,
            source_width: if vw <= u32::MAX as u128 {
                vw as u32
            } else {
                u32::MAX
            },
            source_height: if vh <= u32::MAX as u128 {
                vh as u32
            } else {
                u32::MAX
            },
            target_width: grid.width,
            target_height: grid.height,
        }
    }
}

/// Bounded factors give a bounded product.
proof fn lemma_mul_bound(a: int, b: int, am: int, bm: int)
    requires
        0 <= a <= am,
        0 <= b <= bm,
    ensures
        0 <= a * b <= am * bm,
{
    assert(0 <= a * b <= am * bm) by (nonlinear_arith)
        requires
            0 <= a <= am,
            0 <= b <= bm,
    ;
}

/// `a + d` on a `u32` with a signed delta, saturating at both ends.
fn add_signed_saturating(a: u32, d: i32) -> (r: u32)
    ensures
        r as int == sat_signed_spec(a as int, d as int),
{
    if d >= 0 {
        a.saturating_add(d as u32)
    } else if d == i32::MIN {
        a.saturating_sub(0x8000_0000u32)
    } else {
        a.saturating_sub((-d) as u32)
    }
}

/// After a clamp — and every pan or zoom ends in one — the visible span
/// starts and ends inside the image wherever it fits the image at all, for
/// both axes.
pub proof fn lemma_viewport_clamp(v: Viewport, grid: Size)
    ensures
        visible_width_spec(v.zoom_milli as int, grid.width as int) <= v.image_width as int
            ==> clamp_spec(v, grid).source_x + visible_width_spec(
            v.zoom_milli as int,
            grid.width as int,
        ) <= v.image_width as int,
        visible_height_spec(v.zoom_milli as int, grid.height as int) <= v.image_height as int
            ==> clamp_spec(v, grid).source_y + visible_height_spec(
            v.zoom_milli as int,
            grid.height as int,
        ) <= v.image_height as int,
        clamp_spec(v, grid).zoom_milli == v.zoom_milli,
{
}

/// Zooming in — a factor under one — never drags the zoom below its floor,
/// never raises it, and once the zoom sits at the floor it stays there, so
/// repeated zooming in converges at the floor instead of oscillating.
pub proof fn lemma_zoom_monotonic(z: int, f: int)
    requires
        MIN_ZOOM_MILLI <= z <= u32::MAX,
        0 <= f < 1000,
    ensures
        MIN_ZOOM_MILLI <= zoom_apply(z, f) <= z,
        z == MIN_ZOOM_MILLI ==> zoom_apply(z, f) == MIN_ZOOM_MILLI,
{
    assert(z * f / 1000 <= z) by (nonlinear_arith)
        requires
            0 <= z,
            0 <= f < 1000,
    ;
    assert(0 <= z * f / 1000) by (nonlinear_arith)
        requires
            0 <= z,
            0 <= f,
    ;
}

} // verus!
