//! The compositor's geometry: every pixel coordinate the frame loop computes
//! when it replays a grid's damage onto its back-buffer.
//!
//! The drawing backend does the copying; this module pins down the numbers —
//! how a window's pixel size becomes a column/row count and a centering
//! offset, where a cell lands on the back-buffer, how a damage rectangle is
//! clipped to the grid, which pixel bands a vertical scroll moves, and how
//! much of the frame's time budget is left for input.

use vstd::prelude::*;

verus! {

/// How a grid fits its window: the cell counts that fit, and the offset
/// that centers them when the window is not a whole number of cells.
#[derive(Clone, Copy, Debug, PartialEq, Eq, Structural)]
pub struct GridLayout {
    pub col_count: u32,
    pub row_count: u32,
    pub x_offset: u32,
    pub y_offset: u32,
}

/// Computes how many whole cells fit a window and the offsets that center
/// them: half of the left-over pixels on each side.
pub fn window_layout(pixel_w: u32, pixel_h: u32, font_w: u32, font_h: u32) -> (r: GridLayout)
    requires
        font_w > 0,
        font_h > 0,
    ensures
        r.col_count == pixel_w / font_w,
        r.row_count == pixel_h / font_h,
        r.x_offset == (pixel_w - (pixel_w / font_w) * font_w) / 2,
        r.y_offset == (pixel_h - (pixel_h / font_h) * font_h) / 2,
        r.col_count * font_w + 2 * r.x_offset <= pixel_w,
        r.row_count * font_h + 2 * r.y_offset <= pixel_h,
{
    let col_count = pixel_w / font_w;
    let row_count = pixel_h / font_h;
    proof {
        assert(col_count * font_w <= pixel_w && row_count * font_h <= pixel_h) by (nonlinear_arith)
            requires
                font_w > 0,
                font_h > 0,
                col_count == pixel_w / font_w,
                row_count == pixel_h / font_h,
        ;
    }
    let x_offset = (pixel_w - col_count * font_w) / 2;
    let y_offset = (pixel_h - row_count * font_h) / 2;
    GridLayout { col_count, row_count, x_offset, y_offset }
}

/// Where a cell's rectangle starts on its window: the centering offset plus
/// the cell's position in font-size steps.
pub fn cell_origin(x_offset: u32, y_offset: u32, row: usize, column: usize, font_w: u32, font_h: u32)
    -> (r: (i32, i32))
    requires
        0 < font_w <= i32::MAX,
        0 < font_h <= i32::MAX,
        x_offset + column * font_w <= i32::MAX,
        y_offset + row * font_h <= i32::MAX,
    ensures
        r.0 == x_offset + column * font_w,
        r.1 == y_offset + row * font_h,
{
    proof {
        assert(column <= column * font_w && row <= row * font_h) by (nonlinear_arith)
            requires
                font_w >= 1,
                font_h >= 1,
                row >= 0,
                column >= 0,
        ;
    }
    let x = (x_offset as i32) + (column as i32) * (font_w as i32);
    let y = (y_offset as i32) + (row as i32) * (font_h as i32);
    (x, y)
}

/// One edge of a damage rectangle clipped to the grid: the rectangle's own
/// end, or the grid's, whichever comes first.
pub fn clip_extent(start: usize, extent: usize, bound: usize) -> (r: usize)
    requires
        start + extent <= usize::MAX,
    ensures
        r == if start + extent > bound {
            bound as int
        } else {
            start + extent
        },
{
    let end = start + extent;
    if end > bound {
        bound
    } else {
        end
    }
}

/// Where a band of rows starts vertically on its window: the centering
/// offset plus the first row's position in font-size steps.
pub fn band_origin_y(y_offset: u32, row: usize, font_h: u32) -> (r: i32)
    requires
        0 < font_h <= i32::MAX,
        y_offset + row * font_h <= i32::MAX,
    ensures
        r == y_offset + row * font_h,
{
    proof {
        assert(row <= row * font_h) by (nonlinear_arith)
            requires
                font_h >= 1,
                row >= 0,
        ;
    }
    (y_offset as i32) + (row as i32) * (font_h as i32)
}

/// The height in pixels of a band of rows.
pub fn band_height(rows: usize, font_h: u32) -> (r: u32)
    requires
        rows * font_h <= u32::MAX,
    ensures
        r == rows * font_h,
{
    if font_h == 0 {
        proof {
            assert(rows * font_h == 0) by (nonlinear_arith)
                requires
                    font_h == 0,
            ;
        }
        0
    } else {
        proof {
            assert(rows <= rows * font_h) by (nonlinear_arith)
                requires
                    font_h >= 1,
                    rows >= 0,
            ;
        }
        (rows as u32) * font_h
    }
}

/// The region of the old back-buffer a surface resize preserves: the
/// overlap of the old and new pixel sizes.
pub fn backup_extent(old_w: u32, old_h: u32, new_w: u32, new_h: u32) -> (r: (u32, u32))
    ensures
        r.0 == if new_w < old_w {
            new_w
        } else {
            old_w
        },
        r.1 == if new_h < old_h {
            new_h
        } else {
            old_h
        },
{
    let w = if new_w < old_w {
        new_w
    } else {
        old_w
    };
    let h = if new_h < old_h {
        new_h
    } else {
        old_h
    };
    (w, h)
}

/// How much of one frame's time budget is left for polling input: the
/// frame's whole budget at the configured rate, minus what drawing took.
pub fn frame_time_left(max_fps: i64, elapsed_ms: i64) -> (r: i64)
    requires
        max_fps > 0,
        elapsed_ms >= 0,
    ensures
        r == 1000int / (max_fps as int) - elapsed_ms,
{
    1000i64 / max_fps - elapsed_ms
}

} // verus!
