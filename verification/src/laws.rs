//! Laws of the store: properties that hold of every run, stated once and
//! proved from the transition models the methods are specified against.

use vstd::prelude::*;
use crate::grid::Damage;
use crate::grid::GridView;
use crate::grid::LineCell;
use crate::grid::spec_clear;
use crate::grid::spec_line;
use crate::grid::spec_line_writes;
use crate::grid::spec_resize;
use crate::grid::spec_resize_cols;
use crate::grid::spec_resize_rows;
use crate::state::NvimState;
use crate::state::StateView;
use crate::state::spec_full_damage;

verus! {

/// A resize leaves exactly the dimensions it was asked for, whatever the
/// grid held before — so after any run of resizes, the reported width and
/// height are the last requested — and the storage stays rectangular. (A
/// grid shrunk to zero rows has no row to give a width; it reports zero.)
pub proof fn lemma_resize_sets_dimensions(g: GridView, width: usize, height: usize)
    requires
        g.wf(),
    ensures
        spec_resize(g, width, height).wf(),
        spec_resize(g, width, height).height() == height,
        height > 0 ==> spec_resize(g, width, height).width() == width,
        height == 0 ==> spec_resize(g, width, height).width() == 0,
{
    let g1 = spec_resize_rows(g, width, height);
    let g2 = spec_resize_cols(g1, width);
    assert(g1.height() == height);
    if g1.width() != width as nat {
        assert(g2.height() == height);
        assert forall|i: int| 0 <= i < g2.chars.len() implies (#[trigger] g2.chars[i]).len()
            == width by {}
        assert forall|i: int| 0 <= i < g2.colors.len() implies (#[trigger] g2.colors[i]).len()
            == width by {}
    } else {
        if height > 0 {
            assert(g1.chars[0].len() == g1.width());
        }
        assert forall|i: int| 0 <= i < g1.chars.len() implies (#[trigger] g1.chars[i]).len()
            == g1.width() by {
            if g.height() > height as nat {
                assert(g1.chars[i] == g.chars[i]);
            } else {
                if i < g.height() {
                    assert(g1.chars[i] == g.chars[i]);
                }
            }
        }
        assert forall|i: int| 0 <= i < g1.colors.len() implies (#[trigger] g1.colors[i]).len()
            == g1.width() by {
            if g.height() > height as nat {
                assert(g1.colors[i] == g.colors[i]);
            } else {
                if i < g.height() {
                    assert(g1.colors[i] == g.colors[i]);
                }
            }
        }
    }
}

/// A `clear` followed by a `line` reproduces exactly the written cells:
/// inside the written span the row holds the expanded cells, character and
/// highlight both, and every cell outside the span — in the written row and
/// in every other — is still blank under the default highlight.
pub proof fn lemma_clear_then_line(g: GridView, row: usize, col_start: usize, cells: Seq<LineCell>)
    requires
        g.wf(),
        (row as nat) < g.height(),
        col_start + spec_line_writes(cells, 0).len() <= g.width(),
    ensures
        ({
            let g2 = spec_line(spec_clear(g), row, col_start, cells);
            let writes = spec_line_writes(cells, 0);
            &&& g2.height() == g.height()
            &&& g2.wf()
            &&& forall|j: int|
                col_start <= j < col_start + writes.len() ==> #[trigger] g2.chars[row as int][j]
                    == writes[j - col_start].0
            &&& forall|j: int|
                col_start <= j < col_start + writes.len() ==> #[trigger] g2.colors[row as int][j]
                    == writes[j - col_start].1
            &&& forall|j: int|
                0 <= j < g.width() && !(col_start <= j < col_start + writes.len())
                    ==> #[trigger] g2.chars[row as int][j] is None
            &&& forall|j: int|
                0 <= j < g.width() && !(col_start <= j < col_start + writes.len())
                    ==> #[trigger] g2.colors[row as int][j] == 0u64
            &&& forall|i: int, j: int|
                0 <= i < g.height() && i != row && 0 <= j < g.width()
                    ==> #[trigger] g2.chars[i][j] is None
            &&& forall|i: int, j: int|
                0 <= i < g.height() && i != row && 0 <= j < g.width()
                    ==> #[trigger] g2.colors[i][j] == 0u64
        }),
{
    let g1 = spec_clear(g);
    let g2 = spec_line(g1, row, col_start, cells);
    assert(g1.wf());
    assert(g1.width() == g.width());
    assert(g1.chars[row as int].len() == g.width());
    assert(g1.colors[row as int].len() == g.width());
    assert forall|i: int| 0 <= i < g2.chars.len() implies (#[trigger] g2.chars[i]).len()
        == g2.width() by {
        if i != row {
            assert(g2.chars[i] == g1.chars[i]);
        }
    }
    assert forall|i: int| 0 <= i < g2.colors.len() implies (#[trigger] g2.colors[i]).len()
        == g2.width() by {
        if i != row {
            assert(g2.colors[i] == g1.colors[i]);
        }
    }
}

/// A default-color change damages every existing grid's full extent exactly
/// once — one damage record per grid, whatever the grid count — and changes
/// no cell.
pub proof fn lemma_default_colors_damages_every_grid(
    s: StateView,
    fg: Option<u64>,
    bg: Option<u64>,
    sp: Option<u64>,
    k: u64,
)
    requires
        s.grids.dom().contains(k),
    ensures
        ({
            let s2 = NvimState::spec_state_default_colors(s, fg, bg, sp);
            &&& s2.grids.dom() =~= s.grids.dom()
            &&& s2.grids[k].damages == s.grids[k].damages.push(
                Damage::Cell {
                    row: 0,
                    column: 0,
                    width: s.grids[k].width() as usize,
                    height: s.grids[k].height() as usize,
                },
            )
            &&& s2.grids[k].damages.len() == s.grids[k].damages.len() + 1
            &&& s2.grids[k].chars == s.grids[k].chars
            &&& s2.grids[k].colors == s.grids[k].colors
            &&& s2.grids[k].cursor == s.grids[k].cursor
        }),
{
    let s2 = NvimState::spec_state_default_colors(s, fg, bg, sp);
    assert(s2.grids[k] == spec_full_damage(s.grids[k]));
}

/// A resize that grows a drained grid's height — its width already as asked
/// — leaves exactly one damage record, a rectangle covering the added rows
/// at full width. (One compositing pass then drains it back to none: see
/// [`NvimState::take_damages`].)
pub proof fn lemma_grow_resize_single_damage(g: GridView, width: usize, height: usize)
    requires
        g.wf(),
        g.damages.len() == 0,
        g.height() < height as nat,
        g.height() > 0 ==> g.width() == width as nat,
    ensures
        spec_resize(g, width, height).damages =~= seq![
            Damage::Cell {
                row: g.height() as usize,
                column: 0,
                width,
                height: (height - g.height()) as usize,
            },
        ],
{
    let g1 = spec_resize_rows(g, width, height);
    if g.height() > 0 {
        assert(g1.chars[0] == g.chars[0]);
        assert(g1.width() == g.width());
    } else {
        assert(g1.chars[0] == crate::grid::blank_row(width as nat));
        assert(g1.width() == width as nat);
    }
    assert(spec_resize_cols(g1, width).damages == g1.damages);
}

} // verus!
