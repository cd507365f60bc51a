//! The multi-grid store: every piece of state the redraw stream mutates.
//!
//! One value of [`NvimState`] holds the session's grids, the highlight
//! table, the cursor-owning grid, the command-line overlay, and the pending
//! status messages. Each redraw instruction is a method here, specified as a
//! pure transition on [`StateView`], the store's mathematical model: a map
//! from grid id to [`GridView`], a map from highlight id to attribute, and
//! the scalar fields beside them.

use vstd::prelude::*;
use vstd::string::StringExecFns;
use crate::grid::Damage;
use crate::grid::GridView;
use crate::grid::LineCell;
use crate::grid::NvimGrid;
use crate::grid::spec_clear;
use crate::grid::spec_line;
use crate::grid::spec_line_writes;
use crate::grid::spec_new_grid;
use crate::grid::spec_resize;
use crate::grid::spec_scroll;
use crate::grid::spec_scroll_ok;
use crate::highlight::HlUpdate;
use crate::highlight::NvimHighlightAttribute;
use crate::highlight::apply_hl_updates;
use crate::highlight::opt_color;
use crate::highlight::spec_apply_hl_updates;
use crate::highlight::spec_default_attr;
use crate::highlight::spec_opt_color;
use crate::table::assoc_find;
use crate::table::assoc_map;
use crate::table::has_key;
use crate::table::keys_unique;
use crate::table::lemma_assoc_map_dom;
use crate::table::lemma_assoc_map_index;
use crate::table::lemma_assoc_map_push;
use crate::table::lemma_assoc_map_remove;
use crate::table::lemma_assoc_map_update;

verus! {

/// The mathematical model of the whole store.
#[verifier::ext_equal]
pub struct StateView {
    pub grids: Map<u64, GridView>,
    pub hl_attrs: Map<u64, NvimHighlightAttribute>,
    pub cursor_grid: u64,
    pub cmdline_content: Seq<char>,
    pub cmdline_firstc: char,
    pub cmdline_pos: u64,
    pub cmdline_prompt: Seq<char>,
    pub cmdline_shown: bool,
    pub cursor_on: bool,
    pub messages: Seq<(u64, Seq<char>)>,
    pub message_time: u64,
    pub has_moved_since_last_message: bool,
}

/// The store. The editor's redraw stream is its only mutator.
pub struct NvimState {
    grids: Vec<(u64, NvimGrid)>,
    hl_attrs: Vec<(u64, NvimHighlightAttribute)>,
    cursor_grid: u64,
    cmdline_content: String,
    cmdline_firstc: char,
    cmdline_pos: u64,
    cmdline_prompt: String,
    cmdline_shown: bool,
    cursor_on: bool,
    message_attrs: Vec<u64>,
    message_contents: Vec<String>,
    message_time: u64,
    has_moved_since_last_message: bool,
}

/// The grid table with each grid replaced by its model.
pub(crate) open spec fn grids_map_seq(v: Seq<(u64, NvimGrid)>) -> Seq<(u64, GridView)> {
    v.map_values(|p: (u64, NvimGrid)| (p.0, p.1@))
}

impl View for NvimState {
    type V = StateView;

    closed spec fn view(&self) -> StateView {
        StateView {
            grids: assoc_map(grids_map_seq(self.grids@)),
            hl_attrs: assoc_map(self.hl_attrs@),
            cursor_grid: self.cursor_grid,
            cmdline_content: self.cmdline_content@,
            cmdline_firstc: self.cmdline_firstc,
            cmdline_pos: self.cmdline_pos,
            cmdline_prompt: self.cmdline_prompt@,
            cmdline_shown: self.cmdline_shown,
            cursor_on: self.cursor_on,
            messages: Seq::new(
                self.message_attrs@.len(),
                |i: int| (self.message_attrs@[i], self.message_contents@[i]@),
            ),
            message_time: self.message_time,
            has_moved_since_last_message: self.has_moved_since_last_message,
        }
    }
}

/// Basic facts connecting a grid table to its mapped model sequence.
proof fn lemma_grids_map_seq(v: Seq<(u64, NvimGrid)>)
    ensures
        grids_map_seq(v).len() == v.len(),
        forall|i: int| 0 <= i < v.len() ==> (#[trigger] grids_map_seq(v)[i]) == (v[i].0, v[i].1@),
        keys_unique(v) <==> keys_unique(grids_map_seq(v)),
        forall|k: u64| #[trigger] has_key(v, k) <==> has_key(grids_map_seq(v), k),
{
    let m = grids_map_seq(v);
    if keys_unique(v) {
        assert forall|i: int, j: int|
            0 <= i < j < m.len() implies (#[trigger] m[i]).0 != (#[trigger] m[j]).0 by {
            assert(v[i].0 != v[j].0);
        }
    }
    if keys_unique(m) {
        assert forall|i: int, j: int|
            0 <= i < j < v.len() implies (#[trigger] v[i]).0 != (#[trigger] v[j]).0 by {
            assert(m[i].0 != m[j].0);
        }
    }
    assert forall|k: u64| #[trigger] has_key(v, k) <==> has_key(m, k) by {
        if has_key(v, k) {
            let i = choose|i: int| 0 <= i < v.len() && (#[trigger] v[i]).0 == k;
            assert(m[i].0 == k);
            assert(has_key(m, k));
        }
        if has_key(m, k) {
            let i = choose|i: int| 0 <= i < m.len() && (#[trigger] m[i]).0 == k;
            assert(v[i].0 == k);
            assert(has_key(v, k));
        }
    }
}

impl NvimState {
    /// Everything the store's contracts assume of its representation: the
    /// grid and highlight tables carry pairwise-distinct ids, every grid is
    /// rectangular, the default highlight id is present, and the two
    /// message columns run in step.
    pub closed spec fn wf(self) -> bool {
        &&& keys_unique(self.grids@)
        &&& forall|i: int| 0 <= i < self.grids@.len() ==> ((#[trigger] self.grids@[i]).1)@.wf()
        &&& keys_unique(self.hl_attrs@)
        &&& has_key(self.hl_attrs@, 0)
        &&& self.message_attrs@.len() == self.message_contents@.len()
    }

    /// The model of a fresh store: no grids, the default highlight alone in
    /// the table, cursor on, nothing shown.
    pub open spec fn spec_new_state() -> StateView {
        StateView {
            grids: Map::empty(),
            hl_attrs: Map::empty().insert(0, spec_default_attr()),
            cursor_grid: 0,
            cmdline_content: Seq::empty(),
            cmdline_firstc: ' ',
            cmdline_pos: 0,
            cmdline_prompt: Seq::empty(),
            cmdline_shown: false,
            cursor_on: true,
            messages: Seq::empty(),
            message_time: 0,
            has_moved_since_last_message: false,
        }
    }

    pub fn new() -> (s: NvimState)
        ensures
            s@ == Self::spec_new_state(),
            s.wf(),
    {
        let mut hl_attrs: Vec<(u64, NvimHighlightAttribute)> = Vec::new();
        hl_attrs.push((0, NvimHighlightAttribute::new()));
        let s = NvimState {
            grids: Vec::new(),
            hl_attrs,
            cursor_grid: 0,
            cmdline_content: String::new(),
            cmdline_firstc: ' ',
            cmdline_pos: 0,
            cmdline_prompt: String::new(),
            cmdline_shown: false,
            cursor_on: true,
            message_attrs: Vec::new(),
            message_contents: Vec::new(),
            message_time: 0,
            has_moved_since_last_message: false,
        };
        proof {
            assert(s.hl_attrs@.drop_last() =~= Seq::<(u64, NvimHighlightAttribute)>::empty());
            assert(assoc_map(Seq::<(u64, NvimHighlightAttribute)>::empty()) =~= Map::<
                u64,
                NvimHighlightAttribute,
            >::empty());
            assert(grids_map_seq(s.grids@) =~= Seq::<(u64, GridView)>::empty());
            assert(s@.grids =~= Map::<u64, GridView>::empty());
            assert(s@.hl_attrs =~= Map::empty().insert(0, spec_default_attr()));
            assert(s@.messages =~= Seq::<(u64, Seq<char>)>::empty());
            assert(s@ =~= Self::spec_new_state());
            assert(s.hl_attrs@[0].0 == 0);
        }
        s
    }

    /// The model of a `resize` instruction: the named grid — created empty
    /// first if unseen — goes through [`spec_resize`].
    pub open spec fn spec_state_resize(s: StateView, id: u64, width: usize, height: usize) -> StateView {
        let base = if s.grids.dom().contains(id) {
            s.grids[id]
        } else {
            spec_new_grid(0, 0)
        };
        StateView { grids: s.grids.insert(id, spec_resize(base, width, height)), ..s }
    }

    /// Applies a `resize` instruction: create-if-absent, then resize rows
    /// and columns in place, damaging what grew.
    pub fn grid_resize(&mut self, id: u64, width: usize, height: usize)
        requires
            old(self).wf(),
        ensures
            final(self)@ == Self::spec_state_resize(old(self)@, id, width, height),
            final(self).wf(),
    {
        let ghost v0 = self.grids@;
        proof {
            lemma_grids_map_seq(v0);
            lemma_assoc_map_dom(grids_map_seq(v0));
        }
        match assoc_find(&self.grids, id) {
            Some(i) => {
                proof {
                    lemma_assoc_map_index(grids_map_seq(v0), i as int);
                }
                let e = &mut self.grids[i];
                let ghost gold = e.1@;
                e.1.resize(width, height);
                proof {
                    lemma_grids_map_seq(self.grids@);
                    assert(grids_map_seq(self.grids@) =~= grids_map_seq(v0).update(
                        i as int,
                        (id, spec_resize(gold, width, height)),
                    ));
                    lemma_assoc_map_update(
                        grids_map_seq(v0),
                        i as int,
                        spec_resize(gold, width, height),
                    );
                    assert(self@ =~= Self::spec_state_resize(old(self)@, id, width, height));
                }
            },
            None => {
                let mut g = NvimGrid::new(0, 0);
                g.resize(width, height);
                self.grids.push((id, g));
                proof {
                    lemma_grids_map_seq(self.grids@);
                    assert(grids_map_seq(self.grids@) =~= grids_map_seq(v0).push(
                        (id, spec_resize(spec_new_grid(0, 0), width, height)),
                    ));
                    lemma_assoc_map_push(
                        grids_map_seq(v0),
                        id,
                        spec_resize(spec_new_grid(0, 0), width, height),
                    );
                    assert(self@ =~= Self::spec_state_resize(old(self)@, id, width, height));
                    assert forall|j: int|
                        0 <= j < self.grids@.len() implies ((#[trigger] self.grids@[j]).1)@.wf() by {
                        if j < v0.len() {
                            assert(self.grids@[j] == v0[j]);
                        }
                    }
                }
            },
        }
    }

    /// The model of a `clear` instruction: every cell of the named grid
    /// blanked, no damage; a miss changes nothing.
    pub open spec fn spec_state_clear(s: StateView, id: u64) -> StateView {
        if s.grids.dom().contains(id) {
            StateView { grids: s.grids.insert(id, spec_clear(s.grids[id])), ..s }
        } else {
            s
        }
    }

    /// Applies a `clear` instruction.
    pub fn grid_clear(&mut self, id: u64)
        requires
            old(self).wf(),
        ensures
            final(self)@ == Self::spec_state_clear(old(self)@, id),
            final(self).wf(),
    {
        let ghost v0 = self.grids@;
        proof {
            lemma_grids_map_seq(v0);
            lemma_assoc_map_dom(grids_map_seq(v0));
        }
        if let Some(i) = assoc_find(&self.grids, id) {
            proof {
                lemma_assoc_map_index(grids_map_seq(v0), i as int);
            }
            let e = &mut self.grids[i];
            let ghost gold = e.1@;
            e.1.clear();
            proof {
                lemma_grids_map_seq(self.grids@);
                assert(grids_map_seq(self.grids@) =~= grids_map_seq(v0).update(
                    i as int,
                    (id, spec_clear(gold)),
                ));
                lemma_assoc_map_update(grids_map_seq(v0), i as int, spec_clear(gold));
                assert(self@ =~= Self::spec_state_clear(old(self)@, id));
            }
        }
    }

    /// The model of a `destroy` instruction: one destroy damage record is
    /// queued; the grid itself leaves the store only after the frame, via
    /// [`NvimState::remove_grid`].
    pub open spec fn spec_state_destroy(s: StateView, id: u64) -> StateView {
        let g = s.grids[id];
        StateView {
            grids: s.grids.insert(id, GridView { damages: g.damages.push(Damage::Destroy), ..g }),
            ..s
        }
    }

    /// Applies a `destroy` instruction.
    pub fn grid_destroy(&mut self, id: u64)
        requires
            old(self).wf(),
            old(self)@.grids.dom().contains(id),
        ensures
            final(self)@ == Self::spec_state_destroy(old(self)@, id),
            final(self).wf(),
    {
        let ghost v0 = self.grids@;
        proof {
            lemma_grids_map_seq(v0);
            lemma_assoc_map_dom(grids_map_seq(v0));
        }
        let i = match assoc_find(&self.grids, id) {
            Some(i) => i,
            None => {
                proof {
                    assert(false);
                }
                0
            },
        };
        proof {
            lemma_assoc_map_index(grids_map_seq(v0), i as int);
        }
        let e = &mut self.grids[i];
        let ghost gold = e.1@;
        e.1.push_damage(Damage::Destroy);
        proof {
            lemma_grids_map_seq(self.grids@);
            assert(grids_map_seq(self.grids@) =~= grids_map_seq(v0).update(
                i as int,
                (id, GridView { damages: gold.damages.push(Damage::Destroy), ..gold }),
            ));
            lemma_assoc_map_update(
                grids_map_seq(v0),
                i as int,
                GridView { damages: gold.damages.push(Damage::Destroy), ..gold },
            );
            assert(self@ =~= Self::spec_state_destroy(old(self)@, id));
        }
    }

    /// The model of a `cursor_goto` instruction: the named grid becomes the
    /// cursor owner, the cell under the old (clamped) cursor is damaged so
    /// the block cursor there is repainted, and the new position is stored
    /// unclamped.
    pub open spec fn spec_state_cursor_goto(s: StateView, id: u64, row: usize, column: usize) -> StateView {
        let g = s.grids[id];
        let old_pos = g.clamped_cursor();
        StateView {
            cursor_grid: id,
            grids: s.grids.insert(
                id,
                GridView {
                    cursor: (row, column),
                    damages: g.damages.push(
                        Damage::Cell {
                            row: old_pos.0 as usize,
                            column: old_pos.1 as usize,
                            width: 1,
                            height: 1,
                        },
                    ),
                    ..g
                },
            ),
            has_moved_since_last_message: true,
            ..s
        }
    }

    /// Applies a `cursor_goto` instruction.
    pub fn grid_cursor_goto(&mut self, id: u64, row: usize, column: usize)
        requires
            old(self).wf(),
            old(self)@.grids.dom().contains(id),
            old(self)@.grids[id].cursor_query_ok(),
        ensures
            final(self)@ == Self::spec_state_cursor_goto(old(self)@, id, row, column),
            final(self).wf(),
    {
        self.cursor_grid = id;
        let ghost v0 = self.grids@;
        proof {
            lemma_grids_map_seq(v0);
            lemma_assoc_map_dom(grids_map_seq(v0));
        }
        let i = match assoc_find(&self.grids, id) {
            Some(i) => i,
            None => {
                proof {
                    assert(false);
                }
                0
            },
        };
        proof {
            lemma_assoc_map_index(grids_map_seq(v0), i as int);
        }
        let e = &mut self.grids[i];
        let ghost gold = e.1@;
        let old_pos = e.1.get_cursor_pos();
        e.1.set_cursor_pos(row, column);
        e.1.push_damage(
            Damage::Cell { row: old_pos.0, column: old_pos.1, width: 1, height: 1 },
        );
        self.has_moved_since_last_message = true;
        proof {
            let gnew = GridView {
                cursor: (row, column),
                damages: gold.damages.push(
                    Damage::Cell {
                        row: gold.clamped_cursor().0 as usize,
                        column: gold.clamped_cursor().1 as usize,
                        width: 1,
                        height: 1,
                    },
                ),
                ..gold
            };
            lemma_grids_map_seq(self.grids@);
            assert(grids_map_seq(self.grids@) =~= grids_map_seq(v0).update(i as int, (id, gnew)));
            lemma_assoc_map_update(grids_map_seq(v0), i as int, gnew);
            assert(self@ =~= Self::spec_state_cursor_goto(old(self)@, id, row, column));
        }
    }

    /// The model of a `line` instruction on the named grid.
    pub open spec fn spec_state_line(
        s: StateView,
        id: u64,
        row: usize,
        col_start: usize,
        cells: Seq<LineCell>,
    ) -> StateView {
        StateView { grids: s.grids.insert(id, spec_line(s.grids[id], row, col_start, cells)), ..s }
    }

    /// What a `line` instruction needs not to fault: the grid exists, the
    /// row is in range, and the expanded cells fit inside the row.
    pub open spec fn spec_line_ok(
        s: StateView,
        id: u64,
        row: usize,
        col_start: usize,
        cells: Seq<LineCell>,
    ) -> bool {
        &&& s.grids.dom().contains(id)
        &&& (row as nat) < s.grids[id].height()
        &&& col_start + spec_line_writes(cells, 0).len() <= s.grids[id].width()
    }

    /// Applies a `line` instruction.
    pub fn grid_line(&mut self, id: u64, row: usize, col_start: usize, cells: &Vec<LineCell>)
        requires
            old(self).wf(),
            Self::spec_line_ok(old(self)@, id, row, col_start, cells@),
        ensures
            final(self)@ == Self::spec_state_line(old(self)@, id, row, col_start, cells@),
            final(self).wf(),
    {
        let ghost v0 = self.grids@;
        proof {
            lemma_grids_map_seq(v0);
            lemma_assoc_map_dom(grids_map_seq(v0));
        }
        let i = match assoc_find(&self.grids, id) {
            Some(i) => i,
            None => {
                proof {
                    assert(false);
                }
                0
            },
        };
        proof {
            lemma_assoc_map_index(grids_map_seq(v0), i as int);
        }
        let e = &mut self.grids[i];
        let ghost gold = e.1@;
        e.1.write_line(row, col_start, cells);
        proof {
            lemma_grids_map_seq(self.grids@);
            assert(grids_map_seq(self.grids@) =~= grids_map_seq(v0).update(
                i as int,
                (id, spec_line(gold, row, col_start, cells@)),
            ));
            lemma_assoc_map_update(
                grids_map_seq(v0),
                i as int,
                spec_line(gold, row, col_start, cells@),
            );
            assert(self@ =~= Self::spec_state_line(old(self)@, id, row, col_start, cells@));
        }
    }

    /// The model of a `scroll` instruction on the named grid.
    pub open spec fn spec_state_scroll(
        s: StateView,
        id: u64,
        top: usize,
        bot: usize,
        left: usize,
        right: usize,
        rows: i64,
    ) -> StateView {
        StateView {
            grids: s.grids.insert(id, spec_scroll(s.grids[id], top, bot, left, right, rows)),
            ..s
        }
    }

    /// What a `scroll` instruction needs not to fault.
    pub open spec fn spec_state_scroll_ok(
        s: StateView,
        id: u64,
        top: usize,
        bot: usize,
        left: usize,
        right: usize,
        rows: i64,
        cols: i64,
    ) -> bool {
        &&& s.grids.dom().contains(id)
        &&& spec_scroll_ok(s.grids[id], top, bot, left, right, rows, cols)
    }

    /// Applies a `scroll` instruction.
    pub fn grid_scroll(
        &mut self,
        id: u64,
        top: usize,
        bot: usize,
        left: usize,
        right: usize,
        rows: i64,
        cols: i64,
    )
        requires
            old(self).wf(),
            Self::spec_state_scroll_ok(old(self)@, id, top, bot, left, right, rows, cols),
        ensures
            final(self)@ == Self::spec_state_scroll(old(self)@, id, top, bot, left, right, rows),
            final(self).wf(),
    {
        let ghost v0 = self.grids@;
        proof {
            lemma_grids_map_seq(v0);
            lemma_assoc_map_dom(grids_map_seq(v0));
        }
        let i = match assoc_find(&self.grids, id) {
            Some(i) => i,
            None => {
                proof {
                    assert(false);
                }
                0
            },
        };
        proof {
            lemma_assoc_map_index(grids_map_seq(v0), i as int);
        }
        let e = &mut self.grids[i];
        let ghost gold = e.1@;
        e.1.scroll(top, bot, left, right, rows, cols);
        proof {
            lemma_grids_map_seq(self.grids@);
            assert(grids_map_seq(self.grids@) =~= grids_map_seq(v0).update(
                i as int,
                (id, spec_scroll(gold, top, bot, left, right, rows)),
            ));
            lemma_assoc_map_update(
                grids_map_seq(v0),
                i as int,
                spec_scroll(gold, top, bot, left, right, rows),
            );
            assert(self@ =~= Self::spec_state_scroll(old(self)@, id, top, bot, left, right, rows));
        }
    }
}

} // verus!

verus! {

/// A grid with one damage rectangle covering its full extent appended, as a
/// default-color change leaves every grid.
pub open spec fn spec_full_damage(g: GridView) -> GridView {
    GridView {
        damages: g.damages.push(
            Damage::Cell {
                row: 0,
                column: 0,
                width: g.width() as usize,
                height: g.height() as usize,
            },
        ),
        ..g
    }
}

/// The concatenation of the text chunks of a `cmdline_show` instruction.
pub open spec fn spec_concat_chunks(chunks: Seq<Seq<char>>) -> Seq<char>
    decreases chunks.len(),
{
    if chunks.len() == 0 {
        Seq::empty()
    } else {
        spec_concat_chunks(chunks.drop_last()) + chunks.last()
    }
}

impl NvimState {
    /// The model of a `default_colors_set` instruction: highlight id 0 takes
    /// the given colors, and — since every cell that inherits a default may
    /// now render differently — every grid's full extent is damaged once.
    pub open spec fn spec_state_default_colors(
        s: StateView,
        fg: Option<u64>,
        bg: Option<u64>,
        sp: Option<u64>,
    ) -> StateView {
        let base = if s.hl_attrs.dom().contains(0) {
            s.hl_attrs[0]
        } else {
            spec_default_attr()
        };
        StateView {
            hl_attrs: s.hl_attrs.insert(
                0,
                NvimHighlightAttribute {
                    foreground: spec_opt_color(fg),
                    background: spec_opt_color(bg),
                    special: spec_opt_color(sp),
                    ..base
                },
            ),
            grids: Map::new(
                |k: u64| s.grids.dom().contains(k),
                |k: u64| spec_full_damage(s.grids[k]),
            ),
            ..s
        }
    }

    /// Applies a `default_colors_set` instruction.
    pub fn default_colors_set(&mut self, rgb_fg: Option<u64>, rgb_bg: Option<u64>, rgb_sp: Option<u64>)
        requires
            old(self).wf(),
        ensures
            final(self)@ == Self::spec_state_default_colors(old(self)@, rgb_fg, rgb_bg, rgb_sp),
            final(self).wf(),
    {
        let ghost s0 = self@;
        let ghost h0 = self.hl_attrs@;
        proof {
            lemma_assoc_map_dom(h0);
        }
        let i = match assoc_find(&self.hl_attrs, 0) {
            Some(i) => i,
            None => {
                proof {
                    assert(false);
                }
                0
            },
        };
        proof {
            lemma_assoc_map_index(h0, i as int);
        }
        let base = self.hl_attrs[i].1;
        let newattr = NvimHighlightAttribute {
            foreground: opt_color(rgb_fg),
            background: opt_color(rgb_bg),
            special: opt_color(rgb_sp),
            ..base
        };
        self.hl_attrs[i] = (0, newattr);
        proof {
            assert(self.hl_attrs@ =~= h0.update(i as int, (h0[i as int].0, newattr)));
            lemma_assoc_map_update(h0, i as int, newattr);
            assert(self.hl_attrs@[i as int].0 == 0);
            assert(has_key(self.hl_attrs@, 0));
        }
        let ghost hl_after = self.hl_attrs@;
        let ghost hl_map_after = assoc_map(self.hl_attrs@);
        let ghost v0 = self.grids@;
        proof {
            lemma_grids_map_seq(v0);
        }
        let n = self.grids.len();
        let mut k: usize = 0;
        while k < n
            invariant
                k <= n,
                n == self.grids@.len(),
                n == v0.len(),
                keys_unique(v0),
                forall|j: int| 0 <= j < n ==> (#[trigger] self.grids@[j]).0 == v0[j].0,
                forall|j: int| 0 <= j < n ==> ((#[trigger] v0[j]).1)@.wf(),
                forall|j: int| 0 <= j < k ==> ((#[trigger] self.grids@[j]).1)@ == spec_full_damage(v0[j].1@),
                forall|j: int| k <= j < n ==> (#[trigger] self.grids@[j]).1 == v0[j].1,
                self.hl_attrs@ == hl_after,
                has_key(self.hl_attrs@, 0),
                keys_unique(self.hl_attrs@),
                assoc_map(self.hl_attrs@) == hl_map_after,
                self.cursor_grid == old(self).cursor_grid,
                self.cmdline_content@ == old(self).cmdline_content@,
                self.cmdline_firstc == old(self).cmdline_firstc,
                self.cmdline_pos == old(self).cmdline_pos,
                self.cmdline_prompt@ == old(self).cmdline_prompt@,
                self.cmdline_shown == old(self).cmdline_shown,
                self.cursor_on == old(self).cursor_on,
                self.message_attrs@ == old(self).message_attrs@,
                self.message_contents@ == old(self).message_contents@,
                self.message_time == old(self).message_time,
                self.has_moved_since_last_message == old(self).has_moved_since_last_message,
            decreases n - k,
        {
            let e = &mut self.grids[k];
            let w = e.1.get_width();
            let h = e.1.get_height();
            e.1.push_damage(Damage::Cell { row: 0, column: 0, width: w, height: h });
            k = k + 1;
        }
        proof {
            lemma_grids_map_seq(v0);
            lemma_grids_map_seq(self.grids@);
            assert forall|j: int, l: int|
                0 <= j < l < self.grids@.len() implies (#[trigger] self.grids@[j]).0 != (
            #[trigger] self.grids@[l]).0 by {
                assert(v0[j].0 != v0[l].0);
            }
            lemma_assoc_map_dom(grids_map_seq(v0));
            lemma_assoc_map_dom(grids_map_seq(self.grids@));
            let target = Map::new(
                |q: u64| s0.grids.dom().contains(q),
                |q: u64| spec_full_damage(s0.grids[q]),
            );
            assert forall|q: u64| #[trigger] self@.grids.dom().contains(q) implies target.dom().contains(q)
                && self@.grids[q] == target[q] by {
                assert(has_key(grids_map_seq(self.grids@), q));
                let j = choose|j: int|
                    0 <= j < grids_map_seq(self.grids@).len() && (#[trigger] grids_map_seq(
                        self.grids@,
                    )[j]).0 == q;
                assert(grids_map_seq(self.grids@)[j] == (self.grids@[j].0, self.grids@[j].1@));
                assert(self.grids@[j].0 == q);
                assert(grids_map_seq(v0)[j].0 == q);
                assert(has_key(grids_map_seq(v0), q));
                lemma_assoc_map_index(grids_map_seq(self.grids@), j);
                lemma_assoc_map_index(grids_map_seq(v0), j);
            }
            assert forall|q: u64| #[trigger] target.dom().contains(q) implies self@.grids.dom().contains(
                q,
            ) by {
                assert(has_key(grids_map_seq(v0), q));
                let j = choose|j: int|
                    0 <= j < grids_map_seq(v0).len() && (#[trigger] grids_map_seq(v0)[j]).0 == q;
                assert(v0[j].0 == q);
                assert(grids_map_seq(self.grids@)[j].0 == q);
                assert(has_key(grids_map_seq(self.grids@), q));
            }
            assert(self@.grids =~= target);
            assert(self@ =~= Self::spec_state_default_colors(s0, rgb_fg, rgb_bg, rgb_sp));
        }
    }

    /// The model of a `highlight_define` instruction: the keys present in
    /// the definition merge into the id's entry, created first if absent;
    /// unrecognized keys change nothing.
    pub open spec fn spec_state_hl_define(s: StateView, id: u64, updates: Seq<HlUpdate>) -> StateView {
        let base = if s.hl_attrs.dom().contains(id) {
            s.hl_attrs[id]
        } else {
            spec_default_attr()
        };
        StateView { hl_attrs: s.hl_attrs.insert(id, spec_apply_hl_updates(base, updates)), ..s }
    }

    /// Applies a `highlight_define` instruction.
    pub fn hl_attr_define(&mut self, id: u64, updates: &Vec<HlUpdate>)
        requires
            old(self).wf(),
        ensures
            final(self)@ == Self::spec_state_hl_define(old(self)@, id, updates@),
            final(self).wf(),
    {
        let ghost h0 = self.hl_attrs@;
        proof {
            lemma_assoc_map_dom(h0);
        }
        match assoc_find(&self.hl_attrs, id) {
            Some(i) => {
                proof {
                    lemma_assoc_map_index(h0, i as int);
                }
                let base = self.hl_attrs[i].1;
                let merged = apply_hl_updates(base, updates);
                self.hl_attrs[i] = (id, merged);
                proof {
                    assert(self.hl_attrs@ =~= h0.update(i as int, (h0[i as int].0, merged)));
                    lemma_assoc_map_update(h0, i as int, merged);
                    let z = choose|z: int| 0 <= z < h0.len() && (#[trigger] h0[z]).0 == 0;
                    assert(self.hl_attrs@[z].0 == 0);
                    assert(has_key(self.hl_attrs@, 0));
                    assert(self@ =~= Self::spec_state_hl_define(old(self)@, id, updates@));
                }
            },
            None => {
                let merged = apply_hl_updates(NvimHighlightAttribute::new(), updates);
                self.hl_attrs.push((id, merged));
                proof {
                    lemma_assoc_map_push(h0, id, merged);
                    let z = choose|z: int| 0 <= z < h0.len() && (#[trigger] h0[z]).0 == 0;
                    assert(self.hl_attrs@[z].0 == 0);
                    assert(has_key(self.hl_attrs@, 0));
                    assert(self@ =~= Self::spec_state_hl_define(old(self)@, id, updates@));
                }
            },
        }
    }

    /// The model of a `msg_show` instruction: the given chunks append to the
    /// pending messages, the message clock restarts, and the cursor is
    /// considered unmoved since.
    pub open spec fn spec_state_msg_show(
        s: StateView,
        content: Seq<(u64, Seq<char>)>,
        now_ms: u64,
    ) -> StateView {
        StateView {
            messages: s.messages + content,
            message_time: now_ms,
            has_moved_since_last_message: false,
            ..s
        }
    }

    /// Applies a `msg_show` instruction. `now_ms` is the shell's clock, in
    /// milliseconds; the kind and the replace flag are accepted and unused.
    pub fn msg_show(&mut self, kind: &str, content: &Vec<(u64, String)>, replace_last: bool, now_ms: u64)
        requires
            old(self).wf(),
        ensures
            final(self)@ == Self::spec_state_msg_show(
                old(self)@,
                content@.map_values(|p: (u64, String)| (p.0, p.1@)),
                now_ms,
            ),
            final(self).wf(),
    {
        let ghost s0 = self@;
        let ghost cview = content@.map_values(|p: (u64, String)| (p.0, p.1@));
        let n = content.len();
        let mut k: usize = 0;
        while k < n
            invariant
                k <= n,
                n == content@.len(),
                cview == content@.map_values(|p: (u64, String)| (p.0, p.1@)),
                self.message_attrs@.len() == self.message_contents@.len(),
                self.message_attrs@.len() == old(self).message_attrs@.len() + k,
                forall|i: int|
                    0 <= i < old(self).message_attrs@.len() ==> (#[trigger] self.message_attrs@[i])
                        == old(self).message_attrs@[i],
                forall|i: int|
                    0 <= i < old(self).message_contents@.len() ==> (
                    #[trigger] self.message_contents@[i]) == old(self).message_contents@[i],
                forall|i: int|
                    old(self).message_attrs@.len() <= i < self.message_attrs@.len() ==> (
                    #[trigger] self.message_attrs@[i]) == cview[i - old(
                        self,
                    ).message_attrs@.len()].0,
                forall|i: int|
                    old(self).message_contents@.len() <= i < self.message_contents@.len() ==> ((
                    #[trigger] self.message_contents@[i])@) == cview[i - old(
                        self,
                    ).message_contents@.len()].1,
                s0.messages.len() == old(self).message_attrs@.len(),
                self.grids@ == old(self).grids@,
                self.hl_attrs@ == old(self).hl_attrs@,
                self.cursor_grid == old(self).cursor_grid,
                self.cmdline_content@ == old(self).cmdline_content@,
                self.cmdline_firstc == old(self).cmdline_firstc,
                self.cmdline_pos == old(self).cmdline_pos,
                self.cmdline_prompt@ == old(self).cmdline_prompt@,
                self.cmdline_shown == old(self).cmdline_shown,
                self.cursor_on == old(self).cursor_on,
                self.message_time == old(self).message_time,
                self.has_moved_since_last_message == old(self).has_moved_since_last_message,
                old(self).wf(),
            decreases n - k,
        {
            let e = &content[k];
            self.message_attrs.push(e.0);
            let cloned = e.1.clone();
            proof {
                assert(cloned@ == content@[k as int].1@);
                assert(cview[k as int] == (content@[k as int].0, content@[k as int].1@));
            }
            self.message_contents.push(cloned);
            k = k + 1;
        }
        self.message_time = now_ms;
        self.has_moved_since_last_message = false;
        proof {
            assert(self@.messages =~= s0.messages + cview);
            assert(self@ =~= Self::spec_state_msg_show(s0, cview, now_ms));
        }
    }

    /// The model of a `msg_clear` instruction: no pending messages.
    pub open spec fn spec_state_msg_clear(s: StateView) -> StateView {
        StateView { messages: Seq::empty(), ..s }
    }

    /// Applies a `msg_clear` instruction.
    pub fn msg_clear(&mut self)
        requires
            old(self).wf(),
        ensures
            final(self)@ == Self::spec_state_msg_clear(old(self)@),
            final(self).wf(),
    {
        self.message_attrs.truncate(0);
        self.message_contents.truncate(0);
        proof {
            assert(self.message_attrs@ =~= Seq::<u64>::empty());
            assert(self.message_contents@ =~= Seq::<String>::empty());
            assert(self@.messages =~= Seq::<(u64, Seq<char>)>::empty());
            assert(self@ =~= Self::spec_state_msg_clear(old(self)@));
        }
    }

    /// Whether the pending messages are due to auto-clear: three seconds
    /// have passed since the last one was shown, and the cursor has moved
    /// since — a message the user has not reacted to stays.
    pub open spec fn spec_should_autoclear(s: StateView, now_ms: u64) -> bool {
        s.has_moved_since_last_message && now_ms - s.message_time > 3000
    }

    /// Clears the pending messages once they are due to auto-clear.
    pub fn autoclear_messages(&mut self, now_ms: u64)
        requires
            old(self).wf(),
            old(self)@.message_time <= now_ms,
        ensures
            final(self)@ == if Self::spec_should_autoclear(old(self)@, now_ms) {
                Self::spec_state_msg_clear(old(self)@)
            } else {
                old(self)@
            },
            final(self).wf(),
    {
        let since = now_ms - self.message_time;
        if self.has_moved_since_last_message && since > 3000 {
            self.msg_clear();
        }
    }

    /// The model of a `cmdline_show` instruction: the chunk texts join into
    /// the shown content, with the prompt character, position and prompt.
    pub open spec fn spec_state_cmdline_show(
        s: StateView,
        content: Seq<Seq<char>>,
        pos: u64,
        firstc: char,
        prompt: Seq<char>,
    ) -> StateView {
        StateView {
            cmdline_content: spec_concat_chunks(content),
            cmdline_firstc: firstc,
            cmdline_pos: pos,
            cmdline_prompt: prompt,
            cmdline_shown: true,
            ..s
        }
    }

    /// Applies a `cmdline_show` instruction. The shell hands the chunk texts
    /// and the prompt character it decoded from the wire.
    pub fn cmdline_show(
        &mut self,
        content: &Vec<String>,
        pos: u64,
        firstc: char,
        prompt: &str,
        indent: u64,
        level: u64,
    )
        requires
            old(self).wf(),
        ensures
            final(self)@ == Self::spec_state_cmdline_show(
                old(self)@,
                content@.map_values(|c: String| c@),
                pos,
                firstc,
                prompt@,
            ),
            final(self).wf(),
    {
        let ghost chunks = content@.map_values(|c: String| c@);
        let mut joined = String::new();
        let n = content.len();
        let mut k: usize = 0;
        while k < n
            invariant
                k <= n,
                n == content@.len(),
                chunks == content@.map_values(|c: String| c@),
                joined@ == spec_concat_chunks(chunks.take(k as int)),
            decreases n - k,
        {
            joined.append(content[k].as_str());
            proof {
                assert(chunks.take(k as int + 1).drop_last() =~= chunks.take(k as int));
                assert(chunks.take(k as int + 1).last() == chunks[k as int]);
            }
            k = k + 1;
        }
        proof {
            assert(chunks.take(n as int) =~= chunks);
        }
        self.cmdline_content = joined;
        self.cmdline_firstc = firstc;
        self.cmdline_pos = pos;
        self.cmdline_prompt = prompt.to_owned();
        self.cmdline_shown = true;
        proof {
            assert(self@ =~= Self::spec_state_cmdline_show(old(self)@, chunks, pos, firstc, prompt@));
        }
    }

    /// Applies a `cmdline_hide` instruction.
    pub fn cmdline_hide(&mut self)
        requires
            old(self).wf(),
        ensures
            final(self)@ == (StateView { cmdline_shown: false, ..old(self)@ }),
            final(self).wf(),
    {
        self.cmdline_shown = false;
        proof {
            assert(self@ =~= (StateView { cmdline_shown: false, ..old(self)@ }));
        }
    }

    /// Applies a `cmdline_pos` instruction; the level is accepted and unused.
    pub fn cmdline_pos(&mut self, pos: u64, level: u64)
        requires
            old(self).wf(),
        ensures
            final(self)@ == (StateView { cmdline_pos: pos, ..old(self)@ }),
            final(self).wf(),
    {
        self.cmdline_pos = pos;
        proof {
            assert(self@ =~= (StateView { cmdline_pos: pos, ..old(self)@ }));
        }
    }

    /// The model of a `win_pos` instruction: the named grid is associated
    /// with an editor window; the placement numbers are accepted and unused,
    /// since the tiling window manager owns placement here.
    pub open spec fn spec_state_win_pos(s: StateView, grid: u64, win: u64) -> StateView {
        let g = s.grids[grid];
        StateView { grids: s.grids.insert(grid, GridView { window_id: win, ..g }), ..s }
    }

    /// Applies a `win_pos` instruction.
    pub fn win_pos(
        &mut self,
        grid: u64,
        win: u64,
        start_row: usize,
        start_col: usize,
        width: usize,
        height: usize,
    )
        requires
            old(self).wf(),
            old(self)@.grids.dom().contains(grid),
        ensures
            final(self)@ == Self::spec_state_win_pos(old(self)@, grid, win),
            final(self).wf(),
    {
        let ghost v0 = self.grids@;
        proof {
            lemma_grids_map_seq(v0);
            lemma_assoc_map_dom(grids_map_seq(v0));
        }
        let i = match assoc_find(&self.grids, grid) {
            Some(i) => i,
            None => {
                proof {
                    assert(false);
                }
                0
            },
        };
        proof {
            lemma_assoc_map_index(grids_map_seq(v0), i as int);
        }
        let e = &mut self.grids[i];
        let ghost gold = e.1@;
        e.1.set_window_id(win);
        proof {
            lemma_grids_map_seq(self.grids@);
            assert(grids_map_seq(self.grids@) =~= grids_map_seq(v0).update(
                i as int,
                (grid, GridView { window_id: win, ..gold }),
            ));
            lemma_assoc_map_update(grids_map_seq(v0), i as int, GridView { window_id: win, ..gold });
            assert(self@ =~= Self::spec_state_win_pos(old(self)@, grid, win));
        }
    }

    /// Suspends the cursor: a `busy_start` instruction.
    pub fn busy_start(&mut self)
        requires
            old(self).wf(),
        ensures
            final(self)@ == (StateView { cursor_on: false, ..old(self)@ }),
            final(self).wf(),
    {
        self.cursor_on = false;
        proof {
            assert(self@ =~= (StateView { cursor_on: false, ..old(self)@ }));
        }
    }

    /// Makes the cursor visible again: a `busy_stop` instruction.
    pub fn busy_stop(&mut self)
        requires
            old(self).wf(),
        ensures
            final(self)@ == (StateView { cursor_on: true, ..old(self)@ }),
            final(self).wf(),
    {
        self.cursor_on = true;
        proof {
            assert(self@ =~= (StateView { cursor_on: true, ..old(self)@ }));
        }
    }

    /// Removes a destroyed grid from the store, after the frame that drained
    /// its damage.
    pub fn remove_grid(&mut self, id: u64)
        requires
            old(self).wf(),
        ensures
            final(self)@ == (StateView { grids: old(self)@.grids.remove(id), ..old(self)@ }),
            final(self).wf(),
    {
        let ghost v0 = self.grids@;
        proof {
            lemma_grids_map_seq(v0);
            lemma_assoc_map_dom(grids_map_seq(v0));
        }
        if let Some(i) = assoc_find(&self.grids, id) {
            let removed = self.grids.remove(i);
            proof {
                lemma_grids_map_seq(self.grids@);
                assert(grids_map_seq(self.grids@) =~= grids_map_seq(v0).remove(i as int));
                lemma_assoc_map_remove(grids_map_seq(v0), i as int);
                assert forall|j: int|
                    0 <= j < self.grids@.len() implies ((#[trigger] self.grids@[j]).1)@.wf() by {
                    if j < i {
                        assert(self.grids@[j] == v0[j]);
                    } else {
                        assert(self.grids@[j] == v0[j + 1]);
                    }
                }
                assert forall|p: int, q: int|
                    0 <= p < q < self.grids@.len() implies (#[trigger] self.grids@[p]).0 != (
                #[trigger] self.grids@[q]).0 by {
                    let p0 = if p < i { p } else { p + 1 };
                    let q0 = if q < i { q } else { q + 1 };
                    assert(self.grids@[p] == v0[p0] && self.grids@[q] == v0[q0]);
                }
                assert(self@ =~= (StateView { grids: old(self)@.grids.remove(id), ..old(self)@ }));
            }
        } else {
            proof {
                lemma_assoc_map_dom(grids_map_seq(v0));
                assert(!self@.grids.dom().contains(id));
                assert(self@.grids =~= self@.grids.remove(id));
                assert(self@ =~= (StateView { grids: old(self)@.grids.remove(id), ..old(self)@ }));
            }
        }
    }

    /// Hands out and empties the named grid's damage queue, as one frame's
    /// compositing pass does.
    pub fn take_damages(&mut self, id: u64) -> (r: Vec<Damage>)
        requires
            old(self).wf(),
            old(self)@.grids.dom().contains(id),
        ensures
            r@ == old(self)@.grids[id].damages,
            final(self)@ == (StateView {
                grids: old(self)@.grids.insert(
                    id,
                    GridView { damages: Seq::empty(), ..old(self)@.grids[id] },
                ),
                ..old(self)@
            }),
            final(self).wf(),
    {
        let ghost v0 = self.grids@;
        proof {
            lemma_grids_map_seq(v0);
            lemma_assoc_map_dom(grids_map_seq(v0));
        }
        let i = match assoc_find(&self.grids, id) {
            Some(i) => i,
            None => {
                proof {
                    assert(false);
                }
                0
            },
        };
        proof {
            lemma_assoc_map_index(grids_map_seq(v0), i as int);
        }
        let e = &mut self.grids[i];
        let ghost gold = e.1@;
        let r = e.1.take_damages();
        proof {
            lemma_grids_map_seq(self.grids@);
            assert(grids_map_seq(self.grids@) =~= grids_map_seq(v0).update(
                i as int,
                (id, GridView { damages: Seq::empty(), ..gold }),
            ));
            lemma_assoc_map_update(
                grids_map_seq(v0),
                i as int,
                GridView { damages: Seq::empty(), ..gold },
            );
            assert(self@ =~= (StateView {
                grids: old(self)@.grids.insert(
                    id,
                    GridView { damages: Seq::empty(), ..old(self)@.grids[id] },
                ),
                ..old(self)@
            }));
        }
        r
    }

    /// The named grid, for the compositor to read.
    pub fn get_grid(&self, id: u64) -> (r: Option<&NvimGrid>)
        requires
            self.wf(),
        ensures
            match r {
                Some(g) => self@.grids.dom().contains(id) && g@ == self@.grids[id] && g@.wf(),
                None => !self@.grids.dom().contains(id),
            },
    {
        proof {
            lemma_grids_map_seq(self.grids@);
            lemma_assoc_map_dom(grids_map_seq(self.grids@));
        }
        match assoc_find(&self.grids, id) {
            Some(i) => {
                proof {
                    lemma_assoc_map_index(grids_map_seq(self.grids@), i as int);
                }
                Some(&self.grids[i].1)
            },
            None => None,
        }
    }

    /// The ids of all grids in the store, each once.
    pub fn grid_ids(&self) -> (r: Vec<u64>)
        requires
            self.wf(),
        ensures
            forall|k: u64| r@.contains(k) <==> #[trigger] self@.grids.dom().contains(k),
            r@.no_duplicates(),
    {
        proof {
            lemma_grids_map_seq(self.grids@);
            lemma_assoc_map_dom(grids_map_seq(self.grids@));
        }
        let n = self.grids.len();
        let mut r: Vec<u64> = Vec::new();
        let mut i: usize = 0;
        while i < n
            invariant
                i <= n,
                n == self.grids@.len(),
                r@.len() == i,
                forall|j: int| 0 <= j < i ==> (#[trigger] r@[j]) == self.grids@[j].0,
            decreases n - i,
        {
            r.push(self.grids[i].0);
            i = i + 1;
        }
        proof {
            assert forall|k: u64| r@.contains(k) <==> #[trigger] self@.grids.dom().contains(k) by {
                if r@.contains(k) {
                    let j = choose|j: int| 0 <= j < r@.len() && (#[trigger] r@[j]) == k;
                    assert(grids_map_seq(self.grids@)[j].0 == k);
                    assert(has_key(grids_map_seq(self.grids@), k));
                }
                if self@.grids.dom().contains(k) {
                    let j = choose|j: int|
                        0 <= j < grids_map_seq(self.grids@).len() && (#[trigger] grids_map_seq(
                            self.grids@,
                        )[j]).0 == k;
                    assert(r@[j] == k);
                    assert(r@.contains(k));
                }
            }
            assert forall|p: int, q: int| 0 <= p < q < r@.len() implies r@[p] != r@[q] by {
                assert(self.grids@[p].0 != self.grids@[q].0);
            }
        }
        r
    }

    /// The named highlight attribute, for the compositor to read.
    pub fn get_hl_attr(&self, id: u64) -> (r: Option<&NvimHighlightAttribute>)
        requires
            self.wf(),
        ensures
            match r {
                Some(a) => self@.hl_attrs.dom().contains(id) && *a == self@.hl_attrs[id],
                None => !self@.hl_attrs.dom().contains(id),
            },
    {
        proof {
            lemma_assoc_map_dom(self.hl_attrs@);
        }
        match assoc_find(&self.hl_attrs, id) {
            Some(i) => {
                proof {
                    lemma_assoc_map_index(self.hl_attrs@, i as int);
                }
                Some(&self.hl_attrs[i].1)
            },
            None => None,
        }
    }

    /// The grid that currently owns the cursor.
    pub fn get_cursor_grid(&self) -> (r: u64)
        ensures
            r == self@.cursor_grid,
    {
        self.cursor_grid
    }

    /// Whether the cursor is in its visible phase (no busy-start pending).
    pub fn is_cursor_on(&self) -> (r: bool)
        ensures
            r == self@.cursor_on,
    {
        self.cursor_on
    }

    /// Whether the command-line overlay is shown.
    pub fn is_cmdline_shown(&self) -> (r: bool)
        ensures
            r == self@.cmdline_shown,
    {
        self.cmdline_shown
    }

    /// The shown command-line text.
    pub fn get_cmdline_content(&self) -> (r: &String)
        ensures
            r@ == self@.cmdline_content,
    {
        &self.cmdline_content
    }

    /// The command line's prompt character.
    pub fn get_cmdline_firstc(&self) -> (r: char)
        ensures
            r == self@.cmdline_firstc,
    {
        self.cmdline_firstc
    }

    /// The command line's cursor position.
    pub fn get_cmdline_pos(&self) -> (r: u64)
        ensures
            r == self@.cmdline_pos,
    {
        self.cmdline_pos
    }

    /// The command line's prompt text.
    pub fn get_cmdline_prompt(&self) -> (r: &String)
        ensures
            r@ == self@.cmdline_prompt,
    {
        &self.cmdline_prompt
    }

    /// The number of pending messages.
    pub fn message_count(&self) -> (r: usize)
        requires
            self.wf(),
        ensures
            r as nat == self@.messages.len(),
    {
        self.message_attrs.len()
    }

    /// One pending message's highlight id.
    pub fn message_attr_at(&self, i: usize) -> (r: u64)
        requires
            self.wf(),
            (i as nat) < self@.messages.len(),
        ensures
            r == self@.messages[i as int].0,
    {
        self.message_attrs[i]
    }

    /// One pending message's text.
    pub fn message_content_at(&self, i: usize) -> (r: &String)
        requires
            self.wf(),
            (i as nat) < self@.messages.len(),
        ensures
            r@ == self@.messages[i as int].1,
    {
        &self.message_contents[i]
    }

    /// When the last message was shown, on the shell's clock.
    pub fn get_message_time(&self) -> (r: u64)
        ensures
            r == self@.message_time,
    {
        self.message_time
    }

    /// Whether the cursor has moved since the last message was shown.
    pub fn has_moved_since_last_message(&self) -> (r: bool)
        ensures
            r == self@.has_moved_since_last_message,
    {
        self.has_moved_since_last_message
    }
}

} // verus!
