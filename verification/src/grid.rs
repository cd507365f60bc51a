//! One character grid of the multi-grid store.
//!
//! A grid holds a rectangular array of optional characters (absent means the
//! cell is blank), a parallel array of highlight ids, a cursor, the id of the
//! editor window shown in it, and a queue of pending damage records. Every
//! mutation is specified as a pure transition on [`GridView`], the grid's
//! mathematical model.

use vstd::prelude::*;

verus! {

/// A region of a grid whose pixels are stale and must be recomputed before
/// the next frame is presented.
#[derive(Clone, Copy, Debug, PartialEq, Eq, Structural)]
pub enum Damage {
    /// A rectangle whose cells changed and must be re-rasterized.
    Cell { row: usize, column: usize, width: usize, height: usize },
    /// The owning grid is to be torn down after the current frame.
    Destroy,
    /// A band of rows whose pixels can be copied from already-rendered rows.
    VerticalScroll { to: usize, from: usize, height: usize },
}

/// The mathematical model of one grid.
#[verifier::ext_equal]
pub struct GridView {
    pub chars: Seq<Seq<Option<char>>>,
    pub colors: Seq<Seq<u64>>,
    pub cursor: (usize, usize),
    pub damages: Seq<Damage>,
    pub window_id: u64,
}

impl GridView {
    pub open spec fn height(self) -> nat {
        self.chars.len()
    }

    pub open spec fn width(self) -> nat {
        if self.chars.len() == 0 {
            0
        } else {
            self.chars[0].len()
        }
    }

    /// The character array and the highlight array always have identical,
    /// rectangular dimensions.
    pub open spec fn wf(self) -> bool {
        &&& self.colors.len() == self.chars.len()
        &&& forall|i: int|
            0 <= i < self.chars.len() ==> (#[trigger] self.chars[i]).len() == self.width()
        &&& forall|i: int|
            0 <= i < self.colors.len() ==> (#[trigger] self.colors[i]).len() == self.width()
    }

    /// The cursor as it is reported: clamped into the grid's current bounds,
    /// even when the stored pair is out of range after a shrink.
    pub open spec fn clamped_cursor(self) -> (int, int) {
        let h = self.height() as int;
        let w = self.width() as int;
        let r = self.cursor.0 as int;
        let c = self.cursor.1 as int;
        if r < h && c < w {
            (r, c)
        } else if r < h {
            (r, w - 1)
        } else if c < w {
            (h - 1, c)
        } else {
            ((if h > 0 { h - 1 } else { 0 }), (if w > 0 { w - 1 } else { 0 }))
        }
    }

    /// Reporting the cursor subtracts one from a zero width when the stored
    /// row is still in range; such a state is rejected rather than reported.
    pub open spec fn cursor_query_ok(self) -> bool {
        !(self.width() == 0 && (self.cursor.0 as nat) < self.height())
    }
}

/// A fresh row of `width` blank cells.
pub open spec fn blank_row(width: nat) -> Seq<Option<char>> {
    Seq::new(width, |j: int| None::<char>)
}

/// A fresh row of `width` default highlight ids.
pub open spec fn zero_row(width: nat) -> Seq<u64> {
    Seq::new(width, |j: int| 0u64)
}

/// A sequence cut to length `n`, or padded to it with the fill value.
pub open spec fn seq_resize<T>(s: Seq<T>, n: nat, fill: T) -> Seq<T> {
    if s.len() >= n {
        s.take(n as int)
    } else {
        s + Seq::new((n - s.len()) as nat, |i: int| fill)
    }
}

/// The model of a fresh grid: `height` rows of `width` blank cells under
/// the default highlight, cursor at the origin, no damage, no window.
pub open spec fn spec_new_grid(width: usize, height: usize) -> GridView {
    GridView {
        chars: Seq::new(height as nat, |i: int| blank_row(width as nat)),
        colors: Seq::new(height as nat, |i: int| zero_row(width as nat)),
        cursor: (0usize, 0usize),
        damages: Seq::empty(),
        window_id: 0,
    }
}

/// The row step of a resize: shrinking truncates without damage (the rows
/// cease to exist); growing appends blank rows at the new width and records
/// one damage rectangle covering them; an unchanged height does neither.
pub open spec fn spec_resize_rows(g: GridView, width: usize, height: usize) -> GridView {
    if g.height() > height as nat {
        GridView {
            chars: g.chars.take(height as int),
            colors: g.colors.take(height as int),
            ..g
        }
    } else {
        GridView {
            chars: g.chars + Seq::new((height - g.height()) as nat, |i: int| blank_row(width as nat)),
            colors: g.colors + Seq::new((height - g.height()) as nat, |i: int| zero_row(width as nat)),
            damages: if g.height() < height as nat {
                g.damages.push(
                    Damage::Cell {
                        row: g.height() as usize,
                        column: 0,
                        width,
                        height: (height - g.height()) as usize,
                    },
                )
            } else {
                g.damages
            },
            ..g
        }
    }
}

/// The column step of a resize: every row is cut or padded with blank
/// cells to the new width; growth records one damage rectangle covering the
/// added columns over the grid's full height.
pub open spec fn spec_resize_cols(g: GridView, width: usize) -> GridView {
    if g.width() != width as nat {
        GridView {
            chars: Seq::new(g.chars.len(), |i: int| seq_resize(g.chars[i], width as nat, None)),
            colors: Seq::new(g.colors.len(), |i: int| seq_resize(g.colors[i], width as nat, 0u64)),
            damages: if g.width() < width as nat {
                g.damages.push(
                    Damage::Cell {
                        row: 0,
                        column: g.width() as usize,
                        width: (width - g.width()) as usize,
                        height: g.height() as usize,
                    },
                )
            } else {
                g.damages
            },
            ..g
        }
    } else {
        g
    }
}

/// A whole resize: rows are adjusted first, then columns, each step
/// independently conditioned and damaged.
pub open spec fn spec_resize(g: GridView, width: usize, height: usize) -> GridView {
    spec_resize_cols(spec_resize_rows(g, width, height), width)
}

/// The model of `clear`: every cell blank under the default highlight, and
/// no damage recorded (the protocol owes a full refresh right after).
pub open spec fn spec_clear(g: GridView) -> GridView {
    GridView {
        chars: Seq::new(g.chars.len(), |i: int| blank_row(g.chars[i].len())),
        colors: Seq::new(g.colors.len(), |i: int| zero_row(g.colors[i].len())),
        ..g
    }
}

/// One character grid: cell contents, highlight ids, cursor, pending damage.
pub struct NvimGrid {
    chars: Vec<Vec<Option<char>>>,
    colors: Vec<Vec<u64>>,
    cursor: (usize, usize),
    damages: Vec<Damage>,
    window_id: u64,
}

impl View for NvimGrid {
    type V = GridView;

    closed spec fn view(&self) -> GridView {
        GridView {
            chars: self.chars@.map_values(|r: Vec<Option<char>>| r@),
            colors: self.colors@.map_values(|r: Vec<u64>| r@),
            cursor: self.cursor,
            damages: self.damages@,
            window_id: self.window_id,
        }
    }
}

/// Builds one row of `width` blank cells.
fn make_blank_row(width: usize) -> (r: Vec<Option<char>>)
    ensures
        r@ =~= blank_row(width as nat),
{
    let mut r: Vec<Option<char>> = Vec::new();
    while r.len() < width
        invariant
            r@.len() <= width,
            forall|j: int| 0 <= j < r@.len() ==> r@[j] is None,
        decreases width - r.len(),
    {
        r.push(None);
    }
    r
}

/// Builds one row of `width` default highlight ids.
fn make_zero_row(width: usize) -> (r: Vec<u64>)
    ensures
        r@ =~= zero_row(width as nat),
{
    let mut r: Vec<u64> = Vec::new();
    while r.len() < width
        invariant
            r@.len() <= width,
            forall|j: int| 0 <= j < r@.len() ==> r@[j] == 0u64,
        decreases width - r.len(),
    {
        r.push(0);
    }
    r
}

impl NvimGrid {
    pub fn new(width: usize, height: usize) -> (g: NvimGrid)
        ensures
            g@ == spec_new_grid(width, height),
            g@.wf(),
    {
        let mut chars: Vec<Vec<Option<char>>> = Vec::new();
        let mut colors: Vec<Vec<u64>> = Vec::new();
        while chars.len() < height
            invariant
                chars@.len() == colors@.len() <= height,
                forall|i: int|
                    0 <= i < chars@.len() ==> (#[trigger] chars@[i])@ =~= blank_row(width as nat),
                forall|i: int|
                    0 <= i < colors@.len() ==> (#[trigger] colors@[i])@ =~= zero_row(width as nat),
            decreases height - chars.len(),
        {
            chars.push(make_blank_row(width));
            colors.push(make_zero_row(width));
        }
        let g = NvimGrid { chars, colors, cursor: (0, 0), damages: Vec::new(), window_id: 0 };
        proof {
            assert(g@.chars =~= spec_new_grid(width, height).chars);
            assert(g@.colors =~= spec_new_grid(width, height).colors);
            assert(g@ =~= spec_new_grid(width, height));
        }
        g
    }

    /// The current number of rows.
    pub fn get_height(&self) -> (h: usize)
        requires
            self@.wf(),
        ensures
            h as nat == self@.height(),
    {
        assert(self.chars.len() == self.colors.len());
        self.chars.len()
    }

    /// The current number of columns; zero when the grid has no rows.
    pub fn get_width(&self) -> (w: usize)
        requires
            self@.wf(),
        ensures
            w as nat == self@.width(),
    {
        if self.chars.len() < 1 {
            0
        } else {
            proof {
                assert(self@.chars[0] == self.chars@[0]@);
            }
            self.chars[0].len()
        }
    }

    /// The cursor clamped into the grid's current bounds.
    pub fn get_cursor_pos(&self) -> (p: (usize, usize))
        requires
            self@.wf(),
            self@.cursor_query_ok(),
        ensures
            (p.0 as int, p.1 as int) == self@.clamped_cursor(),
    {
        let w = self.get_width();
        let h = self.get_height();
        match (self.cursor.0 < h, self.cursor.1 < w) {
            (true, true) => (self.cursor.0, self.cursor.1),
            (true, false) => (self.cursor.0, w - 1),
            (false, true) => (h - 1, self.cursor.1),
            _ => ((if h > 0 { h - 1 } else { 0 }), (if w > 0 { w - 1 } else { 0 })),
        }
    }

    /// Stores a cursor position as given, clamping only on later queries.
    pub fn set_cursor_pos(&mut self, row: usize, column: usize)
        ensures
            final(self)@ == (GridView { cursor: (row, column), ..old(self)@ }),
    {
        self.cursor.0 = row;
        self.cursor.1 = column;
    }

    /// The id of the editor window shown in this grid, zero until assigned.
    pub fn get_window_id(&self) -> (w: u64)
        ensures
            w == self@.window_id,
    {
        self.window_id
    }

    /// Associates this grid with an editor window.
    pub(crate) fn set_window_id(&mut self, win: u64)
        ensures
            final(self)@ == (GridView { window_id: win, ..old(self)@ }),
    {
        self.window_id = win;
    }

    /// Whether the clamped cursor can be reported; see
    /// [`GridView::cursor_query_ok`].
    pub(crate) fn can_report_cursor(&self) -> (r: bool)
        requires
            self@.wf(),
        ensures
            r == self@.cursor_query_ok(),
    {
        let w = self.get_width();
        let h = self.get_height();
        !(w == 0 && self.cursor.0 < h)
    }

    /// The cell's character, absent when the cell is blank.
    pub fn char_at(&self, row: usize, column: usize) -> (c: Option<char>)
        requires
            self@.wf(),
            (row as nat) < self@.height(),
            (column as nat) < self@.width(),
        ensures
            c == self@.chars[row as int][column as int],
    {
        proof {
            assert(self@.chars[row as int] == self.chars@[row as int]@);
        }
        self.chars[row][column]
    }

    /// The cell's highlight id.
    pub fn color_at(&self, row: usize, column: usize) -> (c: u64)
        requires
            self@.wf(),
            (row as nat) < self@.height(),
            (column as nat) < self@.width(),
        ensures
            c == self@.colors[row as int][column as int],
    {
        proof {
            assert(self@.colors[row as int] == self.colors@[row as int]@);
        }
        self.colors[row][column]
    }

    /// The number of pending damage records.
    pub fn damage_count(&self) -> (n: usize)
        ensures
            n as nat == self@.damages.len(),
    {
        self.damages.len()
    }

    /// One pending damage record, in protocol-arrival order.
    pub fn damage_at(&self, i: usize) -> (d: Damage)
        requires
            (i as nat) < self@.damages.len(),
        ensures
            d == self@.damages[i as int],
    {
        self.damages[i]
    }

    /// Appends one damage record.
    pub(crate) fn push_damage(&mut self, d: Damage)
        ensures
            final(self)@ == (GridView { damages: old(self)@.damages.push(d), ..old(self)@ }),
    {
        self.damages.push(d);
    }

    /// Hands the pending damage records out and empties the queue, as the
    /// compositor does once per frame after replaying them.
    pub(crate) fn take_damages(&mut self) -> (r: Vec<Damage>)
        ensures
            r@ == old(self)@.damages,
            final(self)@ == (GridView { damages: Seq::empty(), ..old(self)@ }),
    {
        let mut out: Vec<Damage> = Vec::new();
        let n = self.damages.len();
        let mut i: usize = 0;
        while i < n
            invariant
                i <= n,
                n == self.damages@.len(),
                out@ =~= self.damages@.subrange(0, i as int),
            decreases n - i,
        {
            out.push(self.damages[i]);
            i = i + 1;
        }
        proof {
            assert(out@ =~= self.damages@);
        }
        self.damages.clear();
        proof {
            assert(final(self)@ =~= (GridView { damages: Seq::empty(), ..old(self)@ }));
        }
        out
    }

    /// Resizes the grid in place: rows first, then columns, each step
    /// padding with blank cells and recording damage exactly when it grows.
    pub(crate) fn resize(&mut self, width: usize, height: usize)
        requires
            old(self)@.wf(),
        ensures
            final(self)@ == spec_resize(old(self)@, width, height),
            final(self)@.wf(),
    {
        let ghost g0 = self@;
        if self.chars.len() > height {
            self.chars.truncate(height);
            self.colors.truncate(height);
            proof {
                assert(self@.chars =~= spec_resize_rows(g0, width, height).chars);
                assert(self@.colors =~= spec_resize_rows(g0, width, height).colors);
                assert(self@ =~= spec_resize_rows(g0, width, height));
            }
        } else {
            let h0 = self.chars.len();
            if h0 < height {
                self.damages.push(
                    Damage::Cell { row: h0, column: 0, width, height: height - h0 },
                );
            }
            while self.chars.len() < height
                invariant
                    h0 <= self.chars@.len() <= height,
                    self.colors@.len() == self.chars@.len(),
                    forall|i: int|
                        0 <= i < h0 ==> (#[trigger] self.chars@[i])@ == g0.chars[i],
                    forall|i: int|
                        0 <= i < h0 ==> (#[trigger] self.colors@[i])@ == g0.colors[i],
                    forall|i: int|
                        h0 <= i < self.chars@.len() ==> (#[trigger] self.chars@[i])@ =~= blank_row(
                            width as nat,
                        ),
                    forall|i: int|
                        h0 <= i < self.colors@.len() ==> (#[trigger] self.colors@[i])@ =~= zero_row(
                            width as nat,
                        ),
                    self.cursor == g0.cursor,
                    self.window_id == g0.window_id,
                    self.damages@ == spec_resize_rows(g0, width, height).damages,
                    g0.height() == h0,
                    h0 <= height,
                decreases height - self.chars.len(),
            {
                self.chars.push(make_blank_row(width));
                self.colors.push(make_zero_row(width));
            }
            proof {
                assert(self@.chars =~= spec_resize_rows(g0, width, height).chars);
                assert(self@.colors =~= spec_resize_rows(g0, width, height).colors);
                assert(self@ =~= spec_resize_rows(g0, width, height));
            }
        }
        let ghost g1 = spec_resize_rows(g0, width, height);
        let w0 = self.get_width_current();
        if w0 != width {
            if w0 < width {
                self.damages.push(
                    Damage::Cell {
                        row: 0,
                        column: w0,
                        width: width - w0,
                        height: self.chars.len(),
                    },
                );
            }
            let n = self.chars.len();
            let mut row: usize = 0;
            while row < n
                invariant
                    row <= n,
                    n == self.chars@.len() == self.colors@.len(),
                    n == g1.chars.len() == g1.colors.len(),
                    forall|i: int|
                        row <= i < n ==> (#[trigger] self.chars@[i])@ == g1.chars[i],
                    forall|i: int|
                        row <= i < n ==> (#[trigger] self.colors@[i])@ == g1.colors[i],
                    forall|i: int|
                        0 <= i < row ==> (#[trigger] self.chars@[i])@ =~= seq_resize(
                            g1.chars[i],
                            width as nat,
                            None,
                        ),
                    forall|i: int|
                        0 <= i < row ==> (#[trigger] self.colors@[i])@ =~= seq_resize(
                            g1.colors[i],
                            width as nat,
                            0u64,
                        ),
                    self.cursor == g1.cursor,
                    self.window_id == g1.window_id,
                    self.damages@ == spec_resize_cols(g1, width).damages,
                    g1.width() == w0,
                    w0 != width,
                decreases n - row,
            {
                row_resize_chars(&mut self.chars, row, width);
                row_resize_colors(&mut self.colors, row, width);
                row = row + 1;
            }
            proof {
                assert(self@.chars =~= spec_resize_cols(g1, width).chars);
                assert(self@.colors =~= spec_resize_cols(g1, width).colors);
                assert(self@ =~= spec_resize_cols(g1, width));
            }
        }
        proof {
            assert(self@ =~= spec_resize(g0, width, height));
            let g2 = spec_resize(g0, width, height);
            assert forall|i: int| 0 <= i < g2.chars.len() implies (#[trigger] g2.chars[i]).len()
                == g2.width() && (#[trigger] g2.colors[i]).len() == g2.width() by {
                if g1.width() != width as nat {
                    assert(g2.chars[i] == seq_resize(g1.chars[i], width as nat, None));
                }
            }
        }
    }

    /// Blanks every cell and resets every highlight id, recording no damage.
    pub(crate) fn clear(&mut self)
        requires
            old(self)@.wf(),
        ensures
            final(self)@ == spec_clear(old(self)@),
            final(self)@.wf(),
    {
        let ghost g0 = self@;
        let h = self.get_height();
        let w = self.get_width();
        let mut row: usize = 0;
        while row < h
            invariant
                row <= h,
                h == self.chars@.len() == self.colors@.len(),
                g0.chars.len() == h,
                g0.wf(),
                w as nat == g0.width(),
                forall|i: int|
                    row <= i < h ==> (#[trigger] self.chars@[i])@ == g0.chars[i],
                forall|i: int|
                    row <= i < h ==> (#[trigger] self.colors@[i])@ == g0.colors[i],
                forall|i: int|
                    0 <= i < row ==> (#[trigger] self.chars@[i])@ =~= blank_row(g0.chars[i].len()),
                forall|i: int|
                    0 <= i < row ==> (#[trigger] self.colors@[i])@ =~= zero_row(g0.colors[i].len()),
                self.cursor == g0.cursor,
                self.window_id == g0.window_id,
                self.damages@ == g0.damages,
            decreases h - row,
        {
            let mut column: usize = 0;
            while column < w
                invariant
                    column <= w,
                    row < h,
                    h == self.chars@.len() == self.colors@.len(),
                    g0.chars.len() == h,
                    g0.wf(),
                    w as nat == g0.width(),
                    self.chars@[row as int]@.len() == w,
                    self.colors@[row as int]@.len() == w,
                    forall|j: int|
                        0 <= j < column ==> (#[trigger] self.chars@[row as int]@[j]) is None,
                    forall|j: int|
                        0 <= j < column ==> (#[trigger] self.colors@[row as int]@[j]) == 0u64,
                    forall|i: int|
                        row < i < h ==> (#[trigger] self.chars@[i])@ == g0.chars[i],
                    forall|i: int|
                        row < i < h ==> (#[trigger] self.colors@[i])@ == g0.colors[i],
                    forall|i: int|
                        0 <= i < row ==> (#[trigger] self.chars@[i])@ =~= blank_row(
                            g0.chars[i].len(),
                        ),
                    forall|i: int|
                        0 <= i < row ==> (#[trigger] self.colors@[i])@ =~= zero_row(
                            g0.colors[i].len(),
                        ),
                    self.cursor == g0.cursor,
                    self.window_id == g0.window_id,
                    self.damages@ == g0.damages,
                decreases w - column,
            {
                let crow = &mut self.chars[row];
                crow[column] = None;
                let lrow = &mut self.colors[row];
                lrow[column] = 0;
                column = column + 1;
            }
            proof {
                assert(self.chars@[row as int]@ =~= blank_row(g0.chars[row as int].len()));
                assert(self.colors@[row as int]@ =~= zero_row(g0.colors[row as int].len()));
            }
            row = row + 1;
        }
        proof {
            assert(self@.chars =~= spec_clear(g0).chars);
            assert(self@.colors =~= spec_clear(g0).colors);
            assert(self@ =~= spec_clear(g0));
        }
    }

    /// The width as stored right now, without assuming rectangularity; used
    /// mid-resize, between the row step and the column step.
    fn get_width_current(&self) -> (w: usize)
        ensures
            w as nat == self@.width(),
    {
        if self.chars.len() < 1 {
            0
        } else {
            self.chars[0].len()
        }
    }
}

/// Cuts or pads one character row to `width`, filling with blank cells.
fn row_resize_chars(rows: &mut Vec<Vec<Option<char>>>, row: usize, width: usize)
    requires
        (row as nat) < old(rows)@.len(),
    ensures
        final(rows)@.len() == old(rows)@.len(),
        final(rows)@[row as int]@ =~= seq_resize(old(rows)@[row as int]@, width as nat, None),
        forall|i: int|
            0 <= i < old(rows)@.len() && i != row ==> final(rows)@[i] == old(rows)@[i],
{
    let r = &mut rows[row];
    if r.len() >= width {
        r.truncate(width);
    } else {
        let ghost base = r@;
        while r.len() < width
            invariant
                base.len() < width,
                base.len() <= r@.len() <= width,
                r@.subrange(0, base.len() as int) == base,
                forall|j: int| base.len() <= j < r@.len() ==> r@[j] is None,
            decreases width - r.len(),
        {
            r.push(None);
        }
    }
}

/// Cuts or pads one highlight row to `width`, filling with the default id.
fn row_resize_colors(rows: &mut Vec<Vec<u64>>, row: usize, width: usize)
    requires
        (row as nat) < old(rows)@.len(),
    ensures
        final(rows)@.len() == old(rows)@.len(),
        final(rows)@[row as int]@ =~= seq_resize(old(rows)@[row as int]@, width as nat, 0u64),
        forall|i: int|
            0 <= i < old(rows)@.len() && i != row ==> final(rows)@[i] == old(rows)@[i],
{
    let r = &mut rows[row];
    if r.len() >= width {
        r.truncate(width);
    } else {
        let ghost base = r@;
        while r.len() < width
            invariant
                base.len() < width,
                base.len() <= r@.len() <= width,
                r@.subrange(0, base.len() as int) == base,
                forall|j: int| base.len() <= j < r@.len() ==> r@[j] == 0u64,
            decreases width - r.len(),
        {
            r.push(0);
        }
    }
}

} // verus!


verus! {

/// One cell of a `line` instruction: a character (absent cells clear), an
/// optional highlight id that carries forward to later cells when omitted,
/// and an optional repeat count that defaults to one.
#[derive(Clone, Copy, Debug, PartialEq, Eq, Structural)]
pub struct LineCell {
    pub text: Option<char>,
    pub hl: Option<u64>,
    pub repeat: Option<usize>,
}

/// The number of copies a cell writes.
pub open spec fn cell_repeat(c: LineCell) -> nat {
    match c.repeat {
        Some(r) => r as nat,
        None => 1,
    }
}

/// The highlight a cell writes under, given the id carried from its left.
pub open spec fn cell_color(c: LineCell, carry: u64) -> u64 {
    match c.hl {
        Some(h) => h,
        None => carry,
    }
}

/// The flattened writes of a `line` instruction: each cell expanded to its
/// repeat count, under the sticky highlight carried from cell to cell.
pub open spec fn spec_line_writes(cells: Seq<LineCell>, carry: u64) -> Seq<(Option<char>, u64)>
    decreases cells.len(),
{
    if cells.len() == 0 {
        Seq::empty()
    } else {
        let c = cells[0];
        Seq::new(cell_repeat(c), |i: int| (c.text, cell_color(c, carry)))
            + spec_line_writes(cells.drop_first(), cell_color(c, carry))
    }
}

/// The highlight id carried out of a run of cells.
pub open spec fn spec_line_carry(cells: Seq<LineCell>, carry: u64) -> u64
    decreases cells.len(),
{
    if cells.len() == 0 {
        carry
    } else {
        spec_line_carry(cells.drop_first(), cell_color(cells[0], carry))
    }
}

/// Splitting a run of cells splits its writes, with the carry threaded
/// through the split point.
pub proof fn lemma_line_writes_split(cells: Seq<LineCell>, carry: u64, k: int)
    requires
        0 <= k <= cells.len(),
    ensures
        spec_line_writes(cells, carry) == spec_line_writes(cells.take(k), carry)
            + spec_line_writes(cells.skip(k), spec_line_carry(cells.take(k), carry)),
        spec_line_carry(cells, carry) == spec_line_carry(
            cells.skip(k),
            spec_line_carry(cells.take(k), carry),
        ),
    decreases k,
{
    if k == 0 {
        assert(cells.take(0) =~= Seq::<LineCell>::empty());
        assert(cells.skip(0) =~= cells);
        assert(spec_line_writes(cells.take(0), carry) =~= Seq::<(Option<char>, u64)>::empty());
        assert(spec_line_writes(cells, carry) =~= spec_line_writes(cells.take(0), carry)
            + spec_line_writes(cells.skip(0), spec_line_carry(cells.take(0), carry)));
    } else {
        let c0 = cells[0];
        let col = cell_color(c0, carry);
        let rest = cells.drop_first();
        lemma_line_writes_split(rest, col, k - 1);
        assert(cells.take(k).drop_first() =~= rest.take(k - 1));
        assert(cells.skip(k) =~= rest.skip(k - 1));
        assert(cells.take(k)[0] == c0);
        assert(spec_line_carry(cells.take(k), carry) == spec_line_carry(rest.take(k - 1), col));
        let block = Seq::new(cell_repeat(c0), |i: int| (c0.text, col));
        assert(spec_line_writes(cells, carry) == block + spec_line_writes(rest, col));
        assert(spec_line_writes(cells.take(k), carry) == block
            + spec_line_writes(rest.take(k - 1), col));
        assert(block + (spec_line_writes(rest.take(k - 1), col) + spec_line_writes(
            rest.skip(k - 1),
            spec_line_carry(rest.take(k - 1), col),
        )) =~= (block + spec_line_writes(rest.take(k - 1), col)) + spec_line_writes(
            rest.skip(k - 1),
            spec_line_carry(rest.take(k - 1), col),
        ));
    }
}

/// One step of the split: the writes of a prefix one cell longer are the
/// writes of the prefix followed by that cell's expansion.
pub proof fn lemma_line_writes_step(cells: Seq<LineCell>, k: int)
    requires
        0 <= k < cells.len(),
    ensures
        spec_line_writes(cells.take(k + 1), 0) == spec_line_writes(cells.take(k), 0) + Seq::new(
            cell_repeat(cells[k]),
            |i: int| (cells[k].text, cell_color(cells[k], spec_line_carry(cells.take(k), 0))),
        ),
        spec_line_carry(cells.take(k + 1), 0) == cell_color(
            cells[k],
            spec_line_carry(cells.take(k), 0),
        ),
{
    let p = cells.take(k + 1);
    lemma_line_writes_split(p, 0, k);
    assert(p.take(k) =~= cells.take(k));
    assert(p.skip(k) =~= seq![cells[k]]);
    let ck = spec_line_carry(cells.take(k), 0);
    let single = seq![cells[k]];
    assert(single.len() == 1);
    assert(single[0] == cells[k]);
    assert(single.drop_first() =~= Seq::<LineCell>::empty());
    assert(spec_line_writes(single.drop_first(), cell_color(cells[k], ck))
        == Seq::<(Option<char>, u64)>::empty());
    assert(spec_line_writes(single, ck) =~= Seq::new(
        cell_repeat(cells[k]),
        |i: int| (cells[k].text, cell_color(cells[k], ck)),
    ));
    assert(spec_line_carry(Seq::<LineCell>::empty(), cell_color(cells[k], ck)) == cell_color(
        cells[k],
        ck,
    ));
    assert(spec_line_carry(single, ck) == cell_color(cells[k], ck));
}

/// The model of a `line` instruction: the expanded writes land in one row
/// starting at `col_start`, and one damage rectangle covers the span.
pub open spec fn spec_line(g: GridView, row: usize, col_start: usize, cells: Seq<LineCell>) -> GridView {
    let writes = spec_line_writes(cells, 0);
    GridView {
        chars: g.chars.update(
            row as int,
            Seq::new(
                g.chars[row as int].len(),
                |j: int|
                    if col_start <= j < col_start + writes.len() {
                        writes[j - col_start].0
                    } else {
                        g.chars[row as int][j]
                    },
            ),
        ),
        colors: g.colors.update(
            row as int,
            Seq::new(
                g.colors[row as int].len(),
                |j: int|
                    if col_start <= j < col_start + writes.len() {
                        writes[j - col_start].1
                    } else {
                        g.colors[row as int][j]
                    },
            ),
        ),
        damages: g.damages.push(
            Damage::Cell { row, column: col_start, width: writes.len() as usize, height: 1 },
        ),
        ..g
    }
}

impl NvimGrid {
    /// Writes one `line` instruction's cells into a row: each cell repeats
    /// its character, the highlight id carries forward across cells that
    /// omit one, and one damage rectangle covers the whole span.
    pub(crate) fn write_line(&mut self, row: usize, col_start: usize, cells: &Vec<LineCell>)
        requires
            old(self)@.wf(),
            (row as nat) < old(self)@.height(),
            col_start + spec_line_writes(cells@, 0).len() <= old(self)@.width(),
        ensures
            final(self)@ == spec_line(old(self)@, row, col_start, cells@),
            final(self)@.wf(),
    {
        let ghost g0 = self@;
        let ghost writes_all = spec_line_writes(cells@, 0);
        let width_now = self.get_width();
        proof {
            assert(g0.width() <= usize::MAX);
        }
        let n = cells.len();
        let mut prev_column: usize = col_start;
        let mut prev_color: u64 = 0;
        let mut damage_length: usize = 0;
        let mut k: usize = 0;
        proof {
            assert(cells@.take(0) =~= Seq::<LineCell>::empty());
        }
        while k < n
            invariant
                k <= n,
                n == cells@.len(),
                g0.wf(),
                (row as nat) < g0.height(),
                col_start + writes_all.len() <= g0.width(),
                g0.width() <= usize::MAX,
                writes_all == spec_line_writes(cells@, 0),
                prev_color == spec_line_carry(cells@.take(k as int), 0),
                prev_column == col_start + spec_line_writes(cells@.take(k as int), 0).len(),
                damage_length == prev_column - col_start,
                self.chars@.len() == g0.chars.len(),
                self.colors@.len() == g0.colors.len(),
                forall|i: int|
                    0 <= i < g0.chars.len() && i != row ==> (#[trigger] self.chars@[i])@
                        == g0.chars[i],
                forall|i: int|
                    0 <= i < g0.colors.len() && i != row ==> (#[trigger] self.colors@[i])@
                        == g0.colors[i],
                self.chars@[row as int]@.len() == g0.chars[row as int].len(),
                self.colors@[row as int]@.len() == g0.colors[row as int].len(),
                forall|j: int|
                    0 <= j < g0.chars[row as int].len() ==> (#[trigger] self.chars@[row as int]@[j])
                        == (if col_start <= j < prev_column {
                            spec_line_writes(cells@.take(k as int), 0)[j - col_start].0
                        } else {
                            g0.chars[row as int][j]
                        }),
                forall|j: int|
                    0 <= j < g0.colors[row as int].len() ==> (#[trigger] self.colors@[row as int]@[j])
                        == (if col_start <= j < prev_column {
                            spec_line_writes(cells@.take(k as int), 0)[j - col_start].1
                        } else {
                            g0.colors[row as int][j]
                        }),
                self.cursor == g0.cursor,
                self.window_id == g0.window_id,
                self.damages@ == g0.damages,
            decreases n - k,
        {
            proof {
                lemma_line_writes_split(cells@, 0, k as int);
                lemma_line_writes_step(cells@, k as int);
            }
            let c = cells[k];
            if let Some(h) = c.hl {
                prev_color = h;
            }
            let repeat: usize = match c.repeat {
                Some(r) => r,
                None => 1,
            };
            let ghost wk = spec_line_writes(cells@.take(k as int), 0);
            let ghost wk1 = spec_line_writes(cells@.take(k as int + 1), 0);
            proof {
                assert(wk1.len() == wk.len() + cell_repeat(cells@[k as int]));
                lemma_line_writes_split(cells@, 0, k as int + 1);
                assert(wk1.len() <= writes_all.len());
            }
            let mut t: usize = 0;
            while t < repeat
                invariant
                    t <= repeat,
                    k < n,
                    n == cells@.len(),
                    g0.wf(),
                    (row as nat) < g0.height(),
                    col_start + writes_all.len() <= g0.width(),
                    g0.width() <= usize::MAX,
                    writes_all == spec_line_writes(cells@, 0),
                    c == cells@[k as int],
                    repeat as nat == cell_repeat(c),
                    prev_color == cell_color(c, spec_line_carry(cells@.take(k as int), 0)),
                    wk == spec_line_writes(cells@.take(k as int), 0),
                    wk1 == spec_line_writes(cells@.take(k as int + 1), 0),
                    wk1.len() == wk.len() + repeat,
                    wk1.len() <= writes_all.len(),
                    forall|j: int| 0 <= j < wk.len() ==> wk1[j] == wk[j],
                    forall|j: int|
                        wk.len() <= j < wk1.len() ==> (#[trigger] wk1[j]) == (c.text, prev_color),
                    prev_column == col_start + wk.len() + t,
                    self.chars@.len() == g0.chars.len(),
                    self.colors@.len() == g0.colors.len(),
                    forall|i: int|
                        0 <= i < g0.chars.len() && i != row ==> (#[trigger] self.chars@[i])@
                            == g0.chars[i],
                    forall|i: int|
                        0 <= i < g0.colors.len() && i != row ==> (#[trigger] self.colors@[i])@
                            == g0.colors[i],
                    self.chars@[row as int]@.len() == g0.chars[row as int].len(),
                    self.colors@[row as int]@.len() == g0.colors[row as int].len(),
                    forall|j: int|
                        0 <= j < g0.chars[row as int].len() ==> (#[trigger] self.chars@[row as int]@[j])
                            == (if col_start <= j < prev_column {
                                wk1[j - col_start].0
                            } else {
                                g0.chars[row as int][j]
                            }),
                    forall|j: int|
                        0 <= j < g0.colors[row as int].len() ==> (#[trigger] self.colors@[row as int]@[j])
                            == (if col_start <= j < prev_column {
                                wk1[j - col_start].1
                            } else {
                                g0.colors[row as int][j]
                            }),
                    self.cursor == g0.cursor,
                    self.window_id == g0.window_id,
                    self.damages@ == g0.damages,
                decreases repeat - t,
            {
                let crow = &mut self.chars[row];
                crow[prev_column] = c.text;
                let lrow = &mut self.colors[row];
                lrow[prev_column] = prev_color;
                prev_column = prev_column + 1;
                t = t + 1;
            }
            damage_length = damage_length + repeat;
            k = k + 1;
        }
        proof {
            assert(cells@.take(n as int) =~= cells@);
        }
        self.damages.push(
            Damage::Cell { row, column: col_start, width: damage_length, height: 1 },
        );
        proof {
            let target = spec_line(g0, row, col_start, cells@);
            assert(self@.chars[row as int] =~= target.chars[row as int]);
            assert(self@.colors[row as int] =~= target.colors[row as int]);
            assert(self@.chars =~= target.chars);
            assert(self@.colors =~= target.colors);
            assert(self@ =~= target);
        }
    }
}

} // verus!

verus! {

/// The first row the up-scroll copy loop leaves alone: `bot`, clipped so
/// that every source row `y + rows` stays inside the grid.
pub open spec fn spec_scroll_up_bottom(g: GridView, bot: usize, rows: i64) -> int {
    if bot + rows >= g.height() {
        g.height() - rows
    } else {
        bot as int
    }
}

/// The last row (exclusive, from below) the down-scroll copy loop reaches:
/// rows above it would need a source above the grid.
pub open spec fn spec_scroll_down_lo(top: usize, rows: i64) -> int {
    if top as int >= -(rows as int) {
        top as int
    } else {
        -(rows as int)
    }
}

/// The inputs a `scroll` instruction must satisfy not to fault: column
/// scrolling is unsupported, the column range must lie inside the grid, and
/// the row arithmetic must stay in bounds.
pub open spec fn spec_scroll_ok(
    g: GridView,
    top: usize,
    bot: usize,
    left: usize,
    right: usize,
    rows: i64,
    cols: i64,
) -> bool {
    &&& cols == 0
    &&& right <= g.width()
    &&& rows > 0 ==> {
        &&& bot + rows <= usize::MAX
        &&& rows <= g.height()
        &&& top as int <= spec_scroll_up_bottom(g, bot, rows)
    }
    &&& rows < 0 ==> {
        &&& rows > i64::MIN
        &&& 1 <= bot <= g.height()
        &&& bot <= i64::MAX
        &&& top + (-(rows as int)) <= usize::MAX
    }
}

/// One row after a scroll copied its `[left, right)` range from `src`.
pub open spec fn spec_shifted_row<T>(
    rows: Seq<Seq<T>>,
    y: int,
    src: int,
    left: usize,
    right: usize,
) -> Seq<T> {
    Seq::new(
        rows[y].len(),
        |x: int|
            if left <= x < right {
                rows[src][x]
            } else {
                rows[y][x]
            },
    )
}

/// The model of a `scroll` instruction. Scrolling up (`rows > 0`) copies
/// each row's `[left, right)` range from `rows` below, for rows in
/// `[top, bottom)` with `bottom` clipped against the grid's lower edge;
/// scrolling down copies from above, stopping where the source would leave
/// the grid, so the rows nearest `top` may keep stale content. Either way
/// one vertical-scroll damage record describes the band that moved.
pub open spec fn spec_scroll(
    g: GridView,
    top: usize,
    bot: usize,
    left: usize,
    right: usize,
    rows: i64,
) -> GridView {
    if rows > 0 {
        let bottom = spec_scroll_up_bottom(g, bot, rows);
        GridView {
            chars: Seq::new(
                g.chars.len(),
                |y: int|
                    if top <= y < bottom {
                        spec_shifted_row(g.chars, y, y + rows, left, right)
                    } else {
                        g.chars[y]
                    },
            ),
            colors: Seq::new(
                g.colors.len(),
                |y: int|
                    if top <= y < bottom {
                        spec_shifted_row(g.colors, y, y + rows, left, right)
                    } else {
                        g.colors[y]
                    },
            ),
            damages: g.damages.push(
                Damage::VerticalScroll {
                    to: top,
                    from: (top + rows) as usize,
                    height: (bottom - top) as usize,
                },
            ),
            ..g
        }
    } else if rows < 0 {
        let lo = spec_scroll_down_lo(top, rows);
        GridView {
            chars: Seq::new(
                g.chars.len(),
                |y: int|
                    if lo <= y < bot {
                        spec_shifted_row(g.chars, y, y + rows, left, right)
                    } else {
                        g.chars[y]
                    },
            ),
            colors: Seq::new(
                g.colors.len(),
                |y: int|
                    if lo <= y < bot {
                        spec_shifted_row(g.colors, y, y + rows, left, right)
                    } else {
                        g.colors[y]
                    },
            ),
            damages: g.damages.push(
                Damage::VerticalScroll {
                    to: (top + (-(rows as int))) as usize,
                    from: top,
                    height: (if bot > lo { bot - lo } else { 0 }) as usize,
                },
            ),
            ..g
        }
    } else {
        g
    }
}

impl NvimGrid {
    /// Copies one row's `[left, right)` range from row `src` into row `dst`.
    fn copy_row_range(&mut self, dst: usize, src: usize, left: usize, right: usize)
        requires
            old(self)@.wf(),
            (dst as nat) < old(self)@.height(),
            (src as nat) < old(self)@.height(),
            right <= old(self)@.width(),
        ensures
            final(self)@ == (GridView {
                chars: old(self)@.chars.update(
                    dst as int,
                    spec_shifted_row(old(self)@.chars, dst as int, src as int, left, right),
                ),
                colors: old(self)@.colors.update(
                    dst as int,
                    spec_shifted_row(old(self)@.colors, dst as int, src as int, left, right),
                ),
                ..old(self)@
            }),
            final(self)@.wf(),
    {
        let ghost g0 = self@;
        let mut x = left;
        while x < right
            invariant
                left <= x <= right || x == left,
                g0.wf(),
                (dst as nat) < g0.height(),
                (src as nat) < g0.height(),
                right <= g0.width(),
                self.chars@.len() == g0.chars.len(),
                self.colors@.len() == g0.colors.len(),
                forall|i: int|
                    0 <= i < g0.chars.len() && i != dst ==> (#[trigger] self.chars@[i])@
                        == g0.chars[i],
                forall|i: int|
                    0 <= i < g0.colors.len() && i != dst ==> (#[trigger] self.colors@[i])@
                        == g0.colors[i],
                self.chars@[dst as int]@.len() == g0.chars[dst as int].len(),
                self.colors@[dst as int]@.len() == g0.colors[dst as int].len(),
                forall|j: int|
                    0 <= j < g0.chars[dst as int].len() ==> (
                    #[trigger] self.chars@[dst as int]@[j]) == (if left <= j < x {
                        g0.chars[src as int][j]
                    } else {
                        g0.chars[dst as int][j]
                    }),
                forall|j: int|
                    0 <= j < g0.colors[dst as int].len() ==> (
                    #[trigger] self.colors@[dst as int]@[j]) == (if left <= j < x {
                        g0.colors[src as int][j]
                    } else {
                        g0.colors[dst as int][j]
                    }),
                self.cursor == g0.cursor,
                self.window_id == g0.window_id,
                self.damages@ == g0.damages,
            decreases right - x,
        {
            let ch = self.chars[src][x];
            let crow = &mut self.chars[dst];
            crow[x] = ch;
            let co = self.colors[src][x];
            let lrow = &mut self.colors[dst];
            lrow[x] = co;
            x = x + 1;
        }
        proof {
            assert(self@.chars[dst as int] =~= spec_shifted_row(
                g0.chars,
                dst as int,
                src as int,
                left,
                right,
            ));
            assert(self@.colors[dst as int] =~= spec_shifted_row(
                g0.colors,
                dst as int,
                src as int,
                left,
                right,
            ));
            assert(self@.chars =~= g0.chars.update(
                dst as int,
                spec_shifted_row(g0.chars, dst as int, src as int, left, right),
            ));
            assert(self@.colors =~= g0.colors.update(
                dst as int,
                spec_shifted_row(g0.colors, dst as int, src as int, left, right),
            ));
        }
    }

    /// Applies a `scroll` instruction to this grid.
    pub(crate) fn scroll(&mut self, top: usize, bot: usize, left: usize, right: usize, rows: i64, cols: i64)
        requires
            old(self)@.wf(),
            spec_scroll_ok(old(self)@, top, bot, left, right, rows, cols),
        ensures
            final(self)@ == spec_scroll(old(self)@, top, bot, left, right, rows),
            final(self)@.wf(),
    {
        let ghost g0 = self@;
        let h = self.get_height();
        if rows > 0 {
            let r = rows as usize;
            let bottom = if bot + r >= h {
                h - r
            } else {
                bot
            };
            let mut y = top;
            while y < bottom
                invariant
                    top <= y <= bottom || y == top,
                    g0.wf(),
                    r == rows,
                    0 < rows,
                    h as nat == g0.height(),
                    bottom == spec_scroll_up_bottom(g0, bot, rows),
                    bottom as int + rows <= h as int,
                    right <= g0.width(),
                    self@.chars.len() == g0.chars.len(),
                    self@.colors.len() == g0.colors.len(),
                    self@.wf(),
                    forall|i: int|
                        0 <= i < g0.chars.len() && !(top <= i < y) ==> (#[trigger] self@.chars[i])
                            == g0.chars[i],
                    forall|i: int|
                        0 <= i < g0.colors.len() && !(top <= i < y) ==> (#[trigger] self@.colors[i])
                            == g0.colors[i],
                    forall|i: int|
                        top <= i < y ==> (#[trigger] self@.chars[i]) == spec_shifted_row(
                            g0.chars,
                            i,
                            i + rows,
                            left,
                            right,
                        ),
                    forall|i: int|
                        top <= i < y ==> (#[trigger] self@.colors[i]) == spec_shifted_row(
                            g0.colors,
                            i,
                            i + rows,
                            left,
                            right,
                        ),
                    self@.cursor == g0.cursor,
                    self@.window_id == g0.window_id,
                    self@.damages == g0.damages,
                decreases bottom - y,
            {
                let ghost before = self@;
                proof {
                    assert(y + r <= h);
                    assert(before.chars[y as int + rows] == g0.chars[y as int + rows]);
                    assert(before.colors[y as int + rows] == g0.colors[y as int + rows]);
                }
                self.copy_row_range(y, y + r, left, right);
                proof {
                    assert(spec_shifted_row(before.chars, y as int, y as int + rows, left, right)
                        =~= spec_shifted_row(g0.chars, y as int, y as int + rows, left, right));
                    assert(spec_shifted_row(before.colors, y as int, y as int + rows, left, right)
                        =~= spec_shifted_row(g0.colors, y as int, y as int + rows, left, right));
                }
                y = y + 1;
            }
            self.damages.push(
                Damage::VerticalScroll { to: top, from: top + r, height: bottom - top },
            );
            proof {
                let target = spec_scroll(g0, top, bot, left, right, rows);
                assert(self@.chars =~= target.chars);
                assert(self@.colors =~= target.colors);
                assert(self@ =~= target);
            }
        } else if rows < 0 {
            let neg = (-rows) as usize;
            let ghost lo = spec_scroll_down_lo(top, rows);
            let mut y: usize = bot - 1;
            while y >= top && (y as i64) + rows >= 0
                invariant
                    g0.wf(),
                    rows < 0,
                    rows > i64::MIN,
                    neg == -(rows as int),
                    1 <= bot <= g0.height(),
                    bot <= i64::MAX,
                    right <= g0.width(),
                    lo == spec_scroll_down_lo(top, rows),
                    1 <= lo,
                    y <= bot - 1,
                    y == bot - 1 || lo - 1 <= y,
                    self@.chars.len() == g0.chars.len(),
                    self@.colors.len() == g0.colors.len(),
                    self@.wf(),
                    forall|i: int|
                        0 <= i < g0.chars.len() && !(y < i < bot) ==> (#[trigger] self@.chars[i])
                            == g0.chars[i],
                    forall|i: int|
                        0 <= i < g0.colors.len() && !(y < i < bot) ==> (#[trigger] self@.colors[i])
                            == g0.colors[i],
                    forall|i: int|
                        y < i < bot ==> (#[trigger] self@.chars[i]) == spec_shifted_row(
                            g0.chars,
                            i,
                            i + rows,
                            left,
                            right,
                        ),
                    forall|i: int|
                        y < i < bot ==> (#[trigger] self@.colors[i]) == spec_shifted_row(
                            g0.colors,
                            i,
                            i + rows,
                            left,
                            right,
                        ),
                    self@.cursor == g0.cursor,
                    self@.window_id == g0.window_id,
                    self@.damages == g0.damages,
                decreases y,
            {
                let ghost before = self@;
                let src = ((y as i64) + rows) as usize;
                proof {
                    assert(y as int <= bot - 1 < i64::MAX);
                    assert(src as int == y as int + rows);
                    assert(src < y);
                    assert(before.chars[src as int] == g0.chars[src as int]);
                    assert(before.colors[src as int] == g0.colors[src as int]);
                }
                self.copy_row_range(y, src, left, right);
                proof {
                    assert(spec_shifted_row(before.chars, y as int, y as int + rows, left, right)
                        =~= spec_shifted_row(g0.chars, y as int, y as int + rows, left, right));
                    assert(spec_shifted_row(before.colors, y as int, y as int + rows, left, right)
                        =~= spec_shifted_row(g0.colors, y as int, y as int + rows, left, right));
                }
                y = y - 1;
            }
            self.damages.push(
                Damage::VerticalScroll { to: top + neg, from: top, height: bot - 1 - y },
            );
            proof {
                let target = spec_scroll(g0, top, bot, left, right, rows);
                assert(y as int == if bot - 1 < lo { bot - 1 } else { lo - 1 });
                assert(bot - 1 - y == (if bot > lo { bot - lo } else { 0 }));
                assert(self@.chars =~= target.chars);
                assert(self@.colors =~= target.colors);
                assert(self@ =~= target);
            }
        }
    }
}

} // verus!

verus! {

/// Whether a `line` instruction's expanded cells fit a row of the given
/// width starting at `col_start` — the bound [`NvimGrid::write_line`] needs.
pub fn line_fits(cells: &Vec<LineCell>, col_start: usize, width: usize) -> (r: bool)
    ensures
        r == (col_start + spec_line_writes(cells@, 0).len() <= width),
{
    if col_start > width {
        return false;
    }
    let mut cap: usize = width - col_start;
    let n = cells.len();
    let mut k: usize = 0;
    proof {
        assert(cells@.take(0) =~= Seq::<LineCell>::empty());
    }
    while k < n
        invariant
            k <= n,
            n == cells@.len(),
            col_start <= width,
            cap == width - col_start - spec_line_writes(cells@.take(k as int), 0).len(),
            spec_line_writes(cells@.take(k as int), 0).len() <= width - col_start,
        decreases n - k,
    {
        proof {
            lemma_line_writes_step(cells@, k as int);
            lemma_line_writes_split(cells@, 0, k as int + 1);
        }
        let rep: usize = match cells[k].repeat {
            Some(r) => r,
            None => 1,
        };
        if rep > cap {
            proof {
                assert(spec_line_writes(cells@.take(k as int + 1), 0).len() > width - col_start);
                assert(spec_line_writes(cells@, 0).len() >= spec_line_writes(
                    cells@.take(k as int + 1),
                    0,
                ).len());
            }
            return false;
        }
        cap = cap - rep;
        k = k + 1;
    }
    proof {
        assert(cells@.take(n as int) =~= cells@);
    }
    true
}

} // verus!
