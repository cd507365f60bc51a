//! The redraw stream: decoded instructions, the flush-boundary queue, and
//! the dispatcher that applies one instruction to the store.
//!
//! The shell decodes each wire notification into [`RedrawEvent`] values and
//! feeds them through a [`RedrawQueue`]: the protocol's updates are atomic
//! up to a `flush` marker, so events buffer — across ticks if necessary —
//! until their flush arrives, and only the prefix before the last flush of a
//! batch is handed on. [`apply_redraw_event`] then applies one event,
//! checking first what the instruction needs so that a malformed one becomes
//! an error for the shell to fail on rather than a fault in here.

use vstd::prelude::*;
use crate::grid::LineCell;
use crate::grid::line_fits;
use crate::grid::spec_scroll_ok;
use crate::highlight::HlUpdate;
use crate::state::NvimState;
use crate::state::StateView;
use crate::sway::SplitDirection;

verus! {

/// One decoded redraw instruction. Informational instructions this client
/// accepts without acting on arrive as `Ignored`.
pub enum RedrawEvent {
    BusyStart,
    BusyStop,
    CmdlineHide,
    CmdlinePos { pos: u64, level: u64 },
    CmdlineShow {
        content: Vec<String>,
        pos: u64,
        firstc: char,
        prompt: String,
        indent: u64,
        level: u64,
    },
    DefaultColorsSet { fg: Option<u64>, bg: Option<u64>, sp: Option<u64> },
    GridClear { grid: u64 },
    GridCursorGoto { grid: u64, row: usize, column: usize },
    GridDestroy { grid: u64 },
    GridLine { grid: u64, row: usize, col_start: usize, cells: Vec<LineCell> },
    GridResize { grid: u64, width: usize, height: usize },
    GridScroll {
        grid: u64,
        top: usize,
        bot: usize,
        left: usize,
        right: usize,
        rows: i64,
        cols: i64,
    },
    HlAttrDefine { id: u64, updates: Vec<HlUpdate> },
    MsgClear,
    MsgShow { kind: String, content: Vec<(u64, String)>, replace_last: bool },
    WinHide { win: u64 },
    WinPos { grid: u64, win: u64, start_row: usize, start_col: usize, width: usize, height: usize },
    WinSplit { win1: u64, grid1: u64, win2: u64, grid2: u64, direction: SplitDirection },
    Flush,
    Ignored,
}

/// What the shell must do after an event was applied: nothing, or carry a
/// window-manager reconciliation out — the one thing the store cannot do,
/// since it takes the manager's socket.
#[derive(Clone, Copy, Debug, PartialEq, Eq, Structural)]
pub enum RedrawAction {
    Done,
    SwaySplit { grid: u64, direction: SplitDirection },
    SwayHide { win: u64 },
}

/// Why an instruction was rejected. Each names the check that failed; the
/// shell treats any of them as the fatal fault the protocol makes them.
#[derive(Clone, Copy, Debug, PartialEq, Eq, Structural)]
pub enum RedrawError {
    /// The instruction names a grid the store has never seen.
    UnknownGrid,
    /// The grid's cursor cannot be clamped for reporting: the grid has rows
    /// but no columns and the cursor sits in a row.
    CursorUnreportable,
    /// A `line` instruction's row or expanded cells leave the grid.
    LineOutOfBounds,
    /// A `scroll` instruction's rows or columns leave the grid or overflow.
    ScrollOutOfBounds,
    /// A `scroll` instruction asks for column scrolling, which this design
    /// does not support.
    ColumnScrollUnsupported,
}

/// Whether the store can apply an event without faulting.
pub open spec fn spec_event_ok(s: StateView, e: &RedrawEvent) -> bool {
    match e {
        RedrawEvent::GridCursorGoto { grid, .. } => s.grids.dom().contains(*grid)
            && s.grids[*grid].cursor_query_ok(),
        RedrawEvent::GridDestroy { grid } => s.grids.dom().contains(*grid),
        RedrawEvent::GridLine { grid, row, col_start, cells } => NvimState::spec_line_ok(
            s,
            *grid,
            *row,
            *col_start,
            cells@,
        ),
        RedrawEvent::GridScroll { grid, top, bot, left, right, rows, cols } => {
            NvimState::spec_state_scroll_ok(s, *grid, *top, *bot, *left, *right, *rows, *cols)
        },
        RedrawEvent::WinPos { grid, .. } => s.grids.dom().contains(*grid),
        _ => true,
    }
}

/// The error a rejected event reports, check by check in the order the
/// store makes them.
pub open spec fn spec_event_err(s: StateView, e: &RedrawEvent) -> RedrawError {
    match e {
        RedrawEvent::GridCursorGoto { grid, .. } => if !s.grids.dom().contains(*grid) {
            RedrawError::UnknownGrid
        } else {
            RedrawError::CursorUnreportable
        },
        RedrawEvent::GridLine { grid, .. } => if !s.grids.dom().contains(*grid) {
            RedrawError::UnknownGrid
        } else {
            RedrawError::LineOutOfBounds
        },
        RedrawEvent::GridScroll { grid, cols, .. } => if *cols != 0 {
            RedrawError::ColumnScrollUnsupported
        } else if !s.grids.dom().contains(*grid) {
            RedrawError::UnknownGrid
        } else {
            RedrawError::ScrollOutOfBounds
        },
        _ => RedrawError::UnknownGrid,
    }
}

/// The store after an event. Events that only drive the shell (the window
/// reconciliations, the flush marker, the ignored ones) change nothing.
pub open spec fn spec_apply_event(s: StateView, e: &RedrawEvent, now_ms: u64) -> StateView {
    match e {
        RedrawEvent::BusyStart => StateView { cursor_on: false, ..s },
        RedrawEvent::BusyStop => StateView { cursor_on: true, ..s },
        RedrawEvent::CmdlineHide => StateView { cmdline_shown: false, ..s },
        RedrawEvent::CmdlinePos { pos, .. } => StateView { cmdline_pos: *pos, ..s },
        RedrawEvent::CmdlineShow { content, pos, firstc, prompt, .. } => {
            NvimState::spec_state_cmdline_show(
                s,
                content@.map_values(|c: String| c@),
                *pos,
                *firstc,
                prompt@,
            )
        },
        RedrawEvent::DefaultColorsSet { fg, bg, sp } => NvimState::spec_state_default_colors(
            s,
            *fg,
            *bg,
            *sp,
        ),
        RedrawEvent::GridClear { grid } => NvimState::spec_state_clear(s, *grid),
        RedrawEvent::GridCursorGoto { grid, row, column } => NvimState::spec_state_cursor_goto(
            s,
            *grid,
            *row,
            *column,
        ),
        RedrawEvent::GridDestroy { grid } => NvimState::spec_state_destroy(s, *grid),
        RedrawEvent::GridLine { grid, row, col_start, cells } => NvimState::spec_state_line(
            s,
            *grid,
            *row,
            *col_start,
            cells@,
        ),
        RedrawEvent::GridResize { grid, width, height } => NvimState::spec_state_resize(
            s,
            *grid,
            *width,
            *height,
        ),
        RedrawEvent::GridScroll { grid, top, bot, left, right, rows, .. } => {
            NvimState::spec_state_scroll(s, *grid, *top, *bot, *left, *right, *rows)
        },
        RedrawEvent::HlAttrDefine { id, updates } => NvimState::spec_state_hl_define(
            s,
            *id,
            updates@,
        ),
        RedrawEvent::MsgClear => NvimState::spec_state_msg_clear(s),
        RedrawEvent::MsgShow { content, .. } => NvimState::spec_state_msg_show(
            s,
            content@.map_values(|p: (u64, String)| (p.0, p.1@)),
            now_ms,
        ),
        RedrawEvent::WinPos { grid, win, .. } => NvimState::spec_state_win_pos(s, *grid, *win),
        RedrawEvent::WinHide { .. } => s,
        RedrawEvent::WinSplit { .. } => s,
        RedrawEvent::Flush => s,
        RedrawEvent::Ignored => s,
    }
}

/// The shell work an event asks for.
pub open spec fn spec_event_action(e: &RedrawEvent) -> RedrawAction {
    match e {
        RedrawEvent::WinSplit { grid1, direction, .. } => RedrawAction::SwaySplit {
            grid: *grid1,
            direction: *direction,
        },
        RedrawEvent::WinHide { win } => RedrawAction::SwayHide { win: *win },
        _ => RedrawAction::Done,
    }
}

/// Applies one decoded instruction to the store. Succeeds — telling the
/// shell what, if anything, it must do next — exactly on the events the
/// store can apply; a rejected event names its fault and leaves the store
/// untouched. `now_ms` is the shell's clock, read once per batch.
pub fn apply_redraw_event(state: &mut NvimState, event: &RedrawEvent, now_ms: u64) -> (r: Result<
    RedrawAction,
    RedrawError,
>)
    requires
        old(state).wf(),
    ensures
        final(state).wf(),
        spec_event_ok(old(state)@, event) ==> r == Result::<RedrawAction, RedrawError>::Ok(
            spec_event_action(event),
        ) && final(state)@ == spec_apply_event(old(state)@, event, now_ms),
        !spec_event_ok(old(state)@, event) ==> r == Result::<RedrawAction, RedrawError>::Err(
            spec_event_err(old(state)@, event),
        ) && final(state)@ == old(state)@,
{
    match event {
        RedrawEvent::BusyStart => {
            state.busy_start();
            Ok(RedrawAction::Done)
        },
        RedrawEvent::BusyStop => {
            state.busy_stop();
            Ok(RedrawAction::Done)
        },
        RedrawEvent::CmdlineHide => {
            state.cmdline_hide();
            Ok(RedrawAction::Done)
        },
        RedrawEvent::CmdlinePos { pos, level } => {
            state.cmdline_pos(*pos, *level);
            Ok(RedrawAction::Done)
        },
        RedrawEvent::CmdlineShow { content, pos, firstc, prompt, indent, level } => {
            state.cmdline_show(content, *pos, *firstc, prompt.as_str(), *indent, *level);
            Ok(RedrawAction::Done)
        },
        RedrawEvent::DefaultColorsSet { fg, bg, sp } => {
            state.default_colors_set(*fg, *bg, *sp);
            Ok(RedrawAction::Done)
        },
        RedrawEvent::GridClear { grid } => {
            state.grid_clear(*grid);
            Ok(RedrawAction::Done)
        },
        RedrawEvent::GridCursorGoto { grid, row, column } => {
            let ok = match state.get_grid(*grid) {
                Some(g) => g.can_report_cursor(),
                None => {
                    return Err(RedrawError::UnknownGrid);
                },
            };
            if ok {
                state.grid_cursor_goto(*grid, *row, *column);
                Ok(RedrawAction::Done)
            } else {
                Err(RedrawError::CursorUnreportable)
            }
        },
        RedrawEvent::GridDestroy { grid } => {
            match state.get_grid(*grid) {
                Some(_) => {
                    state.grid_destroy(*grid);
                    Ok(RedrawAction::Done)
                },
                None => Err(RedrawError::UnknownGrid),
            }
        },
        RedrawEvent::GridLine { grid, row, col_start, cells } => {
            let ok = match state.get_grid(*grid) {
                Some(g) => {
                    let h = g.get_height();
                    let w = g.get_width();
                    *row < h && line_fits(cells, *col_start, w)
                },
                None => {
                    return Err(RedrawError::UnknownGrid);
                },
            };
            if ok {
                state.grid_line(*grid, *row, *col_start, cells);
                Ok(RedrawAction::Done)
            } else {
                Err(RedrawError::LineOutOfBounds)
            }
        },
        RedrawEvent::GridResize { grid, width, height } => {
            state.grid_resize(*grid, *width, *height);
            Ok(RedrawAction::Done)
        },
        RedrawEvent::GridScroll { grid, top, bot, left, right, rows, cols } => {
            if *cols != 0 {
                return Err(RedrawError::ColumnScrollUnsupported);
            }
            let ok = match state.get_grid(*grid) {
                Some(g) => scroll_args_ok(g, *top, *bot, *left, *right, *rows),
                None => {
                    return Err(RedrawError::UnknownGrid);
                },
            };
            if ok {
                state.grid_scroll(*grid, *top, *bot, *left, *right, *rows, *cols);
                Ok(RedrawAction::Done)
            } else {
                Err(RedrawError::ScrollOutOfBounds)
            }
        },
        RedrawEvent::HlAttrDefine { id, updates } => {
            state.hl_attr_define(*id, updates);
            Ok(RedrawAction::Done)
        },
        RedrawEvent::MsgClear => {
            state.msg_clear();
            Ok(RedrawAction::Done)
        },
        RedrawEvent::MsgShow { kind, content, replace_last } => {
            state.msg_show(kind.as_str(), content, *replace_last, now_ms);
            Ok(RedrawAction::Done)
        },
        RedrawEvent::WinPos { grid, win, start_row, start_col, width, height } => {
            match state.get_grid(*grid) {
                Some(_) => {
                    state.win_pos(*grid, *win, *start_row, *start_col, *width, *height);
                    Ok(RedrawAction::Done)
                },
                None => Err(RedrawError::UnknownGrid),
            }
        },
        RedrawEvent::WinHide { win } => Ok(RedrawAction::SwayHide { win: *win }),
        RedrawEvent::WinSplit { win1, grid1, win2, grid2, direction } => Ok(
            RedrawAction::SwaySplit { grid: *grid1, direction: *direction },
        ),
        RedrawEvent::Flush => Ok(RedrawAction::Done),
        RedrawEvent::Ignored => Ok(RedrawAction::Done),
    }
}

/// Checks what a `scroll` instruction needs of its grid; see
/// [`spec_scroll_ok`], with the column-scroll check already done.
fn scroll_args_ok(g: &crate::grid::NvimGrid, top: usize, bot: usize, left: usize, right: usize, rows: i64)
    -> (r: bool)
    requires
        g@.wf(),
    ensures
        r == spec_scroll_ok(g@, top, bot, left, right, rows, 0),
{
    let h = g.get_height();
    let w = g.get_width();
    if right > w {
        return false;
    }
    if rows > 0 {
        let rows64 = rows as u64;
        if rows64 > (h as u64) {
            return false;
        }
        let r_: usize = rows as usize;
        if bot > usize::MAX - r_ {
            return false;
        }
        let bottom = if bot + r_ >= h {
            h - r_
        } else {
            bot
        };
        top <= bottom
    } else if rows < 0 {
        if rows == i64::MIN {
            return false;
        }
        if bot < 1 || bot > h {
            return false;
        }
        if (bot as u64) > (i64::MAX as u64) {
            return false;
        }
        let neg64 = (-rows) as u64;
        if neg64 > (usize::MAX as u64) {
            return false;
        }
        let neg: usize = neg64 as usize;
        top <= usize::MAX - neg
    } else {
        true
    }
}

/// The editor's window handles cross the wire as a msgpack extension value
/// the channel library leaves packed: extension type 1 (a window), the
/// marker 0xCD, then a 16-bit big-endian integer.
pub open spec fn spec_window_handle(ext_type: i64, bytes: Seq<u8>) -> Option<u64> {
    if ext_type == 1 && bytes.len() == 3 && bytes[0] == 0xCD {
        Some(((bytes[1] as u64) * 256 + (bytes[2] as u64)) as u64)
    } else {
        None
    }
}

/// Unpacks an editor window handle; see [`spec_window_handle`]. Anything but
/// the one shape this client understands is rejected.
pub fn decode_window_handle(ext_type: i64, bytes: &Vec<u8>) -> (r: Option<u64>)
    ensures
        r == spec_window_handle(ext_type, bytes@),
{
    if ext_type == 1 && bytes.len() == 3 && bytes[0] == 0xCD {
        let hi = bytes[1] as u64;
        let lo = bytes[2] as u64;
        proof {
            assert((hi << 8) | lo == hi * 256 + lo) by (bit_vector)
                requires
                    hi <= 255,
                    lo <= 255,
            ;
        }
        Some((hi << 8) | lo)
    } else {
        None
    }
}

/// The position of the last flush marker of a batch, if it has one.
pub open spec fn spec_last_flush(s: Seq<RedrawEvent>) -> Option<int>
    decreases s.len(),
{
    if s.len() == 0 {
        None
    } else if s.last() is Flush {
        Some(s.len() - 1)
    } else {
        spec_last_flush(s.drop_last())
    }
}

/// The buffer between the wire and the store: events queue here until the
/// flush that makes their update atomic arrives.
pub struct RedrawQueue {
    events: Vec<RedrawEvent>,
}

impl View for RedrawQueue {
    type V = Seq<RedrawEvent>;

    closed spec fn view(&self) -> Seq<RedrawEvent> {
        self.events@
    }
}

impl RedrawQueue {
    pub fn new() -> (q: RedrawQueue)
        ensures
            q@ == Seq::<RedrawEvent>::empty(),
    {
        let q = RedrawQueue { events: Vec::new() };
        proof {
            assert(q@ =~= Seq::<RedrawEvent>::empty());
        }
        q
    }

    /// The number of buffered events.
    pub fn len(&self) -> (r: usize)
        ensures
            r as nat == self@.len(),
    {
        self.events.len()
    }

    /// Queues one batch of decoded events. When the batch carries a flush,
    /// everything buffered before the batch's last flush marker is handed
    /// back, in arrival order, to be applied as one atomic update; the
    /// marker itself and whatever follows it stay buffered. Without a flush
    /// the whole batch just waits.
    pub fn push_batch(&mut self, batch: Vec<RedrawEvent>) -> (drained: Option<Vec<RedrawEvent>>)
        ensures
            match spec_last_flush(batch@) {
                None => final(self)@ == old(self)@ + batch@ && drained is None,
                Some(i) => (drained matches Some(d) && d@ == (old(self)@ + batch@).take(
                    old(self)@.len() + i,
                )) && final(self)@ == (old(self)@ + batch@).skip(old(self)@.len() + i),
            },
    {
        let ghost q0 = self.events@;
        let ghost b = batch@;
        let mut batch = batch;
        let old_len = self.events.len();
        let mut flush_at: Option<usize> = None;
        let n = batch.len();
        let mut k: usize = 0;
        proof {
            assert(b.take(0) =~= Seq::<RedrawEvent>::empty());
            assert(self.events@ =~= q0 + b.take(0));
        }
        while k < n
            invariant
                k <= n,
                n == b.len(),
                batch@ == b.skip(k as int),
                self.events@ == q0 + b.take(k as int),
                old_len == q0.len(),
                match flush_at {
                    Some(i) => i < k && spec_last_flush(b.take(k as int)) == Some(i as int),
                    None => spec_last_flush(b.take(k as int)) is None,
                },
            decreases n - k,
        {
            let e = batch.remove(0);
            proof {
                assert(b.skip(k as int)[0] == b[k as int]);
                assert(batch@ =~= b.skip(k as int + 1));
            }
            let is_flush = match e {
                RedrawEvent::Flush => true,
                _ => false,
            };
            if is_flush {
                flush_at = Some(k);
            }
            self.events.push(e);
            proof {
                assert(self.events@ =~= q0 + b.take(k as int + 1));
                assert(b.take(k as int + 1).drop_last() =~= b.take(k as int));
                assert(b.take(k as int + 1).last() == b[k as int]);
            }
            k = k + 1;
        }
        proof {
            assert(b.take(n as int) =~= b);
        }
        match flush_at {
            None => None,
            Some(i) => {
                let queued = self.events.len();
                proof {
                    assert(queued == q0.len() + b.len());
                }
                let boundary = old_len + i;
                let ghost total = q0 + b;
                let mut out: Vec<RedrawEvent> = Vec::new();
                let mut j: usize = 0;
                proof {
                    assert(out@ =~= total.take(0));
                    assert(self.events@ =~= total.skip(0));
                }
                while j < boundary
                    invariant
                        j <= boundary,
                        boundary == q0.len() + i,
                        i < b.len(),
                        total == q0 + b,
                        out@ == total.take(j as int),
                        self.events@ == total.skip(j as int),
                    decreases boundary - j,
                {
                    let e = self.events.remove(0);
                    proof {
                        assert(total.skip(j as int)[0] == total[j as int]);
                        assert(self.events@ =~= total.skip(j as int + 1));
                        assert(out@.push(e) =~= total.take(j as int + 1));
                    }
                    out.push(e);
                    j = j + 1;
                }
                Some(out)
            },
        }
    }
}

} // verus!
