//! The window-placement reconciler's planning half.
//!
//! The tiling window manager owns actual placement; this client only asks it
//! to re-orient a split or to stack a hidden window. The shell queries the
//! manager's window tree, flattens it here in depth-first pre-order with a
//! parent index per node, and this module decides — from that snapshot and
//! the instruction — which commands to run, if any. A window is correlated
//! to a grid solely by its deterministic title, [`grid_title`]; the titles
//! this client assigns are unique per grid, and a rename breaks the
//! correlation. A failed correlation is an error, never a silent no-op: a
//! half-done layout change should be loud.

use vstd::prelude::*;
use crate::text::push_decimal;
use crate::text::spec_decimal;

verus! {

/// Where the editor wants a new window relative to an old one. Only the
/// vertical pair maps to a vertical split; everything else is horizontal.
#[derive(Clone, Copy, Debug, PartialEq, Eq, Structural)]
pub enum SplitDirection {
    Above,
    Below,
    Left,
    Right,
    BelowRight,
    AboveLeft,
    TopLeft,
    BottomRight,
    Previous,
}

/// The direction a protocol integer names, if any.
pub open spec fn spec_split_direction(v: u64) -> Option<SplitDirection> {
    if v == 0 {
        Some(SplitDirection::Above)
    } else if v == 1 {
        Some(SplitDirection::Below)
    } else if v == 2 {
        Some(SplitDirection::Left)
    } else if v == 3 {
        Some(SplitDirection::Right)
    } else if v == 4 {
        Some(SplitDirection::BelowRight)
    } else if v == 5 {
        Some(SplitDirection::AboveLeft)
    } else if v == 6 {
        Some(SplitDirection::TopLeft)
    } else if v == 7 {
        Some(SplitDirection::BottomRight)
    } else if v == 8 {
        Some(SplitDirection::Previous)
    } else {
        None
    }
}

impl SplitDirection {
    /// Decodes the protocol's integer encoding of a direction.
    pub fn try_from(v: u64) -> (r: Result<SplitDirection, ()>)
        ensures
            match spec_split_direction(v) {
                Some(d) => r == Result::<SplitDirection, ()>::Ok(d),
                None => r == Result::<SplitDirection, ()>::Err(()),
            },
    {
        match v {
            0 => Ok(SplitDirection::Above),
            1 => Ok(SplitDirection::Below),
            2 => Ok(SplitDirection::Left),
            3 => Ok(SplitDirection::Right),
            4 => Ok(SplitDirection::BelowRight),
            5 => Ok(SplitDirection::AboveLeft),
            6 => Ok(SplitDirection::TopLeft),
            7 => Ok(SplitDirection::BottomRight),
            8 => Ok(SplitDirection::Previous),
            _ => Err(()),
        }
    }

    /// Whether the editor's direction asks for a vertical split.
    pub open spec fn spec_is_vertical(self) -> bool {
        self is Above || self is Below
    }
}

/// A container's layout orientation, as the tiling window manager reports
/// it. `Unspecified` stands for the manager's unset layout.
#[derive(Clone, Copy, Debug, PartialEq, Eq, Structural)]
pub enum SwayLayout {
    SplitH,
    SplitV,
    Stacked,
    Tabbed,
    Output,
    Dockarea,
    Unspecified,
}

/// One node of the manager's window tree, flattened in depth-first
/// pre-order: `parent` is the index of the node's parent, absent for the
/// root, and always smaller than the node's own index.
pub struct SwayNode {
    pub con_id: i64,
    pub name: Option<String>,
    pub layout: SwayLayout,
    pub parent: Option<usize>,
}

/// Parent indices point strictly backward, as a pre-order flattening makes
/// them.
pub open spec fn wf_tree(nodes: Seq<SwayNode>) -> bool {
    forall|i: int|
        0 <= i < nodes.len() ==> match (#[trigger] nodes[i]).parent {
            Some(p) => (p as int) < i,
            None => true,
        }
}

/// One command for the tiling window manager, addressed to a container.
#[derive(Clone, Copy, Debug, PartialEq, Eq, Structural)]
pub enum SwayCommand {
    SplitVertical { con_id: i64 },
    SplitHorizontal { con_id: i64 },
    LayoutTabbed { con_id: i64 },
}

/// No window of the manager's tree carries the expected grid title (or the
/// titled window has no parent container): the correlation this reconciler
/// depends on is broken, and the instruction fails rather than leaving the
/// layout silently wrong.
#[derive(Clone, Copy, Debug, PartialEq, Eq, Structural)]
pub enum SwayError {
    WindowNotFound,
}

/// The deterministic title this client gives the window of a grid; the sole
/// correlation key between grids and the manager's tree.
pub open spec fn spec_grid_title(id: u64) -> Seq<char> {
    "Nwin - Grid "@ + spec_decimal(id as int)
}

/// Builds a grid's window title.
pub fn grid_title(id: u64) -> (r: String)
    ensures
        r@ == spec_grid_title(id),
{
    let mut out = String::new();
    out.append("Nwin - Grid ");
    push_decimal(id, &mut out);
    proof {
        assert(out@ =~= spec_grid_title(id));
    }
    out
}

/// Whether a node carries the given title.
pub open spec fn spec_titled(n: SwayNode, title: Seq<char>) -> bool {
    match n.name {
        Some(s) => s@ == title,
        None => false,
    }
}

/// The first titled node at or after index `k`.
pub open spec fn spec_find_titled_from(nodes: Seq<SwayNode>, title: Seq<char>, k: int) -> Option<
    int,
>
    decreases nodes.len() - k,
{
    if k < 0 || k >= nodes.len() {
        None
    } else if spec_titled(nodes[k], title) {
        Some(k)
    } else {
        spec_find_titled_from(nodes, title, k + 1)
    }
}

/// The first titled node of the tree.
pub open spec fn spec_find_titled(nodes: Seq<SwayNode>, title: Seq<char>) -> Option<int> {
    spec_find_titled_from(nodes, title, 0)
}

/// Compares two strings by their characters.
fn str_equal(a: &String, b: &String) -> (r: bool)
    ensures
        r == (a@ == b@),
{
    a.eq(b)
}

/// Finds the first node carrying the title.
fn find_titled(nodes: &Vec<SwayNode>, title: &String) -> (r: Option<usize>)
    ensures
        match r {
            Some(i) => (i as nat) < nodes@.len() && spec_find_titled(nodes@, title@) == Some(
                i as int,
            ),
            None => spec_find_titled(nodes@, title@) is None,
        },
{
    let n = nodes.len();
    let mut k: usize = 0;
    while k < n
        invariant
            k <= n,
            n == nodes@.len(),
            spec_find_titled(nodes@, title@) == spec_find_titled_from(nodes@, title@, k as int),
        decreases n - k,
    {
        let hit = match &nodes[k].name {
            Some(nm) => str_equal(nm, title),
            None => false,
        };
        if hit {
            return Some(k);
        }
        k = k + 1;
    }
    None
}

/// The planned outcome of a `win_split` instruction against a tree
/// snapshot: nothing when the titled window's parent container already has
/// the wanted orientation, one re-orientation command addressed to the
/// window otherwise, and a correlation error when no parented window
/// carries the grid's title.
pub open spec fn spec_plan_split(
    nodes: Seq<SwayNode>,
    grid: u64,
    direction: SplitDirection,
) -> Result<Option<SwayCommand>, SwayError> {
    let desired = if direction.spec_is_vertical() {
        SwayLayout::SplitV
    } else {
        SwayLayout::SplitH
    };
    match spec_find_titled(nodes, spec_grid_title(grid)) {
        Some(i) => match nodes[i].parent {
            Some(p) => if nodes[p as int].layout == desired {
                Ok(None)
            } else if direction.spec_is_vertical() {
                Ok(Some(SwayCommand::SplitVertical { con_id: nodes[i].con_id }))
            } else {
                Ok(Some(SwayCommand::SplitHorizontal { con_id: nodes[i].con_id }))
            },
            None => Err(SwayError::WindowNotFound),
        },
        None => Err(SwayError::WindowNotFound),
    }
}

/// Plans a `win_split` instruction; see [`spec_plan_split`].
pub fn plan_win_split(nodes: &Vec<SwayNode>, grid: u64, direction: SplitDirection) -> (r: Result<
    Option<SwayCommand>,
    SwayError,
>)
    requires
        wf_tree(nodes@),
    ensures
        r == spec_plan_split(nodes@, grid, direction),
{
    let vertical = match direction {
        SplitDirection::Above => true,
        SplitDirection::Below => true,
        _ => false,
    };
    let title = grid_title(grid);
    match find_titled(nodes, &title) {
        Some(i) => {
            match nodes[i].parent {
                Some(p) => {
                    let desired = if vertical {
                        SwayLayout::SplitV
                    } else {
                        SwayLayout::SplitH
                    };
                    if nodes[p].layout == desired {
                        Ok(None)
                    } else if vertical {
                        Ok(Some(SwayCommand::SplitVertical { con_id: nodes[i].con_id }))
                    } else {
                        Ok(Some(SwayCommand::SplitHorizontal { con_id: nodes[i].con_id }))
                    }
                },
                None => Err(SwayError::WindowNotFound),
            }
        },
        None => Err(SwayError::WindowNotFound),
    }
}

/// The planned outcome of a `win_hide` instruction: when the titled
/// window's parent container is not already tabbed, the window is split
/// vertically and its layout set to tabbed, so the hidden window stacks
/// instead of occupying space; the same correlation error otherwise.
pub open spec fn spec_plan_hide(nodes: Seq<SwayNode>, win: u64) -> Result<
    Option<(SwayCommand, SwayCommand)>,
    SwayError,
> {
    match spec_find_titled(nodes, spec_grid_title(win)) {
        Some(i) => match nodes[i].parent {
            Some(p) => if nodes[p as int].layout == SwayLayout::Tabbed {
                Ok(None)
            } else {
                Ok(
                    Some(
                        (
                            SwayCommand::SplitVertical { con_id: nodes[i].con_id },
                            SwayCommand::LayoutTabbed { con_id: nodes[i].con_id },
                        ),
                    ),
                )
            },
            None => Err(SwayError::WindowNotFound),
        },
        None => Err(SwayError::WindowNotFound),
    }
}

/// Plans a `win_hide` instruction; see [`spec_plan_hide`].
pub fn plan_win_hide(nodes: &Vec<SwayNode>, win: u64) -> (r: Result<
    Option<(SwayCommand, SwayCommand)>,
    SwayError,
>)
    requires
        wf_tree(nodes@),
    ensures
        r == spec_plan_hide(nodes@, win),
{
    let title = grid_title(win);
    match find_titled(nodes, &title) {
        Some(i) => {
            match nodes[i].parent {
                Some(p) => {
                    if nodes[p].layout == SwayLayout::Tabbed {
                        Ok(None)
                    } else {
                        Ok(
                            Some(
                                (
                                    SwayCommand::SplitVertical { con_id: nodes[i].con_id },
                                    SwayCommand::LayoutTabbed { con_id: nodes[i].con_id },
                                ),
                            ),
                        )
                    }
                },
                None => Err(SwayError::WindowNotFound),
            }
        },
        None => Err(SwayError::WindowNotFound),
    }
}


impl crate::state::NvimState {
    /// Reconciles an editor `win_split` with the manager's tree: classifies
    /// the direction, finds the window titled for `grid1`, and asks for a
    /// re-orientation when its parent container disagrees. The companion
    /// window and grid ids are accepted and unused: the manager decides
    /// where the new window lands.
    pub fn win_split(
        &self,
        nodes: &Vec<SwayNode>,
        win1: u64,
        grid1: u64,
        win2: u64,
        grid2: u64,
        flags: SplitDirection,
    ) -> (r: Result<Option<SwayCommand>, SwayError>)
        requires
            wf_tree(nodes@),
        ensures
            r == spec_plan_split(nodes@, grid1, flags),
    {
        plan_win_split(nodes, grid1, flags)
    }

    /// Reconciles an editor `win_hide` with the manager's tree: the hidden
    /// window is stacked into a tabbed container unless it already is.
    pub fn win_hide(&self, nodes: &Vec<SwayNode>, win: u64) -> (r: Result<
        Option<(SwayCommand, SwayCommand)>,
        SwayError,
    >)
        requires
            wf_tree(nodes@),
        ensures
            r == spec_plan_hide(nodes@, win),
    {
        plan_win_hide(nodes, win)
    }
}

} // verus!
