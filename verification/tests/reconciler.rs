//! The window-placement planner against flattened manager trees.

use nwin::NvimState;
use nwin::SplitDirection;
use nwin::SwayCommand;
use nwin::SwayError;
use nwin::SwayLayout;
use nwin::SwayNode;
use nwin::grid_title;
use nwin::plan_win_hide;
use nwin::plan_win_split;

fn container(con_id: i64, layout: SwayLayout, parent: Option<usize>) -> SwayNode {
    SwayNode { con_id, name: None, layout, parent }
}

fn window(con_id: i64, title: String, parent: Option<usize>) -> SwayNode {
    SwayNode { con_id, name: Some(title), layout: SwayLayout::Unspecified, parent }
}

/// root(0) -> workspace(1, splith) -> [ grid 2's window (2), grid 3's window (3) ]
fn two_window_tree(workspace_layout: SwayLayout) -> Vec<SwayNode> {
    vec![
        container(1, SwayLayout::Output, None),
        container(10, workspace_layout, Some(0)),
        window(100, grid_title(2), Some(1)),
        window(101, grid_title(3), Some(1)),
    ]
}

#[test]
fn grid_titles_are_deterministic() {
    assert_eq!(grid_title(2).as_str(), "Nwin - Grid 2");
    assert_eq!(grid_title(40).as_str(), "Nwin - Grid 40");
    assert_eq!(grid_title(0).as_str(), "Nwin - Grid 0");
    assert_eq!(grid_title(1234567).as_str(), "Nwin - Grid 1234567");
}

#[test]
fn split_direction_decodes_the_protocol_integers() {
    assert_eq!(SplitDirection::try_from(0), Ok(SplitDirection::Above));
    assert_eq!(SplitDirection::try_from(1), Ok(SplitDirection::Below));
    assert_eq!(SplitDirection::try_from(2), Ok(SplitDirection::Left));
    assert_eq!(SplitDirection::try_from(3), Ok(SplitDirection::Right));
    assert_eq!(SplitDirection::try_from(8), Ok(SplitDirection::Previous));
    assert_eq!(SplitDirection::try_from(9), Err(()));
}

#[test]
fn vertical_split_reorients_a_horizontal_parent() {
    let tree = two_window_tree(SwayLayout::SplitH);
    let r = plan_win_split(&tree, 2, SplitDirection::Below).unwrap();
    assert_eq!(r, Some(SwayCommand::SplitVertical { con_id: 100 }));
}

#[test]
fn vertical_split_leaves_a_vertical_parent_alone() {
    let tree = two_window_tree(SwayLayout::SplitV);
    let r = plan_win_split(&tree, 2, SplitDirection::Above).unwrap();
    assert_eq!(r, None);
}

#[test]
fn everything_but_above_and_below_splits_horizontally() {
    let tree = two_window_tree(SwayLayout::SplitV);
    let r = plan_win_split(&tree, 3, SplitDirection::Right).unwrap();
    assert_eq!(r, Some(SwayCommand::SplitHorizontal { con_id: 101 }));
    let r = plan_win_split(&tree, 3, SplitDirection::Previous).unwrap();
    assert_eq!(r, Some(SwayCommand::SplitHorizontal { con_id: 101 }));
}

#[test]
fn a_missing_title_is_a_correlation_failure() {
    let tree = two_window_tree(SwayLayout::SplitH);
    assert_eq!(
        plan_win_split(&tree, 7, SplitDirection::Below),
        Err(SwayError::WindowNotFound)
    );
}

#[test]
fn a_titled_root_has_no_parent_to_reorient() {
    let tree = vec![window(100, grid_title(2), None)];
    assert_eq!(
        plan_win_split(&tree, 2, SplitDirection::Below),
        Err(SwayError::WindowNotFound)
    );
}

#[test]
fn hiding_stacks_the_window_unless_already_tabbed() {
    let tree = two_window_tree(SwayLayout::SplitH);
    let r = plan_win_hide(&tree, 2).unwrap();
    assert_eq!(
        r,
        Some((
            SwayCommand::SplitVertical { con_id: 100 },
            SwayCommand::LayoutTabbed { con_id: 100 },
        ))
    );
    let tree = two_window_tree(SwayLayout::Tabbed);
    assert_eq!(plan_win_hide(&tree, 2).unwrap(), None);
}

#[test]
fn state_methods_delegate_to_the_planner() {
    let s = NvimState::new();
    let tree = two_window_tree(SwayLayout::SplitH);
    let r = s.win_split(&tree, 0, 2, 0, 3, SplitDirection::Below).unwrap();
    assert_eq!(r, Some(SwayCommand::SplitVertical { con_id: 100 }));
    let r = s.win_hide(&tree, 3).unwrap();
    assert_eq!(
        r,
        Some((
            SwayCommand::SplitVertical { con_id: 101 },
            SwayCommand::LayoutTabbed { con_id: 101 },
        ))
    );
}
