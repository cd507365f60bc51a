//! The grid store against the redraw instructions it models.

use nwin::Damage;
use nwin::LineCell;
use nwin::NvimState;

fn cell(c: char) -> LineCell {
    LineCell { text: Some(c), hl: None, repeat: None }
}

fn cell_hl(c: char, hl: u64) -> LineCell {
    LineCell { text: Some(c), hl: Some(hl), repeat: None }
}

fn cell_rep(c: char, repeat: usize) -> LineCell {
    LineCell { text: Some(c), hl: None, repeat: Some(repeat) }
}

#[test]
fn resize_reports_last_requested_dimensions() {
    let mut s = NvimState::new();
    s.grid_resize(1, 80, 20);
    s.grid_resize(1, 10, 5);
    s.grid_resize(1, 33, 7);
    let g = s.get_grid(1).unwrap();
    assert_eq!(g.get_width(), 33);
    assert_eq!(g.get_height(), 7);
}

#[test]
fn resize_creates_unseen_grid() {
    let mut s = NvimState::new();
    assert!(s.get_grid(9).is_none());
    s.grid_resize(9, 4, 3);
    let g = s.get_grid(9).unwrap();
    assert_eq!(g.get_width(), 4);
    assert_eq!(g.get_height(), 3);
}

#[test]
fn fresh_resize_damages_new_rows_then_nothing_more() {
    let mut s = NvimState::new();
    s.grid_resize(1, 20, 10);
    let g = s.get_grid(1).unwrap();
    assert_eq!(g.damage_count(), 1);
    assert_eq!(
        g.damage_at(0),
        Damage::Cell { row: 0, column: 0, width: 20, height: 10 }
    );
}

#[test]
fn growing_resize_damages_only_added_rows() {
    let mut s = NvimState::new();
    s.grid_resize(1, 20, 10);
    let _ = s.take_damages(1);
    s.grid_resize(1, 20, 14);
    let g = s.get_grid(1).unwrap();
    assert_eq!(g.damage_count(), 1);
    assert_eq!(
        g.damage_at(0),
        Damage::Cell { row: 10, column: 0, width: 20, height: 4 }
    );
}

#[test]
fn widening_resize_damages_added_columns() {
    let mut s = NvimState::new();
    s.grid_resize(1, 20, 10);
    let _ = s.take_damages(1);
    s.grid_resize(1, 25, 10);
    let g = s.get_grid(1).unwrap();
    // the unchanged rows emit nothing; the column step covers the five new
    // columns over the full height, and the new cells are blank
    assert_eq!(g.damage_count(), 1);
    assert_eq!(
        g.damage_at(0),
        Damage::Cell { row: 0, column: 20, width: 5, height: 10 }
    );
    for row in 0..10 {
        for col in 20..25 {
            assert_eq!(g.char_at(row, col), None);
            assert_eq!(g.color_at(row, col), 0);
        }
    }
}

#[test]
fn unchanged_resize_emits_no_damage() {
    let mut s = NvimState::new();
    s.grid_resize(1, 3, 2);
    let _ = s.take_damages(1);
    s.grid_resize(1, 3, 2);
    assert_eq!(s.get_grid(1).unwrap().damage_count(), 0);
}

#[test]
fn shrinking_resize_truncates_without_damage() {
    let mut s = NvimState::new();
    s.grid_resize(1, 20, 10);
    let _ = s.take_damages(1);
    s.grid_resize(1, 20, 6);
    let g = s.get_grid(1).unwrap();
    assert_eq!(g.get_height(), 6);
    assert_eq!(g.damage_count(), 0);
}

#[test]
fn clear_then_line_reproduces_written_cells() {
    let mut s = NvimState::new();
    s.grid_resize(1, 10, 3);
    s.grid_clear(1);
    s.grid_line(1, 0, 0, &vec![cell('h'), cell('i'), cell('!')]);
    let g = s.get_grid(1).unwrap();
    assert_eq!(g.char_at(0, 0), Some('h'));
    assert_eq!(g.char_at(0, 1), Some('i'));
    assert_eq!(g.char_at(0, 2), Some('!'));
    for col in 3..10 {
        assert_eq!(g.char_at(0, col), None);
        assert_eq!(g.color_at(0, col), 0);
    }
    for row in 1..3 {
        for col in 0..10 {
            assert_eq!(g.char_at(row, col), None);
        }
    }
}

#[test]
fn line_carries_highlight_forward_and_repeats() {
    let mut s = NvimState::new();
    s.grid_resize(1, 10, 2);
    let _ = s.take_damages(1);
    s.grid_line(
        1,
        1,
        2,
        &vec![cell_hl('a', 7), cell('b'), cell_rep('-', 3), cell_hl('z', 0)],
    );
    let g = s.get_grid(1).unwrap();
    assert_eq!(g.char_at(1, 2), Some('a'));
    assert_eq!(g.color_at(1, 2), 7);
    assert_eq!(g.char_at(1, 3), Some('b'));
    assert_eq!(g.color_at(1, 3), 7);
    for col in 4..7 {
        assert_eq!(g.char_at(1, col), Some('-'));
        assert_eq!(g.color_at(1, col), 7);
    }
    assert_eq!(g.char_at(1, 7), Some('z'));
    assert_eq!(g.color_at(1, 7), 0);
    // one damage rectangle for the whole contiguous span
    assert_eq!(g.damage_count(), 1);
    assert_eq!(
        g.damage_at(0),
        Damage::Cell { row: 1, column: 2, width: 6, height: 1 }
    );
}

fn fill_rows(s: &mut NvimState, id: u64, width: usize, height: usize) {
    // row r gets the character with code 'A' + r in every column
    for r in 0..height {
        let c = (b'A' + r as u8) as char;
        s.grid_line(id, r, 0, &vec![LineCell { text: Some(c), hl: None, repeat: Some(width) }]);
    }
}

#[test]
fn scroll_up_moves_rows_and_clips_the_band() {
    let mut s = NvimState::new();
    s.grid_resize(1, 20, 10);
    fill_rows(&mut s, 1, 20, 10);
    let _ = s.take_damages(1);
    s.grid_scroll(1, 2, 10, 0, 20, 3, 0);
    let g = s.get_grid(1).unwrap();
    // rows [2,7) took the content of rows [5,10)
    for r in 2..7 {
        let expect = (b'A' + (r + 3) as u8) as char;
        for col in 0..20 {
            assert_eq!(g.char_at(r, col), Some(expect));
        }
    }
    // rows [7,10) keep stale content: exactly what they held before
    for r in 7..10 {
        let expect = (b'A' + r as u8) as char;
        for col in 0..20 {
            assert_eq!(g.char_at(r, col), Some(expect));
        }
    }
    assert_eq!(g.damage_count(), 1);
    assert_eq!(g.damage_at(0), Damage::VerticalScroll { to: 2, from: 5, height: 5 });
}

#[test]
fn scroll_down_stops_at_the_top_boundary() {
    let mut s = NvimState::new();
    s.grid_resize(1, 4, 8);
    fill_rows(&mut s, 1, 4, 8);
    let _ = s.take_damages(1);
    s.grid_scroll(1, 0, 6, 0, 4, -2, 0);
    let g = s.get_grid(1).unwrap();
    // rows [2,6) took the content of rows [0,4); rows [0,2) keep stale content
    for r in 2..6 {
        let expect = (b'A' + (r - 2) as u8) as char;
        assert_eq!(g.char_at(r, 0), Some(expect));
    }
    for r in 0..2 {
        let expect = (b'A' + r as u8) as char;
        assert_eq!(g.char_at(r, 0), Some(expect));
    }
    assert_eq!(g.damage_count(), 1);
    assert_eq!(g.damage_at(0), Damage::VerticalScroll { to: 2, from: 0, height: 4 });
}

#[test]
fn cursor_goto_damages_the_old_cell() {
    let mut s = NvimState::new();
    s.grid_resize(1, 10, 5);
    let _ = s.take_damages(1);
    s.grid_cursor_goto(1, 2, 3);
    s.grid_cursor_goto(1, 4, 4);
    let g = s.get_grid(1).unwrap();
    assert_eq!(g.get_cursor_pos(), (4, 4));
    assert_eq!(g.damage_count(), 2);
    assert_eq!(g.damage_at(0), Damage::Cell { row: 0, column: 0, width: 1, height: 1 });
    assert_eq!(g.damage_at(1), Damage::Cell { row: 2, column: 3, width: 1, height: 1 });
    assert!(s.has_moved_since_last_message());
}

#[test]
fn cursor_is_reported_clamped_after_a_shrink() {
    let mut s = NvimState::new();
    s.grid_resize(1, 10, 5);
    s.grid_cursor_goto(1, 4, 9);
    s.grid_resize(1, 6, 3);
    let g = s.get_grid(1).unwrap();
    assert_eq!(g.get_cursor_pos(), (2, 5));
}

#[test]
fn destroy_queues_teardown_and_removal_happens_after_the_frame() {
    let mut s = NvimState::new();
    s.grid_resize(1, 8, 4);
    s.grid_destroy(1);
    let g = s.get_grid(1).unwrap();
    assert_eq!(g.damage_at(g.damage_count() - 1), Damage::Destroy);
    let _ = s.take_damages(1);
    s.remove_grid(1);
    assert!(s.get_grid(1).is_none());
}

#[test]
fn default_colors_damage_every_grid_exactly_once() {
    let mut s = NvimState::new();
    s.grid_resize(1, 8, 4);
    s.grid_resize(2, 5, 3);
    s.grid_resize(3, 2, 2);
    let _ = s.take_damages(1);
    let _ = s.take_damages(2);
    let _ = s.take_damages(3);
    s.default_colors_set(Some(0xffffff), Some(0x000000), None);
    for (id, w, h) in [(1u64, 8usize, 4usize), (2, 5, 3), (3, 2, 2)] {
        let g = s.get_grid(id).unwrap();
        assert_eq!(g.damage_count(), 1);
        assert_eq!(g.damage_at(0), Damage::Cell { row: 0, column: 0, width: w, height: h });
    }
    let attr = s.get_hl_attr(0).unwrap();
    assert_eq!(attr.foreground.unwrap(), nwin::color_from_rgb_value(0xffffff));
    assert_eq!(attr.background.unwrap(), nwin::color_from_rgb_value(0x000000));
    assert!(attr.special.is_none());
}

#[test]
fn messages_show_and_autoclear_only_after_movement() {
    let mut s = NvimState::new();
    s.grid_resize(1, 8, 4);
    s.msg_show("echo", &vec![(0u64, String::from("hello"))], false, 1000);
    assert_eq!(s.message_count(), 1);
    assert_eq!(s.message_content_at(0).as_str(), "hello");
    assert_eq!(s.message_attr_at(0), 0);
    // not yet moved: never cleared, however long it has been shown
    s.autoclear_messages(10_000);
    assert_eq!(s.message_count(), 1);
    s.grid_cursor_goto(1, 0, 0);
    // moved, but not three seconds yet
    s.autoclear_messages(1000 + 3000);
    assert_eq!(s.message_count(), 1);
    s.autoclear_messages(1000 + 3001);
    assert_eq!(s.message_count(), 0);
}

#[test]
fn cmdline_show_joins_chunks() {
    let mut s = NvimState::new();
    s.cmdline_show(
        &vec![String::from("wri"), String::from("te"), String::from("!")],
        2,
        ':',
        "",
        0,
        1,
    );
    assert!(s.is_cmdline_shown());
    assert_eq!(s.get_cmdline_content().as_str(), "write!");
    assert_eq!(s.get_cmdline_firstc(), ':');
    assert_eq!(s.get_cmdline_pos(), 2);
    s.cmdline_pos(5, 1);
    assert_eq!(s.get_cmdline_pos(), 5);
    s.cmdline_hide();
    assert!(!s.is_cmdline_shown());
}

#[test]
fn hl_attr_define_merges_only_given_keys() {
    let mut s = NvimState::new();
    s.hl_attr_define(
        5,
        &vec![
            nwin::HlUpdate::Foreground(Some(0x112233)),
            nwin::HlUpdate::Bold(true),
            nwin::HlUpdate::Unknown,
        ],
    );
    {
        let a = s.get_hl_attr(5).unwrap();
        assert_eq!(a.foreground.unwrap(), nwin::color_from_rgb_value(0x112233));
        assert!(a.bold);
        assert!(!a.italic);
        assert!(a.background.is_none());
    }
    // a later definition touches only its own keys
    s.hl_attr_define(5, &vec![nwin::HlUpdate::Italic(true)]);
    {
        let a = s.get_hl_attr(5).unwrap();
        assert!(a.bold);
        assert!(a.italic);
        assert_eq!(a.foreground.unwrap(), nwin::color_from_rgb_value(0x112233));
    }
    // blend arrives as the protocol's integer and keeps its low byte
    s.hl_attr_define(5, &vec![nwin::HlUpdate::Blend(258)]);
    assert_eq!(s.get_hl_attr(5).unwrap().blend, 2);
}

#[test]
fn grid_ids_lists_each_grid_once() {
    let mut s = NvimState::new();
    s.grid_resize(3, 1, 1);
    s.grid_resize(1, 1, 1);
    s.grid_resize(2, 1, 1);
    s.grid_resize(1, 2, 2);
    let mut ids = s.grid_ids();
    ids.sort();
    assert_eq!(ids, vec![1, 2, 3]);
}

#[test]
fn resize_to_zero_rows_reports_zero_width() {
    let mut s = NvimState::new();
    s.grid_resize(1, 10, 4);
    s.grid_resize(1, 10, 0);
    let g = s.get_grid(1).unwrap();
    assert_eq!(g.get_height(), 0);
    assert_eq!(g.get_width(), 0);
    assert_eq!(g.get_cursor_pos(), (0, 0));
}

#[test]
fn scroll_of_zero_rows_changes_nothing() {
    let mut s = NvimState::new();
    s.grid_resize(1, 4, 4);
    fill_rows(&mut s, 1, 4, 4);
    let _ = s.take_damages(1);
    s.grid_scroll(1, 0, 4, 0, 4, 0, 0);
    let g = s.get_grid(1).unwrap();
    assert_eq!(g.damage_count(), 0);
    assert_eq!(g.char_at(0, 0), Some('A'));
}

#[test]
fn line_with_no_cells_writes_an_empty_span() {
    let mut s = NvimState::new();
    s.grid_resize(1, 4, 2);
    let _ = s.take_damages(1);
    s.grid_line(1, 0, 2, &vec![]);
    let g = s.get_grid(1).unwrap();
    assert_eq!(g.damage_count(), 1);
    assert_eq!(g.damage_at(0), Damage::Cell { row: 0, column: 2, width: 0, height: 1 });
    // rows added by a resize are blank until something writes them
    assert_eq!(g.char_at(0, 2), None);
}

#[test]
fn fresh_grids_start_blank_under_the_default_highlight() {
    let g = nwin::NvimGrid::new(3, 2);
    assert_eq!(g.get_width(), 3);
    assert_eq!(g.get_height(), 2);
    for row in 0..2 {
        for col in 0..3 {
            assert_eq!(g.char_at(row, col), None);
            assert_eq!(g.color_at(row, col), 0);
        }
    }
}

#[test]
fn win_pos_associates_a_grid_with_its_editor_window() {
    let mut s = NvimState::new();
    s.grid_resize(4, 2, 2);
    assert_eq!(s.get_grid(4).unwrap().get_window_id(), 0);
    s.win_pos(4, 1000, 0, 0, 2, 2);
    assert_eq!(s.get_grid(4).unwrap().get_window_id(), 1000);
}
