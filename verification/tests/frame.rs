//! The redraw queue's flush boundary, the dispatcher, and the compositor's
//! geometry.

use nwin::Damage;
use nwin::NvimState;
use nwin::RedrawAction;
use nwin::RedrawError;
use nwin::RedrawEvent;
use nwin::RedrawQueue;
use nwin::apply_redraw_event;

#[test]
fn events_wait_until_their_flush_arrives() {
    let mut q = RedrawQueue::new();
    let drained = q.push_batch(vec![
        RedrawEvent::GridResize { grid: 1, width: 8, height: 4 },
        RedrawEvent::BusyStart,
    ]);
    assert!(drained.is_none());
    assert_eq!(q.len(), 2);
}

#[test]
fn a_flush_hands_back_everything_before_it() {
    let mut q = RedrawQueue::new();
    let _ = q.push_batch(vec![RedrawEvent::BusyStart]);
    let drained = q
        .push_batch(vec![
            RedrawEvent::GridResize { grid: 1, width: 8, height: 4 },
            RedrawEvent::Flush,
            RedrawEvent::BusyStop,
        ])
        .unwrap();
    // the buffered event and the one before the flush come out, in order;
    // the flush marker itself and what follows it stay queued
    assert_eq!(drained.len(), 2);
    assert!(matches!(drained[0], RedrawEvent::BusyStart));
    assert!(matches!(drained[1], RedrawEvent::GridResize { .. }));
    assert_eq!(q.len(), 2);
}

#[test]
fn the_last_flush_of_a_batch_wins() {
    let mut q = RedrawQueue::new();
    let drained = q
        .push_batch(vec![
            RedrawEvent::BusyStart,
            RedrawEvent::Flush,
            RedrawEvent::BusyStop,
            RedrawEvent::Flush,
            RedrawEvent::MsgClear,
        ])
        .unwrap();
    assert_eq!(drained.len(), 3);
    assert_eq!(q.len(), 2);
}

#[test]
fn resize_then_flush_leaves_one_damage_then_none_after_compositing() {
    let mut s = NvimState::new();
    let mut q = RedrawQueue::new();
    let drained = q
        .push_batch(vec![
            RedrawEvent::GridResize { grid: 2, width: 12, height: 6 },
            RedrawEvent::Flush,
        ])
        .unwrap();
    for e in &drained {
        let r = apply_redraw_event(&mut s, e, 0);
        assert_eq!(r, Ok(RedrawAction::Done));
    }
    // exactly one damage rectangle, covering the new rows, before compositing
    {
        let g = s.get_grid(2).unwrap();
        assert_eq!(g.damage_count(), 1);
        assert_eq!(g.damage_at(0), Damage::Cell { row: 0, column: 0, width: 12, height: 6 });
    }
    // and none after one compositing pass drained the queue
    let replayed = s.take_damages(2);
    assert_eq!(replayed.len(), 1);
    assert_eq!(s.get_grid(2).unwrap().damage_count(), 0);
}

#[test]
fn dispatcher_routes_window_instructions_to_the_shell() {
    let mut s = NvimState::new();
    let r = apply_redraw_event(
        &mut s,
        &RedrawEvent::WinSplit {
            win1: 1000,
            grid1: 2,
            win2: 1001,
            grid2: 3,
            direction: nwin::SplitDirection::Below,
        },
        0,
    );
    assert_eq!(
        r,
        Ok(RedrawAction::SwaySplit { grid: 2, direction: nwin::SplitDirection::Below })
    );
    let r = apply_redraw_event(&mut s, &RedrawEvent::WinHide { win: 4 }, 0);
    assert_eq!(r, Ok(RedrawAction::SwayHide { win: 4 }));
}

#[test]
fn dispatcher_rejects_what_the_store_cannot_apply() {
    let mut s = NvimState::new();
    let r = apply_redraw_event(&mut s, &RedrawEvent::GridDestroy { grid: 9 }, 0);
    assert_eq!(r, Err(RedrawError::UnknownGrid));
    let r = apply_redraw_event(
        &mut s,
        &RedrawEvent::GridLine { grid: 9, row: 0, col_start: 0, cells: vec![] },
        0,
    );
    assert_eq!(r, Err(RedrawError::UnknownGrid));
    s.grid_resize(9, 4, 2);
    let r = apply_redraw_event(
        &mut s,
        &RedrawEvent::GridLine {
            grid: 9,
            row: 0,
            col_start: 0,
            cells: vec![nwin::LineCell { text: Some('x'), hl: None, repeat: Some(5) }],
        },
        0,
    );
    assert_eq!(r, Err(RedrawError::LineOutOfBounds));
    let r = apply_redraw_event(
        &mut s,
        &RedrawEvent::GridScroll { grid: 9, top: 0, bot: 2, left: 0, right: 4, rows: 1, cols: 1 },
        0,
    );
    assert_eq!(r, Err(RedrawError::ColumnScrollUnsupported));
    let r = apply_redraw_event(
        &mut s,
        &RedrawEvent::GridScroll { grid: 9, top: 0, bot: 2, left: 0, right: 9, rows: 1, cols: 0 },
        0,
    );
    assert_eq!(r, Err(RedrawError::ScrollOutOfBounds));
}

#[test]
fn dispatcher_applies_state_events() {
    let mut s = NvimState::new();
    let r = apply_redraw_event(&mut s, &RedrawEvent::BusyStart, 0);
    assert_eq!(r, Ok(RedrawAction::Done));
    assert!(!s.is_cursor_on());
    let r = apply_redraw_event(&mut s, &RedrawEvent::BusyStop, 0);
    assert_eq!(r, Ok(RedrawAction::Done));
    assert!(s.is_cursor_on());
    let r = apply_redraw_event(
        &mut s,
        &RedrawEvent::MsgShow {
            kind: String::from("echo"),
            content: vec![(0, String::from("hi"))],
            replace_last: false,
        },
        777,
    );
    assert_eq!(r, Ok(RedrawAction::Done));
    assert_eq!(s.message_count(), 1);
    assert_eq!(s.get_message_time(), 777);
}

#[test]
fn window_layout_centers_the_leftover_pixels() {
    let l = nwin::window_layout(805, 603, 8, 16);
    assert_eq!(l.col_count, 100);
    assert_eq!(l.row_count, 37);
    assert_eq!(l.x_offset, 2);
    assert_eq!(l.y_offset, 5);
}

#[test]
fn cell_origin_steps_by_font_size_from_the_offset() {
    let (x, y) = nwin::cell_origin(2, 5, 3, 10, 8, 16);
    assert_eq!(x, 2 + 10 * 8);
    assert_eq!(y, 5 + 3 * 16);
}

#[test]
fn damage_is_clipped_to_the_grid() {
    assert_eq!(nwin::clip_extent(3, 4, 10), 7);
    assert_eq!(nwin::clip_extent(8, 4, 10), 10);
    assert_eq!(nwin::clip_extent(12, 0, 10), 10);
}

#[test]
fn band_height_and_backup_extent() {
    assert_eq!(nwin::band_height(5, 16), 80);
    assert_eq!(nwin::band_height(5, 0), 0);
    assert_eq!(nwin::backup_extent(800, 600, 640, 700), (640, 600));
}

#[test]
fn frame_budget_subtracts_elapsed_time() {
    assert_eq!(nwin::frame_time_left(60, 3), 13);
    assert_eq!(nwin::frame_time_left(60, 20), -4);
    assert_eq!(nwin::frame_time_left(1000, 0), 1);
}

#[test]
fn colors_unpack_from_the_protocol_integer() {
    let c = nwin::color_from_rgb_value(0xff8001);
    assert_eq!((c.r, c.g, c.b), (255, 128, 1));
    let c = nwin::color_from_rgb_value(0);
    assert_eq!((c.r, c.g, c.b), (0, 0, 0));
}

#[test]
fn highlight_colors_resolve_with_reverse_swapping() {
    let mut a = nwin::NvimHighlightAttribute::new();
    let white = nwin::color_from_rgb_value(0xffffff);
    let black = nwin::color_from_rgb_value(0);
    assert_eq!(a.resolve_colors(Some(white), Some(black)), Some((white, black)));
    a.reverse = true;
    assert_eq!(a.resolve_colors(Some(white), Some(black)), Some((black, white)));
    a.reverse = false;
    let red = nwin::color_from_rgb_value(0xff0000);
    a.foreground = Some(red);
    assert_eq!(a.resolve_colors(Some(white), Some(black)), Some((red, black)));
    assert_eq!(a.resolve_colors(None, Some(black)), Some((red, black)));
    a.foreground = None;
    assert_eq!(a.resolve_colors(None, Some(black)), None);
    assert_eq!(a.cursor_color(Some(white)), Some(white));
    a.foreground = Some(red);
    assert_eq!(a.cursor_color(Some(white)), Some(red));
}

#[test]
fn window_handles_unpack_from_their_wire_shape() {
    assert_eq!(nwin::decode_window_handle(1, &vec![0xCD, 0x03, 0xE8]), Some(1000));
    assert_eq!(nwin::decode_window_handle(1, &vec![0xCD, 0x00, 0x01]), Some(1));
    // wrong extension type, wrong marker, wrong length: all rejected
    assert_eq!(nwin::decode_window_handle(2, &vec![0xCD, 0x03, 0xE8]), None);
    assert_eq!(nwin::decode_window_handle(1, &vec![0xCC, 0x03, 0xE8]), None);
    assert_eq!(nwin::decode_window_handle(1, &vec![0xCD, 0x03]), None);
}

#[test]
fn scroll_bands_start_at_their_row_origin() {
    assert_eq!(nwin::band_origin_y(5, 3, 16), 5 + 3 * 16);
    assert_eq!(nwin::band_origin_y(0, 0, 16), 0);
}
