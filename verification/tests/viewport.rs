use codex_akram::keys::PagerKeymap;
use codex_akram::geometry::Rect;
use codex_akram::text::lines_of;
use codex_akram::viewport::{
    is_session_metadata, owned_user_body_width, row_window, spaced_rows, visible_cells,
    owned_user_message_rows, visible_lines, window_top, ActiveCellTranscriptKey, CellKind,
    ConversationViewport, HistoryCell, HistoryRenderMode, ItemBody, ScrollDirection,
};

fn viewport() -> ConversationViewport {
    ConversationViewport::new(HistoryRenderMode::Rich, PagerKeymap::defaults())
}

fn cell(id: u64, kind: CellKind, dismisses_welcome: bool) -> HistoryCell {
    HistoryCell::new(id, kind, dismisses_welcome, false)
}

#[test]
fn metadata_does_not_make_the_owned_canvas_nonempty() {
    let mut viewport = viewport();
    let metadata = cell(1, CellKind::SessionHeader, false);

    viewport.replace_cells(vec![metadata]);

    assert!(viewport.is_empty());
}

#[test]
fn meaningful_conversation_hides_the_welcome() {
    let mut viewport = viewport();
    let message = cell(1, CellKind::Agent, true);

    viewport.replace_cells(vec![message]);

    assert!(!viewport.is_empty());
    assert!(viewport.dismisses_welcome());
}

#[test]
fn startup_warning_does_not_hide_the_welcome() {
    let mut viewport = viewport();
    let warning = cell(1, CellKind::Warning, false);

    viewport.replace_cells(vec![warning]);

    assert!(!viewport.is_empty());
    assert!(!viewport.dismisses_welcome());
}

#[test]
fn background_live_tail_does_not_hide_the_welcome() {
    let mut viewport = viewport();
    let key = ActiveCellTranscriptKey {
        revision: 1,
        is_stream_continuation: false,
        animation_tick: None,
    };

    viewport.sync_live_tail(80, Some(key), false, |_| {
        Some(vec!["Starting MCP servers".to_string()])
    });

    assert!(!viewport.is_empty());
    assert!(!viewport.dismisses_welcome());

    viewport.sync_live_tail(80, Some(key), true, |_| Some(vec!["Working".to_string()]));

    assert!(viewport.dismisses_welcome());
}

fn key(revision: u64) -> ActiveCellTranscriptKey {
    ActiveCellTranscriptKey { revision, is_stream_continuation: false, animation_tick: None }
}

#[test]
fn session_info_is_metadata_too() {
    assert!(is_session_metadata(&cell(1, CellKind::SessionInfo, false)));
    assert!(!is_session_metadata(&cell(1, CellKind::User, false)));
}

#[test]
fn metadata_is_left_out_between_cells() {
    let mut viewport = viewport();
    viewport.replace_cells(vec![
        cell(1, CellKind::User, true),
        cell(2, CellKind::SessionInfo, false),
        cell(3, CellKind::Agent, true),
    ]);
    let ids: Vec<u64> = viewport.cells().iter().map(|c| c.id).collect();
    assert_eq!(ids, vec![1, 3]);
    let spacing: Vec<bool> =
        viewport.content().items().iter().map(|item| item.leading_spacing).collect();
    assert_eq!(spacing, vec![false, true]);
}

#[test]
fn stream_continuations_are_not_spaced() {
    let mut viewport = viewport();
    viewport.replace_cells(vec![
        cell(1, CellKind::Agent, true),
        HistoryCell::new(2, CellKind::Agent, true, true),
    ]);
    let spacing: Vec<bool> =
        viewport.content().items().iter().map(|item| item.leading_spacing).collect();
    assert_eq!(spacing, vec![false, false]);
}

#[test]
fn live_tail_is_computed_only_when_its_key_changes() {
    let mut viewport = viewport();
    let mut calls = 0;
    viewport.sync_live_tail(80, Some(key(1)), false, |_| {
        calls += 1;
        Some(vec!["a".to_string()])
    });
    viewport.sync_live_tail(80, Some(key(1)), false, |_| {
        calls += 1;
        Some(vec!["b".to_string()])
    });
    assert_eq!(calls, 1);
    viewport.sync_live_tail(81, Some(key(1)), false, |_| {
        calls += 1;
        Some(vec!["c".to_string()])
    });
    assert_eq!(calls, 2);
    assert_eq!(viewport.content().len(), 1);
    match &viewport.content().items()[0].body {
        ItemBody::LiveTail(tail) => assert_eq!(tail.lines, vec!["c".to_string()]),
        ItemBody::Cell(_) => panic!("expected the live tail"),
    }
}

#[test]
fn empty_live_tail_is_not_shown_and_does_not_dismiss() {
    let mut viewport = viewport();
    viewport.sync_live_tail(80, Some(key(1)), true, |_| Some(Vec::new()));
    assert!(viewport.is_empty());
    assert!(!viewport.dismisses_welcome());
    viewport.sync_live_tail(80, Some(key(2)), true, |_| None);
    assert!(viewport.is_empty());
}

#[test]
fn live_tail_goes_away_without_an_active_cell() {
    let mut viewport = viewport();
    viewport.replace_cells(vec![cell(1, CellKind::Agent, false)]);
    viewport.sync_live_tail(80, Some(key(1)), true, |_| Some(vec!["x".to_string()]));
    assert_eq!(viewport.content().len(), 2);
    assert!(viewport.content().items()[1].leading_spacing);
    assert!(viewport.dismisses_welcome());
    viewport.sync_live_tail(80, None, false, |_| panic!("no active cell to render"));
    assert_eq!(viewport.content().len(), 1);
    assert!(!viewport.dismisses_welcome());
}

#[test]
fn replacing_with_the_same_cells_keeps_the_live_tail() {
    let mut viewport = viewport();
    let cells = vec![cell(1, CellKind::Agent, false), cell(2, CellKind::SessionHeader, false)];
    viewport.replace_cells(cells.clone());
    viewport.sync_live_tail(80, Some(key(1)), false, |_| Some(vec!["x".to_string()]));
    viewport.replace_cells_if_changed(&cells);
    assert_eq!(viewport.content().len(), 2);
    viewport.replace_cells_if_changed(&vec![cell(3, CellKind::Agent, false)]);
    assert_eq!(viewport.content().len(), 1);
    assert_eq!(viewport.cells()[0].id, 3);
}

#[test]
fn switching_render_mode_drops_the_live_tail() {
    let mut viewport = viewport();
    viewport.replace_cells(vec![cell(1, CellKind::Agent, false)]);
    viewport.sync_live_tail(80, Some(key(1)), false, |_| Some(vec!["x".to_string()]));
    viewport.set_render_mode(HistoryRenderMode::Rich);
    assert_eq!(viewport.content().len(), 2);
    viewport.set_render_mode(HistoryRenderMode::Raw);
    assert_eq!(viewport.content().len(), 1);
    match &viewport.content().items()[0].body {
        ItemBody::Cell(c) => assert_eq!(c.render_mode, HistoryRenderMode::Raw),
        ItemBody::LiveTail(_) => panic!("expected a cell"),
    }
    let mut calls = 0;
    viewport.sync_live_tail(80, Some(key(1)), false, |_| {
        calls += 1;
        Some(vec!["x".to_string()])
    });
    assert_eq!(calls, 1);
}

#[test]
fn scrolling_moves_three_rows_and_back() {
    let mut viewport = viewport();
    assert!(viewport.content().is_following_bottom());
    viewport.scroll(ScrollDirection::Up);
    assert!(!viewport.content().is_following_bottom());
    viewport.scroll(ScrollDirection::Down);
    assert!(viewport.content().is_following_bottom());
    viewport.scroll(ScrollDirection::Down);
    assert!(viewport.content().is_following_bottom());
}

#[test]
fn cell_heights_are_cached_per_width() {
    let mut viewport = viewport();
    viewport.replace_cells(vec![cell(1, CellKind::Agent, false)]);
    let mut calls = 0;
    assert_eq!(viewport.item_height(0, 40, |_| { calls += 1; 7 }), 7);
    assert_eq!(viewport.item_height(0, 40, |_| { calls += 1; 9 }), 7);
    assert_eq!(calls, 1);
    assert_eq!(viewport.item_height(0, 30, |_| { calls += 1; 9 }), 9);
    assert_eq!(calls, 2);
}

#[test]
fn user_body_width_leaves_room_for_the_rail() {
    assert_eq!(owned_user_body_width(20), 15);
    assert_eq!(owned_user_body_width(5), 1);
    assert_eq!(owned_user_body_width(0), 1);
    assert_eq!("│  ".len(), 5);
}

#[test]
fn spaced_items_are_one_row_taller() {
    let mut viewport = viewport();
    viewport.replace_cells(vec![cell(1, CellKind::Agent, false), cell(2, CellKind::Agent, false)]);
    assert_eq!(viewport.item_height(0, 40, |_| 4), 4);
    assert_eq!(viewport.item_height(1, 40, |_| 4), 5);
    assert_eq!(viewport.item_height(1, 40, |_| panic!("height is remembered")), 5);
    viewport.sync_live_tail(40, Some(key(1)), false, |_| Some(vec!["x".to_string()]));
    assert_eq!(viewport.item_height(2, 40, |_| 2), 3);
    assert_eq!(viewport.item_height(2, 40, |_| 1), 2);
}

#[test]
fn spaced_rows_put_a_blank_row_first() {
    assert_eq!(spaced_rows(true, vec!["a", "b"], ""), vec!["", "a", "b"]);
    assert_eq!(spaced_rows(false, vec!["a", "b"], ""), vec!["a", "b"]);
}

#[test]
fn row_window_is_bottom_aligned() {
    let window = row_window(&vec![3, 2, 4], 0, 5).unwrap();
    assert_eq!((window.start, window.end), (4, 9));
    assert_eq!(window.item_starts, vec![0, 3, 5]);
    let window = row_window(&vec![3, 2, 4], 3, 5).unwrap();
    assert_eq!((window.start, window.end), (1, 6));
    let window = row_window(&vec![3, 2, 4], 100, 5).unwrap();
    assert_eq!((window.start, window.end), (0, 0));
    let window = row_window(&vec![1], 0, 5).unwrap();
    assert_eq!((window.start, window.end), (0, 1));
    assert_eq!(window_top(Rect::new(0, 2, 10, 6), 1), 7);
}

#[test]
fn visible_cells_leave_out_metadata() {
    let cells = vec![
        cell(1, CellKind::SessionHeader, false),
        cell(2, CellKind::User, false),
        cell(3, CellKind::SessionInfo, false),
    ];
    let ids: Vec<u64> = visible_cells(&cells).iter().map(|c| c.id).collect();
    assert_eq!(ids, vec![2]);
}

#[test]
fn visible_lines_cut_items_to_the_window() {
    let window = row_window(&vec![3, 2, 4], 0, 5).unwrap();
    assert_eq!((window.start, window.end), (4, 9));
    assert_eq!(visible_lines(&window, 0, 3), (0, 0));
    assert_eq!(visible_lines(&window, 3, 2), (1, 2));
    assert_eq!(visible_lines(&window, 5, 4), (0, 4));
    assert_eq!(visible_lines(&window, 9, 4), (0, 0));
    assert_eq!(visible_lines(&window, 2, 10), (2, 7));
}

#[test]
fn switching_render_mode_forgets_measured_heights() {
    let mut viewport = viewport();
    viewport.replace_cells(vec![cell(1, CellKind::Agent, false)]);
    assert_eq!(viewport.item_height(0, 40, |_| 7), 7);
    assert_eq!(viewport.item_height(0, 40, |_| panic!("height is remembered")), 7);
    viewport.set_render_mode(HistoryRenderMode::Rich);
    assert_eq!(viewport.item_height(0, 40, |_| panic!("height is remembered")), 7);
    viewport.set_render_mode(HistoryRenderMode::Raw);
    assert_eq!(viewport.item_height(0, 40, |_| 3), 3);
}

#[test]
fn replacing_cells_forgets_measured_heights() {
    let mut viewport = viewport();
    viewport.replace_cells(vec![cell(1, CellKind::Agent, false)]);
    assert_eq!(viewport.item_height(0, 40, |_| 7), 7);
    viewport.replace_cells(vec![cell(1, CellKind::Agent, false)]);
    assert_eq!(viewport.item_height(0, 40, |_| 5), 5);
    viewport.replace_cells_if_changed(&vec![cell(1, CellKind::Agent, false)]);
    assert_eq!(viewport.item_height(0, 40, |_| panic!("height is remembered")), 5);
}

#[test]
fn user_message_rows_wrap_each_line_beside_the_rail() {
    assert_eq!(
        owned_user_message_rows("alpha beta gamma", 14),
        vec!["alpha", "beta", "gamma"]
    );
    assert_eq!(owned_user_message_rows("one\r\ntwo\n\nthree\n", 40), vec!["one", "two", "", "three"]);
    assert_eq!(owned_user_message_rows("", 40), Vec::<String>::new());
}

#[test]
fn message_lines_follow_str_lines() {
    assert_eq!(lines_of("foo\r\nbar\n\nbaz\r"), vec!["foo", "bar", "", "baz\r"]);
    assert_eq!(lines_of("a\n"), vec!["a"]);
    assert_eq!(lines_of("\n"), vec![""]);
    assert_eq!(lines_of(""), Vec::<String>::new());
}
