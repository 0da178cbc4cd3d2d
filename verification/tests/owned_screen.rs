use codex_akram::geometry::Rect;
use codex_akram::keys::{KeyBinding, KeyCode, PagerKeymap};
use codex_akram::owned_screen::{owned_layout, OwnedScreen};
use codex_akram::viewport::{ActiveCellTranscriptKey, CellKind, HistoryCell, HistoryRenderMode};

#[test]
fn bottom_pane_takes_what_it_asks_for() {
    let (canvas, bottom) = owned_layout(Rect::new(0, 0, 80, 24), 5);
    assert_eq!(canvas, Rect::new(0, 0, 80, 19));
    assert_eq!(bottom, Rect::new(0, 19, 80, 5));
}

#[test]
fn bottom_pane_never_exceeds_the_area() {
    let (canvas, bottom) = owned_layout(Rect::new(2, 3, 10, 4), 9);
    assert_eq!(canvas, Rect::new(2, 3, 10, 0));
    assert_eq!(bottom, Rect::new(2, 3, 10, 4));
}

#[test]
fn empty_conversation_shows_the_welcome() {
    let mut screen = OwnedScreen::new(
        PagerKeymap::defaults(),
        false,
        Some(KeyBinding::ctrl(KeyCode::Char('t'))),
        None,
    );
    let frame = screen.prepare_frame(
        Rect::new(0, 0, 80, 24),
        3,
        HistoryRenderMode::Rich,
        None,
        false,
        |_| None,
    );
    assert!(frame.shows_welcome);
    assert_eq!(frame.canvas, Rect::new(0, 0, 80, 21));

    screen.viewport.replace_cells(vec![HistoryCell::new(1, CellKind::Agent, true, false)]);
    let frame = screen.prepare_frame(
        Rect::new(0, 0, 80, 24),
        3,
        HistoryRenderMode::Rich,
        None,
        false,
        |_| None,
    );
    assert!(!frame.shows_welcome);
}

#[test]
fn background_live_tail_is_drawn_over_the_welcome() {
    let mut screen = OwnedScreen::new(PagerKeymap::defaults(), true, None, None);
    let key = ActiveCellTranscriptKey { revision: 4, is_stream_continuation: false, animation_tick: Some(2) };
    let frame = screen.prepare_frame(
        Rect::new(0, 0, 80, 24),
        3,
        HistoryRenderMode::Raw,
        Some(key),
        false,
        |width| Some(vec![format!("width {width}")]),
    );
    assert!(frame.shows_welcome);
    assert!(frame.draws_over);
    assert!(!screen.viewport.dismisses_welcome());

    let frame = screen.prepare_frame(
        Rect::new(0, 0, 80, 24),
        3,
        HistoryRenderMode::Raw,
        Some(key),
        true,
        |_| Some(vec!["Working".to_string()]),
    );
    assert!(!frame.shows_welcome);
    assert!(!frame.draws_over);
}

#[test]
fn startup_warning_is_drawn_over_the_welcome() {
    let mut screen = OwnedScreen::new(PagerKeymap::defaults(), false, None, None);
    screen.viewport.replace_cells(vec![HistoryCell::new(1, CellKind::Warning, false, false)]);
    let frame = screen.prepare_frame(
        Rect::new(0, 0, 40, 6),
        0,
        HistoryRenderMode::Rich,
        None,
        false,
        |_| None,
    );
    assert!(frame.shows_welcome);
    assert!(frame.draws_over);
}

#[test]
fn empty_conversation_draws_nothing_over_the_welcome() {
    let mut screen = OwnedScreen::new(PagerKeymap::defaults(), false, None, None);
    let frame = screen.prepare_frame(
        Rect::new(0, 0, 40, 6),
        0,
        HistoryRenderMode::Rich,
        None,
        false,
        |_| None,
    );
    assert!(frame.shows_welcome);
    assert!(!frame.draws_over);
}
