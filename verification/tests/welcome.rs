use codex_akram::geometry::{centered_rect, circular_width, Rect};
use codex_akram::keys::{KeyBinding, KeyCode, KeyModifiers};
use codex_akram::welcome::{
    compact_key_label, display_label, stable_noise_bits, welcome_key_label, welcome_layout,
    SolWelcome, WelcomeLayout,
};

#[test]
fn centered_rect_stays_within_parent() {
    assert_eq!(
        centered_rect(Rect::new(10, 5, 20, 10), 8, 4),
        Rect::new(16, 8, 8, 4)
    );
    assert_eq!(
        centered_rect(Rect::new(2, 3, 5, 4), 20, 10),
        Rect::new(2, 3, 5, 4)
    );
}

#[test]
fn globe_width_compensates_for_terminal_cell_aspect_ratio() {
    assert_eq!(circular_width(20, 100), 40);
    assert_eq!(circular_width(20, 32), 32);
}

#[test]
fn welcome_shortcuts_use_compact_title_case_labels() {
    assert_eq!(
        welcome_key_label(KeyBinding::ctrl(KeyCode::Char('t'))),
        "Ctrl+T".to_string()
    );
}

#[test]
fn rect_new_cuts_size_at_the_coordinate_limit() {
    let r = Rect::new(u16::MAX - 3, u16::MAX - 1, 10, 10);
    assert_eq!(r.width, 3);
    assert_eq!(r.height, 1);
    assert_eq!(r.right(), u16::MAX);
    assert!(Rect::new(1, 2, 0, 4).is_empty());
    assert_eq!(Rect::new(1, 2, 3, 4).bottom(), 6);
}

#[test]
fn centered_rect_splits_odd_room_toward_the_far_side() {
    let r = centered_rect(Rect::new(0, 0, 9, 5), 4, 2);
    assert_eq!(r, Rect::new(2, 1, 4, 2));
}

#[test]
fn circle_width_saturates() {
    assert_eq!(circular_width(u16::MAX, u16::MAX), u16::MAX);
    assert_eq!(circular_width(0, 10), 0);
}

#[test]
fn wide_area_puts_copy_beside_the_globe() {
    let area = Rect::new(0, 0, 100, 30);
    assert_eq!(
        welcome_layout(area),
        WelcomeLayout::Wide {
            globe: Rect::new(8, 5, 40, 20),
            copy: Rect::new(52, 10, 40, 10),
        }
    );
}

#[test]
fn middle_area_stacks_copy_below_the_globe() {
    let area = Rect::new(0, 0, 60, 20);
    assert_eq!(
        welcome_layout(area),
        WelcomeLayout::Stacked {
            globe: Rect::new(20, 0, 20, 10),
            copy: Rect::new(10, 11, 40, 9),
        }
    );
}

#[test]
fn small_area_shows_only_the_copy() {
    assert_eq!(
        welcome_layout(Rect::new(0, 0, 30, 10)),
        WelcomeLayout::CopyOnly { copy: Rect::new(0, 0, 30, 9) }
    );
    assert_eq!(welcome_layout(Rect::new(3, 3, 0, 10)), WelcomeLayout::Hidden);
}

#[test]
fn display_labels_list_modifiers_first() {
    let binding = KeyBinding {
        key: KeyCode::Enter,
        modifiers: KeyModifiers { ctrl: true, alt: true, shift: true },
    };
    assert_eq!(display_label(binding), "ctrl + shift + alt + enter");
    assert_eq!(display_label(KeyBinding::plain(KeyCode::Char('Q'))), "q");
    assert_eq!(display_label(KeyBinding::plain(KeyCode::Char(' '))), "space");
}

#[test]
fn compact_labels_capitalise_each_part() {
    assert_eq!(compact_key_label("ctrl + shift + enter"), "Ctrl+Shift+enter");
    assert_eq!(compact_key_label("alt + x"), "Alt+X");
    assert_eq!(compact_key_label("?"), "?");
    assert_eq!(compact_key_label(""), "");
    assert_eq!(compact_key_label("ctrl + "), "Ctrl+");
    assert_eq!(compact_key_label("é"), "É");
}

#[test]
fn welcome_copy_falls_back_to_default_labels() {
    let welcome = SolWelcome::new(false, None, None);
    assert_eq!(welcome.history_label(), "Ctrl+T");
    assert_eq!(welcome.shortcuts_label(), "?");
    let welcome = SolWelcome::new(
        true,
        Some(KeyBinding::ctrl(KeyCode::Char('h'))),
        Some(KeyBinding::plain(KeyCode::Char('?'))),
    );
    assert_eq!(welcome.history_label(), "Ctrl+H");
    assert_eq!(welcome.shortcuts_label(), "?");
    assert!(welcome.wants_next_frame(Rect::new(0, 0, 10, 10)));
    assert!(!welcome.wants_next_frame(Rect::new(0, 0, 0, 10)));
}

#[test]
fn stable_noise_bits_are_stable() {
    assert_eq!(stable_noise_bits(17, 29), stable_noise_bits(17, 29));
    assert_eq!(stable_noise_bits(17, 29), 55471);
    assert_eq!(stable_noise_bits(0, 0), 0);
    assert_eq!(stable_noise_bits(1, 0), 41578);
}

#[test]
fn stable_noise_is_stable_and_bounded() {
    let noise = |x: u16, y: u16| f32::from(stable_noise_bits(x, y)) / f32::from(u16::MAX);
    let value = noise(17, 29);
    assert_eq!(value, noise(17, 29));
    assert!((0.0..=1.0).contains(&value));
}

#[test]
fn compact_label_of_joined_parts_joins_compact_parts() {
    assert_eq!(compact_key_label("ctrl + shift + t"), "Ctrl+Shift+T");
    let joined = compact_key_label("page up + x");
    assert_eq!(joined, format!("{}+{}", compact_key_label("page up"), compact_key_label("x")));
}
