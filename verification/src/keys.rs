//! Key bindings: the key and modifiers of a binding, the label that key hints
//! show for it, and the bindings of the pager.

use vstd::prelude::*;

verus! {

/// A key, as far as key hints name it.
#[derive(Clone, Copy, Debug, PartialEq, Eq, Structural)]
pub enum KeyCode {
    Char(char),
    Enter,
    Esc,
    Tab,
    Backspace,
    Up,
    Down,
    Left,
    Right,
    Home,
    End,
    PageUp,
    PageDown,
}

/// Modifier keys held with a key.
#[derive(Clone, Copy, Debug, PartialEq, Eq, Structural)]
pub struct KeyModifiers {
    pub ctrl: bool,
    pub alt: bool,
    pub shift: bool,
}

/// A key with its modifiers.
#[derive(Clone, Copy, Debug, PartialEq, Eq, Structural)]
pub struct KeyBinding {
    pub key: KeyCode,
    pub modifiers: KeyModifiers,
}

/// `key` without modifiers.
pub open spec fn plain_key(key: KeyCode) -> KeyBinding {
    KeyBinding { key, modifiers: KeyModifiers { ctrl: false, alt: false, shift: false } }
}

impl KeyBinding {
    /// A key without modifiers.
    pub fn plain(key: KeyCode) -> (r: KeyBinding)
        ensures
            r == (KeyBinding { key, modifiers: KeyModifiers { ctrl: false, alt: false, shift: false } }),
    {
        KeyBinding { key, modifiers: KeyModifiers { ctrl: false, alt: false, shift: false } }
    }

    /// The key with Ctrl held.
    pub fn ctrl(key: KeyCode) -> (r: KeyBinding)
        ensures
            r == (KeyBinding { key, modifiers: KeyModifiers { ctrl: true, alt: false, shift: false } }),
    {
        KeyBinding { key, modifiers: KeyModifiers { ctrl: true, alt: false, shift: false } }
    }
}

/// The bindings that move the pager.
#[derive(Clone, Copy, Debug, PartialEq, Eq, Structural)]
pub struct PagerKeymap {
    pub scroll_up: KeyBinding,
    pub scroll_down: KeyBinding,
    pub page_up: KeyBinding,
    pub page_down: KeyBinding,
    pub jump_top: KeyBinding,
    pub jump_bottom: KeyBinding,
}

impl PagerKeymap {
    /// The default pager bindings: arrows scroll by a line, Page Up and Page
    /// Down by a page, Home and End jump to either end.
    pub fn defaults() -> (r: PagerKeymap)
        ensures
            r == (PagerKeymap {
                scroll_up: plain_key(KeyCode::Up),
                scroll_down: plain_key(KeyCode::Down),
                page_up: plain_key(KeyCode::PageUp),
                page_down: plain_key(KeyCode::PageDown),
                jump_top: plain_key(KeyCode::Home),
                jump_bottom: plain_key(KeyCode::End),
            }),
    {
        PagerKeymap {
            scroll_up: KeyBinding::plain(KeyCode::Up),
            scroll_down: KeyBinding::plain(KeyCode::Down),
            page_up: KeyBinding::plain(KeyCode::PageUp),
            page_down: KeyBinding::plain(KeyCode::PageDown),
            jump_top: KeyBinding::plain(KeyCode::Home),
            jump_bottom: KeyBinding::plain(KeyCode::End),
        }
    }
}

} // verus!
