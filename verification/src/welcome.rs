//! The empty-session welcome of the application-owned full screen: where the
//! globe and the copy go for an area, the key labels the copy shows, and the
//! stable per-cell noise that thins the globe.

use vstd::prelude::*;
use crate::geometry::{
    Rect, circular_width, centered_rect, max16, max_u16, min16, min_u16, rect, sat_add, sat_sub,
    spec_centered_rect, spec_circular_width,
};
use crate::keys::{KeyBinding, KeyCode, KeyModifiers};
use crate::text::{chars_of, slice_chars, string_from_chars};

verus! {

/// Narrowest area that shows the globe beside the copy.
pub const WIDE_MIN_WIDTH: u16 = 92;

/// Lowest area that shows the globe beside the copy.
pub const WIDE_MIN_HEIGHT: u16 = 22;

/// Narrowest area that shows the globe above the copy.
pub const STACKED_MIN_WIDTH: u16 = 48;

/// Lowest area that shows the globe above the copy.
pub const STACKED_MIN_HEIGHT: u16 = 18;

/// Milliseconds between two frames of the globe's animation.
pub const FRAME_INTERVAL_MS: u64 = 80;

/// `std::time::Instant`, held opaque.
#[verifier::external_type_specification]
#[verifier::external_body]
pub struct ExInstant(std::time::Instant);

/// Calls `std::time::Instant::now`. Nothing is claimed of the instant.
#[verifier::external_body]
fn instant_now() -> std::time::Instant {
    std::time::Instant::now()
}

/// Where the welcome draws in an area.
#[derive(Clone, Copy, Debug, PartialEq, Eq, Structural)]
pub enum WelcomeLayout {
    /// The area is empty: nothing is drawn.
    Hidden,
    /// The globe, with the copy to its right.
    Wide { globe: Rect, copy: Rect },
    /// The globe, with the copy below it.
    Stacked { globe: Rect, copy: Rect },
    /// Only the copy.
    CopyOnly { copy: Rect },
}

/// The room left right of the globe in the wide layout.
pub open spec fn wide_parts(area: Rect) -> (Rect, Rect, Rect) {
    let globe_width = spec_circular_width(20, area.width);
    let content = spec_centered_rect(area, (globe_width + 4 + 40) as u16, 20);
    let globe = rect(content.x, content.y, globe_width, 20);
    (content, globe, rect(
        sat_add(globe.spec_right(), 4),
        sat_add(content.y, 5),
        min16(40, sat_sub(content.spec_right(), (globe.spec_right() + 4) as u16)),
        10,
    ))
}

/// The height of the globe in the stacked layout: the area's height less
/// ten rows for the copy, kept within 7 to 13 rows.
pub open spec fn stacked_globe_height(area: Rect) -> u16 {
    min16(max16(sat_sub(area.height, 10), 7), 13)
}

/// The content box, globe and copy of the stacked layout.
pub open spec fn stacked_parts(area: Rect) -> (Rect, Rect, Rect) {
    let globe_height = stacked_globe_height(area);
    let globe_width = spec_circular_width(globe_height, area.width);
    let content = spec_centered_rect(area, max16(globe_width, 40), sat_add(globe_height, 10));
    let globe = rect(
        (content.x + sat_sub(content.width, globe_width) / 2) as u16,
        content.y,
        globe_width,
        globe_height,
    );
    (content, globe, rect(content.x, sat_add(globe.spec_bottom(), 1), content.width, 9))
}

/// Whether a box can be centred in `area` without leaving `u16` coordinates.
pub open spec fn centering_fits(area: Rect, width: u16, height: u16) -> bool {
    &&& area.x + (area.width - min16(width, area.width)) / 2 <= u16::MAX
    &&& area.y + (area.height - min16(height, area.height)) / 2 <= u16::MAX
}

/// Whether the layout of `area` stays within `u16` coordinates, which it does
/// for every area that `Rect::new` builds.
pub open spec fn layout_fits(area: Rect) -> bool {
    if area.width == 0 || area.height == 0 {
        true
    } else if area.width >= WIDE_MIN_WIDTH && area.height >= WIDE_MIN_HEIGHT {
        let globe_width = spec_circular_width(20, area.width);
        &&& centering_fits(area, (globe_width + 4 + 40) as u16, 20)
        &&& wide_parts(area).1.spec_right() + 4 <= u16::MAX
    } else if area.width >= STACKED_MIN_WIDTH && area.height >= STACKED_MIN_HEIGHT {
        let globe_height = stacked_globe_height(area);
        let globe_width = spec_circular_width(globe_height, area.width);
        let content = stacked_parts(area).0;
        &&& centering_fits(area, max16(globe_width, 40), sat_add(globe_height, 10))
        &&& content.x + sat_sub(content.width, globe_width) / 2 <= u16::MAX
    } else {
        centering_fits(area, min16(area.width, 40), 9)
    }
}

/// Every area that ends within `u16` coordinates, as every `Rect::new`
/// builds, lays out without leaving them.
pub proof fn lemma_fitting_areas_lay_out(area: Rect)
    requires
        area.fits(),
    ensures
        layout_fits(area),
{
}

/// The welcome's layout of `area`: nothing in an empty area; the globe beside
/// the copy in a wide one; the globe above the copy in a tall enough one; else
/// the copy alone, centred, at most 40 columns by 9 rows.
pub open spec fn spec_welcome_layout(area: Rect) -> WelcomeLayout {
    if area.width == 0 || area.height == 0 {
        WelcomeLayout::Hidden
    } else if area.width >= WIDE_MIN_WIDTH && area.height >= WIDE_MIN_HEIGHT {
        WelcomeLayout::Wide { globe: wide_parts(area).1, copy: wide_parts(area).2 }
    } else if area.width >= STACKED_MIN_WIDTH && area.height >= STACKED_MIN_HEIGHT {
        WelcomeLayout::Stacked { globe: stacked_parts(area).1, copy: stacked_parts(area).2 }
    } else {
        WelcomeLayout::CopyOnly { copy: spec_centered_rect(area, min16(area.width, 40), 9) }
    }
}

/// Whether a copy-only layout of `area` shows a copy box as large as the area
/// allows up to 40 columns and 9 rows, inside the area and centred in it: the
/// room on its left and on its right differ by at most one column (the extra
/// one on the right), and likewise above and below.
pub open spec fn copy_only_is_centred(area: Rect, layout: WelcomeLayout) -> bool {
    layout matches WelcomeLayout::CopyOnly { copy } ==> {
        let left = copy.x - area.x;
        let right = (area.x + area.width) - (copy.x + copy.width);
        let above = copy.y - area.y;
        let below = (area.y + area.height) - (copy.y + copy.height);
        &&& copy.width == min16(area.width, 40)
        &&& copy.height == min16(area.height, 9)
        &&& 0 <= left && 0 <= right && left <= right <= left + 1
        &&& 0 <= above && 0 <= below && above <= below <= above + 1
    }
}

/// In every area, the copy-only layout centres its copy box.
pub proof fn lemma_copy_only_is_centred(area: Rect)
    requires
        area.fits(),
    ensures
        copy_only_is_centred(area, spec_welcome_layout(area)),
{
}

/// Whether a wide layout of `area` puts a globe 40 columns wide and 20 rows
/// tall beside a copy box 40 columns wide and 10 rows tall, four columns to
/// its right and five rows down, the two centred together in the area: the
/// room left and right of them differ by at most one column, and likewise
/// above and below.
pub open spec fn wide_is_centred(area: Rect, layout: WelcomeLayout) -> bool {
    layout matches WelcomeLayout::Wide { globe, copy } ==> {
        let left = globe.x - area.x;
        let right = (area.x + area.width) - (copy.x + copy.width);
        let above = globe.y - area.y;
        let below = (area.y + area.height) - (globe.y + globe.height);
        &&& globe.width == 40 && globe.height == 20
        &&& copy.width == 40 && copy.height == 10
        &&& copy.x == globe.x + 44 && copy.y == globe.y + 5
        &&& 0 <= left && left <= right <= left + 1
        &&& 0 <= above && above <= below <= above + 1
    }
}

/// Whether a stacked layout of `area` puts the globe, between 7 and 13 rows
/// tall and twice as wide, centred above a copy box 40 columns wide and 9 rows
/// tall, one row below it, the two centred together in the area.
pub open spec fn stacked_is_centred(area: Rect, layout: WelcomeLayout) -> bool {
    layout matches WelcomeLayout::Stacked { globe, copy } ==> {
        let left = copy.x - area.x;
        let right = (area.x + area.width) - (copy.x + copy.width);
        let above = globe.y - area.y;
        let below = (area.y + area.height) - (copy.y + copy.height);
        &&& 7 <= globe.height <= 13 && globe.width == 2 * globe.height
        &&& copy.width == 40 && copy.height == 9
        &&& copy.y == globe.y + globe.height + 1
        &&& globe.x - copy.x == (40 - globe.width) / 2
        &&& 0 <= left && left <= right <= left + 1
        &&& 0 <= above && above <= below <= above + 1
    }
}

/// In every area, the wide and stacked layouts centre the globe and copy
/// together in the area.
pub proof fn lemma_globe_layouts_are_centred(area: Rect)
    requires
        area.fits(),
    ensures
        wide_is_centred(area, spec_welcome_layout(area)),
        stacked_is_centred(area, spec_welcome_layout(area)),
{
}

/// Which layout an area gets: none for an empty area; the wide one from 92
/// columns and 22 rows; else the stacked one from 48 columns and 18 rows; else
/// the copy alone.
pub proof fn lemma_layout_choice(area: Rect)
    ensures
        spec_welcome_layout(area) is Hidden <==> (area.width == 0 || area.height == 0),
        spec_welcome_layout(area) is Wide <==> (area.width >= 92 && area.height >= 22),
        spec_welcome_layout(area) is Stacked <==> (area.width >= 48 && area.height >= 18 && !(
        area.width >= 92 && area.height >= 22)),
        spec_welcome_layout(area) is CopyOnly <==> (area.width > 0 && area.height > 0 && !(area.width
            >= 48 && area.height >= 18)),
{
}

/// The wide layout: a globe 20 rows tall and a copy box 40 columns wide,
/// four columns apart, centred together.
fn wide_layout(area: Rect) -> (r: WelcomeLayout)
    requires
        area.width >= WIDE_MIN_WIDTH,
        area.height >= WIDE_MIN_HEIGHT,
        layout_fits(area),
    ensures
        r == spec_welcome_layout(area),
{
    let globe_height: u16 = 20;
    let globe_width = circular_width(globe_height, area.width);
    let copy_width: u16 = 40;
    let gap: u16 = 4;
    let width = globe_width + gap + copy_width;
    let height = max_u16(globe_height, 9);
    let content = centered_rect(area, width, height);
    let globe = Rect::new(content.x, content.y, globe_width, globe_height);
    let copy = Rect::new(
        globe.right().saturating_add(gap),
        content.y.saturating_add(5),
        min_u16(copy_width, content.right().saturating_sub(globe.right() + gap)),
        10,
    );
    WelcomeLayout::Wide { globe, copy }
}

/// The stacked layout: the globe centred above a copy box nine rows tall.
fn stacked_layout(area: Rect) -> (r: WelcomeLayout)
    requires
        !(area.width >= WIDE_MIN_WIDTH && area.height >= WIDE_MIN_HEIGHT),
        area.width >= STACKED_MIN_WIDTH,
        area.height >= STACKED_MIN_HEIGHT,
        layout_fits(area),
    ensures
        r == spec_welcome_layout(area),
{
    let globe_height = min_u16(max_u16(area.height.saturating_sub(10), 7), 13);
    let globe_width = circular_width(globe_height, area.width);
    let total_height = globe_height.saturating_add(10);
    let content = centered_rect(area, max_u16(globe_width, 40), total_height);
    let globe = Rect::new(
        content.x + content.width.saturating_sub(globe_width) / 2,
        content.y,
        globe_width,
        globe_height,
    );
    let copy = Rect::new(content.x, globe.bottom().saturating_add(1), content.width, 9);
    WelcomeLayout::Stacked { globe, copy }
}

/// Where the welcome draws in `area`.
pub fn welcome_layout(area: Rect) -> (r: WelcomeLayout)
    requires
        layout_fits(area),
    ensures
        r == spec_welcome_layout(area),
        area.fits() ==> copy_only_is_centred(area, r),
        area.fits() ==> wide_is_centred(area, r),
        area.fits() ==> stacked_is_centred(area, r),
{
    proof {
        if area.fits() {
            lemma_copy_only_is_centred(area);
            lemma_globe_layouts_are_centred(area);
        }
    }
    if area.is_empty() {
        WelcomeLayout::Hidden
    } else if area.width >= WIDE_MIN_WIDTH && area.height >= WIDE_MIN_HEIGHT {
        wide_layout(area)
    } else if area.width >= STACKED_MIN_WIDTH && area.height >= STACKED_MIN_HEIGHT {
        stacked_layout(area)
    } else {
        WelcomeLayout::CopyOnly { copy: centered_rect(area, min_u16(area.width, 40), 9) }
    }
}

/// The empty-session welcome: whether it animates, when it started, and the
/// keys that its copy names for history and shortcuts.
pub struct SolWelcome {
    pub animations_enabled: bool,
    pub started_at: std::time::Instant,
    pub history_key: Option<KeyBinding>,
    pub shortcuts_key: Option<KeyBinding>,
}

impl SolWelcome {
    /// A welcome started now.
    pub fn new(
        animations_enabled: bool,
        history_key: Option<KeyBinding>,
        shortcuts_key: Option<KeyBinding>,
    ) -> (r: SolWelcome)
        ensures
            r.animations_enabled == animations_enabled,
            r.history_key == history_key,
            r.shortcuts_key == shortcuts_key,
    {
        SolWelcome { animations_enabled, started_at: instant_now(), history_key, shortcuts_key }
    }

    /// Whether drawing the welcome asks for another frame: only an animated
    /// welcome in a non-empty area does.
    pub fn wants_next_frame(&self, area: Rect) -> (r: bool)
        ensures
            r == (self.animations_enabled && !(area.width == 0 || area.height == 0)),
    {
        self.animations_enabled && !area.is_empty()
    }

    /// The label of the history key in the copy: the compact label of the
    /// bound key, else "Ctrl+T".
    pub fn history_label(&self) -> (r: String)
        ensures
            r@ == (match self.history_key {
                Some(k) => spec_welcome_key_label(k),
                None => "Ctrl+T"@,
            }),
    {
        match self.history_key {
            Some(k) => welcome_key_label(k),
            None => String::from_str("Ctrl+T"),
        }
    }

    /// The label of the shortcuts key in the copy: the compact label of the
    /// bound key, else "?".
    pub fn shortcuts_label(&self) -> (r: String)
        ensures
            r@ == (match self.shortcuts_key {
                Some(k) => spec_welcome_key_label(k),
                None => "?"@,
            }),
    {
        match self.shortcuts_key {
            Some(k) => welcome_key_label(k),
            None => String::from_str("?"),
        }
    }
}

/// What `str::to_uppercase` gives for a text.
pub uninterp spec fn str_to_uppercase(s: Seq<char>) -> Seq<char>;

/// The ASCII uppercase of `c`.
pub open spec fn ascii_upper(c: char) -> char {
    if 'a' <= c <= 'z' {
        ((c as u32) - 32) as char
    } else {
        c
    }
}

/// The ASCII lowercase of `c`.
pub open spec fn ascii_lower(c: char) -> char {
    if 'A' <= c <= 'Z' {
        ((c as u32) + 32) as char
    } else {
        c
    }
}

/// Calls `str::to_uppercase`. The contract claims that the result is the name
/// `str_to_uppercase` of the text and that a single ASCII character maps to
/// its ASCII uppercase; how other characters map is left to the name.
#[verifier::external_body]
fn to_uppercase(s: &str) -> (r: String)
    ensures
        r@ == str_to_uppercase(s@),
        s@.len() == 1 && (s@[0] as u32) < 128 ==> r@ == seq![ascii_upper(s@[0])],
{
    s.to_uppercase()
}

/// The ASCII lowercase of `c`.
fn to_ascii_lower(c: char) -> (r: char)
    ensures
        r == ascii_lower(c),
{
    if 'A' <= c && c <= 'Z' {
        ((c as u32) + 32) as u8 as char
    } else {
        c
    }
}

/// The name of a key in a key hint.
pub open spec fn key_name(key: KeyCode) -> Seq<char> {
    match key {
        KeyCode::Char(c) => if c == ' ' {
            "space"@
        } else {
            seq![ascii_lower(c)]
        },
        KeyCode::Enter => "enter"@,
        KeyCode::Esc => "esc"@,
        KeyCode::Tab => "tab"@,
        KeyCode::Backspace => "backspace"@,
        KeyCode::Up => "↑"@,
        KeyCode::Down => "↓"@,
        KeyCode::Left => "←"@,
        KeyCode::Right => "→"@,
        KeyCode::Home => "home"@,
        KeyCode::End => "end"@,
        KeyCode::PageUp => "pgup"@,
        KeyCode::PageDown => "pgdn"@,
    }
}

/// The modifier prefix of a key hint: "ctrl + ", "shift + ", "alt + ", in
/// that order, for those held.
pub open spec fn modifier_prefix(m: KeyModifiers) -> Seq<char> {
    (if m.ctrl {
        "ctrl + "@
    } else {
        Seq::empty()
    }) + (if m.shift {
        "shift + "@
    } else {
        Seq::empty()
    }) + (if m.alt {
        "alt + "@
    } else {
        Seq::empty()
    })
}

/// The label of a key hint, such as "ctrl + t".
pub open spec fn spec_display_label(binding: KeyBinding) -> Seq<char> {
    modifier_prefix(binding.modifiers) + key_name(binding.key)
}

/// The label of a key hint for `binding`: its modifiers, each followed by
/// " + ", then the key's name.
pub fn display_label(binding: KeyBinding) -> (r: String)
    ensures
        r@ == spec_display_label(binding),
{
    let mut s = String::new();
    if binding.modifiers.ctrl {
        s.append("ctrl + ");
    }
    if binding.modifiers.shift {
        s.append("shift + ");
    }
    if binding.modifiers.alt {
        s.append("alt + ");
    }
    let name = match binding.key {
        KeyCode::Char(c) => if c == ' ' {
            String::from_str("space")
        } else {
            let mut v: Vec<char> = Vec::new();
            v.push(to_ascii_lower(c));
            string_from_chars(&v)
        },
        KeyCode::Enter => String::from_str("enter"),
        KeyCode::Esc => String::from_str("esc"),
        KeyCode::Tab => String::from_str("tab"),
        KeyCode::Backspace => String::from_str("backspace"),
        KeyCode::Up => String::from_str("↑"),
        KeyCode::Down => String::from_str("↓"),
        KeyCode::Left => String::from_str("←"),
        KeyCode::Right => String::from_str("→"),
        KeyCode::Home => String::from_str("home"),
        KeyCode::End => String::from_str("end"),
        KeyCode::PageUp => String::from_str("pgup"),
        KeyCode::PageDown => String::from_str("pgdn"),
    };
    s.append(name.as_str());
    proof {
        assert(s@ =~= spec_display_label(binding));
    }
    s
}

/// Whether " + " starts at `i` in `s`.
pub open spec fn sep_at(s: Seq<char>, i: int) -> bool {
    i + 3 <= s.len() && s[i] == ' ' && s[i + 1] == '+' && s[i + 2] == ' '
}

/// The parts of `s` split at each " + ", scanning from `i` in a part that
/// started at `start`, as `str::split(" + ")` finds them.
pub open spec fn split_parts_from(s: Seq<char>, start: int, i: int) -> Seq<Seq<char>>
    recommends
        0 <= start <= i <= s.len(),
    decreases s.len() - i,
{
    if i >= s.len() || i < 0 {
        seq![s.subrange(start, s.len() as int)]
    } else if sep_at(s, i) {
        seq![s.subrange(start, i)] + split_parts_from(s, i + 3, i + 3)
    } else {
        split_parts_from(s, start, i + 1)
    }
}

/// The parts of `s` between its " + " separators.
pub open spec fn split_parts(s: Seq<char>) -> Seq<Seq<char>> {
    split_parts_from(s, 0, 0)
}

/// The compact title-case form of one part of a key label: modifier names are
/// capitalised, a single character is uppercased (an ASCII one to its ASCII
/// uppercase), anything else is kept.
pub open spec fn compact_part(p: Seq<char>) -> Seq<char> {
    if p == "ctrl"@ {
        "Ctrl"@
    } else if p == "alt"@ {
        "Alt"@
    } else if p == "shift"@ {
        "Shift"@
    } else if p.len() == 1 && (p[0] as u32) < 128 {
        seq![ascii_upper(p[0])]
    } else if p.len() == 1 {
        str_to_uppercase(p)
    } else {
        p
    }
}

/// The parts joined with "+".
pub open spec fn join_plus(parts: Seq<Seq<char>>) -> Seq<char>
    decreases parts.len(),
{
    if parts.len() == 0 {
        Seq::empty()
    } else if parts.len() == 1 {
        parts[0]
    } else {
        join_plus(parts.drop_last()) + seq!['+'] + parts.last()
    }
}

/// The compact form of a key label: its parts made compact and joined with "+".
pub open spec fn spec_compact_key_label(label: Seq<char>) -> Seq<char> {
    join_plus(split_parts(label).map_values(|p: Seq<char>| compact_part(p)))
}

/// The compact form of one part of a key label.
fn compact_part_of(part: &Vec<char>) -> (r: String)
    ensures
        r@ == compact_part(part@),
{
    let text = string_from_chars(part);
    if text == String::from_str("ctrl") {
        String::from_str("Ctrl")
    } else if text == String::from_str("alt") {
        String::from_str("Alt")
    } else if text == String::from_str("shift") {
        String::from_str("Shift")
    } else if part.len() == 1 {
        to_uppercase(text.as_str())
    } else {
        text
    }
}

/// The compact, title-case form of a key label: "ctrl + t" becomes "Ctrl+T".
pub fn compact_key_label(label: &str) -> (r: String)
    ensures
        r@ == spec_compact_key_label(label@),
{
    let s = chars_of(label);
    let ghost sv = s@;
    let mut out = String::new();
    let mut start: usize = 0;
    let mut i: usize = 0;
    let ghost mut done: Seq<Seq<char>> = Seq::empty();
    let mut first = true;
    while i < s.len()
        invariant
            sv == s@,
            first == (done.len() == 0),
            start <= i <= s.len(),
            split_parts(sv) == done + split_parts_from(sv, start as int, i as int),
            out@ == join_plus(done.map_values(|p: Seq<char>| compact_part(p))),
        decreases s.len() - i,
    {
        if s.len() - i >= 3 && s[i] == ' ' && s[i + 1] == '+' && s[i + 2] == ' ' {
            let part = slice_chars(&s, start, i);
            let piece = compact_part_of(&part);
            let ghost before = done.map_values(|p: Seq<char>| compact_part(p));
            if !first {
                out.append("+");
            }
            first = false;
            out.append(piece.as_str());
            proof {
                let after = done.push(part@);
                assert(split_parts_from(sv, start as int, i as int) == seq![part@]
                    + split_parts_from(sv, i + 3, i + 3));
                assert(done + split_parts_from(sv, start as int, i as int) =~= after
                    + split_parts_from(sv, i + 3, i + 3));
                let mapped = after.map_values(|p: Seq<char>| compact_part(p));
                assert(mapped.drop_last() =~= before);
                if done.len() == 0 {
                    assert(mapped =~= seq![compact_part(part@)]);
                    assert(out@ =~= join_plus(mapped));
                } else {
                    reveal_strlit("+");
                    assert(mapped.last() == compact_part(part@));
                    assert(out@ =~= join_plus(before) + seq!['+'] + compact_part(part@));
                    assert(out@ =~= join_plus(mapped));
                }
                done = after;
            }
            i = i + 3;
            start = i;
        } else {
            i = i + 1;
        }
    }
    let part = slice_chars(&s, start, s.len());
    let piece = compact_part_of(&part);
    let ghost before = done.map_values(|p: Seq<char>| compact_part(p));
    if !first {
        out.append("+");
    }
    out.append(piece.as_str());
    proof {
        let after = done.push(part@);
        assert(done + split_parts_from(sv, start as int, i as int) =~= after);
        let mapped = after.map_values(|p: Seq<char>| compact_part(p));
        assert(mapped.drop_last() =~= before);
        if done.len() == 0 {
            assert(mapped =~= seq![compact_part(part@)]);
        } else {
            reveal_strlit("+");
            assert(mapped.last() == compact_part(part@));
            assert(out@ =~= join_plus(before) + seq!['+'] + compact_part(part@));
        }
        assert(out@ =~= join_plus(mapped));
    }
    out
}

/// Parts joined with " + ", as key hints join their modifiers and key.
pub open spec fn join_hint(parts: Seq<Seq<char>>) -> Seq<char>
    decreases parts.len(),
{
    if parts.len() == 0 {
        Seq::empty()
    } else if parts.len() == 1 {
        parts[0]
    } else {
        parts[0] + seq![' ', '+', ' '] + join_hint(parts.drop_first())
    }
}

/// Whether `p` holds no '+'.
pub open spec fn no_plus(p: Seq<char>) -> bool {
    forall|j: int| 0 <= j < p.len() ==> p[j] != '+'
}

proof fn lemma_split_shift(s: Seq<char>, d: int, start: int, i: int)
    requires
        0 <= d <= start <= i <= s.len(),
    ensures
        split_parts_from(s, start, i) == split_parts_from(s.skip(d), start - d, i - d),
    decreases s.len() - i,
{
    let t = s.skip(d);
    if i >= s.len() {
        assert(s.subrange(start, s.len() as int) =~= t.subrange(start - d, t.len() as int));
    } else {
        assert(sep_at(s, i) == sep_at(t, i - d)) by {
            if i + 3 <= s.len() {
                assert(t[i - d] == s[i] && t[i - d + 1] == s[i + 1] && t[i - d + 2] == s[i + 2]);
            }
        }
        if sep_at(s, i) {
            assert(s.subrange(start, i) =~= t.subrange(start - d, i - d));
            lemma_split_shift(s, d, i + 3, i + 3);
        } else {
            lemma_split_shift(s, d, start, i + 1);
        }
    }
}

proof fn lemma_split_scan(s: Seq<char>, start: int, i: int, k: int)
    requires
        0 <= start <= i <= k,
        k + 3 <= s.len(),
        sep_at(s, k),
        forall|j: int| i <= j < k ==> s[j] != '+',
    ensures
        split_parts_from(s, start, i) == seq![s.subrange(start, k)] + split_parts_from(s, k + 3, k + 3),
    decreases k - i,
{
    if i < k {
        assert(!sep_at(s, i)) by {
            if i + 1 < k {
                assert(s[i + 1] != '+');
            }
        }
        lemma_split_scan(s, start, i + 1, k);
    }
}

proof fn lemma_split_end(s: Seq<char>, start: int, i: int)
    requires
        0 <= start <= i <= s.len(),
        forall|j: int| i <= j < s.len() ==> s[j] != '+',
    ensures
        split_parts_from(s, start, i) == seq![s.subrange(start, s.len() as int)],
    decreases s.len() - i,
{
    if i < s.len() {
        assert(!sep_at(s, i)) by {
            if i + 3 <= s.len() {
                assert(s[i + 1] != '+');
            }
        }
        lemma_split_end(s, start, i + 1);
    }
}

/// Splitting parts joined with " + " gives the parts back, where no part
/// holds a '+'.
pub proof fn lemma_split_join(parts: Seq<Seq<char>>)
    requires
        parts.len() >= 1,
        forall|i: int| 0 <= i < parts.len() ==> no_plus(#[trigger] parts[i]),
    ensures
        split_parts(join_hint(parts)) == parts,
    decreases parts.len(),
{
    let s = join_hint(parts);
    if parts.len() == 1 {
        assert(no_plus(parts[0]));
        lemma_split_end(s, 0, 0);
        assert(s.subrange(0, s.len() as int) =~= s);
        assert(parts =~= seq![s]);
    } else {
        let p0 = parts[0];
        let rest = parts.drop_first();
        assert(no_plus(p0));
        let k = p0.len() as int;
        let tail = join_hint(rest);
        assert(s == p0 + seq![' ', '+', ' '] + tail);
        assert(s[k] == ' ' && s[k + 1] == '+' && s[k + 2] == ' ');
        assert forall|j: int| 0 <= j < k implies s[j] != '+' by {
            assert(s[j] == p0[j]);
        }
        lemma_split_scan(s, 0, 0, k);
        assert(s.subrange(0, k) =~= p0);
        lemma_split_shift(s, k + 3, k + 3, k + 3);
        assert(s.skip(k + 3) =~= tail);
        assert forall|i: int| 0 <= i < rest.len() implies no_plus(#[trigger] rest[i]) by {
            assert(rest[i] == parts[i + 1]);
        }
        lemma_split_join(rest);
        assert(parts =~= seq![p0] + rest);
    }
}

/// The compact label of a key hint whose parts hold no '+' is its parts, each
/// made compact, joined with "+": "ctrl + shift + t" gives "Ctrl+Shift+T".
pub proof fn lemma_compact_label_of_joined_parts(parts: Seq<Seq<char>>)
    requires
        parts.len() >= 1,
        forall|i: int| 0 <= i < parts.len() ==> no_plus(#[trigger] parts[i]),
    ensures
        spec_compact_key_label(join_hint(parts)) == join_plus(
            parts.map_values(|p: Seq<char>| compact_part(p)),
        ),
{
    lemma_split_join(parts);
}

/// The compact label of a key in the welcome copy.
pub open spec fn spec_welcome_key_label(binding: KeyBinding) -> Seq<char> {
    spec_compact_key_label(spec_display_label(binding))
}

/// The compact label of `binding` in the welcome copy, such as "Ctrl+T".
pub fn welcome_key_label(binding: KeyBinding) -> (r: String)
    ensures
        r@ == spec_welcome_key_label(binding),
{
    let label = display_label(binding);
    compact_key_label(label.as_str())
}

/// The 16-bit noise of cell (`x`, `y`): a fixed integer hash of the two
/// coordinates, so that the globe's speckle stays put from frame to frame.
pub open spec fn spec_stable_noise_bits(x: u16, y: u16) -> u16 {
    let a = vstd::wrapping::u32_specs::wrapping_add(
        vstd::wrapping::u32_specs::wrapping_mul(x as u32, 0x045d_9f3b),
        vstd::wrapping::u32_specs::wrapping_mul(y as u32, 0x27d4_eb2d),
    );
    let b = a ^ (a >> 16u32);
    let c = vstd::wrapping::u32_specs::wrapping_mul(b, 0x7feb_352d);
    let d = c ^ (c >> 15u32);
    (d & 0xffff) as u16
}

/// The 16-bit noise of cell (`x`, `y`).
pub fn stable_noise_bits(x: u16, y: u16) -> (r: u16)
    ensures
        r == spec_stable_noise_bits(x, y),
{
    let mut value = (x as u32).wrapping_mul(0x045d_9f3b).wrapping_add(
        (y as u32).wrapping_mul(0x27d4_eb2d),
    );
    value = value ^ (value >> 16u32);
    value = value.wrapping_mul(0x7feb_352d);
    value = value ^ (value >> 15u32);
    (value & 0xffff) as u16
}

} // verus!
