//! Retained conversation rendering for the application-owned full-screen
//! viewport: which history cells are shown, how each is spaced, the live tail
//! of the active cell, and when the empty-session welcome gives way.

use vstd::prelude::*;
use crate::geometry::{Rect, sat_add};
use crate::keys::PagerKeymap;
use crate::text::{lines_of, str_lines};

verus! {

/// How history cells render.
#[derive(Clone, Copy, Debug, PartialEq, Eq, Structural)]
pub enum HistoryRenderMode {
    Rich,
    Raw,
}

/// The kind of a history cell, as far as the viewport tells kinds apart.
#[derive(Clone, Copy, Debug, PartialEq, Eq, Structural)]
pub enum CellKind {
    SessionHeader,
    SessionInfo,
    User,
    Agent,
    Warning,
    Other,
}

/// What the viewport reads of a history cell. Two cells with the same `id`
/// are the same cell.
#[derive(Clone, Copy, Debug, PartialEq, Eq, Structural)]
pub struct HistoryCell {
    pub id: u64,
    pub kind: CellKind,
    pub dismisses_welcome: bool,
    pub is_stream_continuation: bool,
}

impl HistoryCell {
    /// A cell with the given identity, kind and flags.
    pub fn new(id: u64, kind: CellKind, dismisses_welcome: bool, is_stream_continuation: bool) -> (r:
        HistoryCell)
        ensures
            r == (HistoryCell { id, kind, dismisses_welcome, is_stream_continuation }),
    {
        HistoryCell { id, kind, dismisses_welcome, is_stream_continuation }
    }
}

/// The key of the active cell's transcript: it changes whenever the active
/// cell's rendering may change.
#[derive(Clone, Copy, Debug, PartialEq, Eq, Structural)]
pub struct ActiveCellTranscriptKey {
    pub revision: u64,
    pub is_stream_continuation: bool,
    pub animation_tick: Option<u64>,
}

/// The key the live tail was rendered for: the active cell's key and the width.
#[derive(Clone, Copy, Debug, PartialEq, Eq, Structural)]
pub struct LiveTailKey {
    pub width: u16,
    pub revision: u64,
    pub is_stream_continuation: bool,
    pub animation_tick: Option<u64>,
}

/// Direction of a scroll.
#[derive(Clone, Copy, Debug, PartialEq, Eq, Structural)]
pub enum ScrollDirection {
    Up,
    Down,
}

/// A history cell as it renders in the viewport, with the height it last
/// measured at some width.
pub struct ConversationCellRenderable {
    pub cell: HistoryCell,
    pub render_mode: HistoryRenderMode,
    pub cached_height: Option<(u16, u16)>,
}

impl ConversationCellRenderable {
    /// The height remembered for `width`, if the last measure was at that width.
    pub fn cached_height_for(&self, width: u16) -> (r: Option<u16>)
        ensures
            r == cache_hit(self.cached_height, width),
    {
        match self.cached_height {
            Some((w, h)) => if w == width {
                Some(h)
            } else {
                None
            },
            None => None,
        }
    }

    /// Remembers that the cell measures `height` rows at `width`.
    pub fn remember_height(&mut self, width: u16, height: u16)
        ensures
            final(self).cell == old(self).cell,
            final(self).render_mode == old(self).render_mode,
            final(self).cached_height == Some((width, height)),
    {
        self.cached_height = Some((width, height));
    }
}

/// The height remembered in `cached` for `width`, if it was measured at `width`.
pub open spec fn cache_hit(cached: Option<(u16, u16)>, width: u16) -> Option<u16> {
    match cached {
        Some((w, h)) => if w == width {
            Some(h)
        } else {
            None
        },
        None => None,
    }
}

impl ConversationCellRenderable {
    /// The rows the cell takes at `width`: the remembered height when it was
    /// last measured at `width`, else what `measure` gives, which is then
    /// remembered. `measure` runs only on a miss.
    pub fn desired_height<F: FnOnce(u16) -> u16>(&mut self, width: u16, measure: F) -> (r: u16)
        requires
            cache_hit(old(self).cached_height, width) is None ==> call_requires(measure, (width,)),
        ensures
            final(self).cell == old(self).cell,
            final(self).render_mode == old(self).render_mode,
            cache_hit(old(self).cached_height, width) is Some ==> cache_hit(old(self).cached_height, width)
                == Some(r) && final(self).cached_height == old(self).cached_height,
            cache_hit(old(self).cached_height, width) is None ==> call_ensures(
                measure,
                (width,),
                r,
            ) && final(self).cached_height == Some((width, r)),
    {
        match self.cached_height_for(width) {
            Some(h) => h,
            None => {
                let h = measure(width);
                self.remember_height(width, h);
                h
            },
        }
    }
}

/// Bytes of the rail drawn left of the user's messages, "│  ": a three-byte
/// box-drawing bar and two spaces.
pub const USER_RAIL_BYTES: u16 = 5;

/// The width left for a user message beside the rail: the width less the
/// rail's byte length, at least one column.
pub open spec fn user_body_width(width: u16) -> u16 {
    if width > USER_RAIL_BYTES + 1 {
        (width - USER_RAIL_BYTES) as u16
    } else {
        1u16
    }
}

/// The width left for a user message beside the rail.
pub fn owned_user_body_width(width: u16) -> (r: u16)
    ensures
        r == user_body_width(width),
        r >= 1,
{
    let body = width.saturating_sub(USER_RAIL_BYTES);
    if body > 1 {
        body
    } else {
        1
    }
}

/// The rows that `textwrap::wrap` gives for `line` at `width` columns with
/// the first-fit algorithm and otherwise default options.
pub uninterp spec fn first_fit_wrap(line: Seq<char>, width: usize) -> Seq<Seq<char>>;

/// `textwrap::wrap` with `Options::new(width)` and `WrapAlgorithm::FirstFit`.
/// What the rows are is left to the crate: the contract names the result,
/// a function of the line and the width alone.
#[verifier::external_body]
fn wrap_first_fit(line: &str, width: usize) -> (r: Vec<String>)
    ensures
        r@.map_values(|p: String| p@) == first_fit_wrap(line@, width),
{
    let options = textwrap::Options::new(width).wrap_algorithm(textwrap::WrapAlgorithm::FirstFit);
    textwrap::wrap(line, &options).into_iter().map(|piece| piece.into_owned()).collect()
}

/// The views of a row list.
pub open spec fn row_texts(rows: Seq<String>) -> Seq<Seq<char>> {
    rows.map_values(|p: String| p@)
}

/// The rows of a user message beside the rail at `width` columns: each of
/// its lines wrapped first-fit at the body width, one line's rows after the
/// other's.
pub open spec fn user_message_rows(message: Seq<char>, width: u16) -> Seq<Seq<char>> {
    str_lines(message).map_values(
        |l: Seq<char>| first_fit_wrap(l, user_body_width(width) as usize),
    ).flatten()
}

/// The rows of several wrapped lines, one line's rows after the other's.
pub fn join_wrapped(wrapped: Vec<Vec<String>>) -> (r: Vec<String>)
    ensures
        row_texts(r@) == wrapped@.map_values(|w: Vec<String>| row_texts(w@)).flatten(),
{
    let ghost groups = wrapped@.map_values(|w: Vec<String>| row_texts(w@));
    let mut out: Vec<String> = Vec::new();
    let mut rest = wrapped;
    let ghost all = rest@;
    let mut i: usize = 0;
    let n = rest.len();
    while i < n
        invariant
            n == all.len(),
            i <= n,
            groups == all.map_values(|w: Vec<String>| row_texts(w@)),
            rest@.len() == n,
            forall|k: int| i <= k < n ==> #[trigger] rest@[k] == all[k],
            row_texts(out@) == groups.take(i as int).flatten_alt(),
        decreases n - i,
    {
        let mut group: Vec<String> = Vec::new();
        std::mem::swap(&mut group, &mut rest[i]);
        let ghost before = out@;
        let ghost g = group@;
        assert(g == all[i as int]@);
        out.append(&mut group);
        proof {
            assert(out@ == before + g);
            assert(row_texts(before + g) =~= row_texts(before) + row_texts(g));
            assert(groups.take(i + 1).drop_last() =~= groups.take(i as int));
            assert(groups.take(i + 1).last() == row_texts(g));
        }
        i = i + 1;
    }
    proof {
        assert(groups.take(n as int) =~= groups);
        groups.lemma_flatten_and_flatten_alt_are_equivalent();
    }
    out
}

/// The rows of a user's message beside the rail at `width` columns: its
/// lines, each wrapped first-fit at the body width.
pub fn owned_user_message_rows(message: &str, width: u16) -> (r: Vec<String>)
    ensures
        row_texts(r@) == user_message_rows(message@, width),
{
    let body = owned_user_body_width(width);
    let lines = lines_of(message);
    let ghost line_texts = lines@.map_values(|l: String| l@);
    let mut wrapped: Vec<Vec<String>> = Vec::new();
    let mut i: usize = 0;
    while i < lines.len()
        invariant
            i <= lines.len(),
            line_texts == lines@.map_values(|l: String| l@),
            wrapped@.len() == i,
            forall|k: int| 0 <= k < i ==> row_texts(#[trigger] wrapped@[k]@) == first_fit_wrap(
                line_texts[k],
                body as usize,
            ),
        decreases lines.len() - i,
    {
        let rows = wrap_first_fit(lines[i].as_str(), body as usize);
        wrapped.push(rows);
        i = i + 1;
    }
    let r = join_wrapped(wrapped);
    proof {
        let groups = wrapped@.map_values(|w: Vec<String>| row_texts(w@));
        let expected = str_lines(message@).map_values(
            |l: Seq<char>| first_fit_wrap(l, user_body_width(width) as usize),
        );
        assert(groups =~= expected);
    }
    r
}

/// Lines of text that render as they are.
pub struct HyperlinkLinesRenderable {
    pub lines: Vec<String>,
}

/// What a content item draws.
pub enum ItemBody {
    Cell(ConversationCellRenderable),
    LiveTail(HyperlinkLinesRenderable),
}

/// One renderable of the pager, with one blank row above it when
/// `leading_spacing` holds.
pub struct ContentItem {
    pub body: ItemBody,
    pub leading_spacing: bool,
}

/// A content item as the contracts see it.
pub enum ContentModel {
    Cell { cell: HistoryCell, mode: HistoryRenderMode, spaced: bool },
    LiveTail { lines: Seq<Seq<char>>, spaced: bool },
}

/// The text of some lines.
pub open spec fn lines_view(lines: Seq<String>) -> Seq<Seq<char>> {
    lines.map_values(|s: String| s@)
}

impl View for ContentItem {
    type V = ContentModel;

    open spec fn view(&self) -> ContentModel {
        match &self.body {
            ItemBody::Cell(r) => ContentModel::Cell {
                cell: r.cell,
                mode: r.render_mode,
                spaced: self.leading_spacing,
            },
            ItemBody::LiveTail(h) => ContentModel::LiveTail {
                lines: lines_view(h.lines@),
                spaced: self.leading_spacing,
            },
        }
    }
}

/// Whether an item has a blank row above it.
pub open spec fn spaced_of(m: ContentModel) -> bool {
    match m {
        ContentModel::Cell { spaced, .. } => spaced,
        ContentModel::LiveTail { spaced, .. } => spaced,
    }
}

/// The blank rows above an item: one when it is spaced.
pub open spec fn spacing_rows(m: ContentModel) -> u16 {
    if spaced_of(m) {
        1
    } else {
        0
    }
}

/// The rows an item draws: one blank row first when it is spaced, then the
/// rows of its content.
pub fn spaced_rows<T>(spaced: bool, inner: Vec<T>, blank: T) -> (r: Vec<T>)
    ensures
        r@ == (if spaced {
            seq![blank] + inner@
        } else {
            inner@
        }),
{
    if spaced {
        let mut out: Vec<T> = Vec::new();
        out.push(blank);
        let mut rest = inner;
        out.append(&mut rest);
        out
    } else {
        inner
    }
}

/// The height an item last measured, with the width it measured at: none for
/// a live tail or a cell never measured.
pub open spec fn item_cache(item: ContentItem) -> Option<(u16, u16)> {
    match item.body {
        ItemBody::Cell(c) => c.cached_height,
        ItemBody::LiveTail(_) => None,
    }
}

/// The remembered heights of some items.
pub open spec fn caches_of(items: Seq<ContentItem>) -> Seq<Option<(u16, u16)>> {
    items.map_values(|i: ContentItem| item_cache(i))
}

/// `n` items that remember no height.
pub open spec fn no_caches(n: nat) -> Seq<Option<(u16, u16)>> {
    Seq::new(n, |i: int| None)
}

/// The models of some content items.
pub open spec fn items_view(items: Seq<ContentItem>) -> Seq<ContentModel> {
    items.map_values(|i: ContentItem| i@)
}

/// Rows scrolled after a scroll of `rows` in `direction` from `offset` rows
/// above the bottom: up adds, down removes, both saturating.
pub open spec fn scrolled(offset: usize, direction: ScrollDirection, rows: usize) -> usize {
    match direction {
        ScrollDirection::Up => if offset + rows > usize::MAX {
            usize::MAX
        } else {
            (offset + rows) as usize
        },
        ScrollDirection::Down => if offset < rows {
            0
        } else {
            (offset - rows) as usize
        },
    }
}

/// The pager's model: its items from top to bottom, how many rows the view is
/// scrolled up from the bottom, and its key bindings.
pub struct PagerModel {
    pub items: Seq<ContentModel>,
    pub scroll_offset: usize,
    pub keymap: PagerKeymap,
}

/// A list of renderables shown bottom aligned, scrolled some rows up from the
/// bottom; at offset 0 it follows the bottom as content grows.
pub struct PagerContent {
    items: Vec<ContentItem>,
    scroll_offset: usize,
    keymap: PagerKeymap,
}

impl View for PagerContent {
    type V = PagerModel;

    closed spec fn view(&self) -> PagerModel {
        PagerModel { items: items_view(self.items@), scroll_offset: self.scroll_offset, keymap: self.keymap }
    }
}

impl PagerContent {
    /// A pager over `items`, following the bottom.
    pub fn new(items: Vec<ContentItem>, keymap: PagerKeymap) -> (r: PagerContent)
        ensures
            r@ == (PagerModel { items: items_view(items@), scroll_offset: 0, keymap }),
            r.caches() == caches_of(items@),
    {
        PagerContent { items, scroll_offset: 0, keymap }
    }

    /// Whether the pager holds no item.
    pub fn is_empty(&self) -> (r: bool)
        ensures
            r == (self@.items.len() == 0),
    {
        self.items.len() == 0
    }

    /// The number of items.
    pub fn len(&self) -> (r: usize)
        ensures
            r == self@.items.len(),
    {
        self.items.len()
    }

    /// The items, top to bottom.
    pub fn items(&self) -> (r: &Vec<ContentItem>)
        ensures
            items_view(r@) == self@.items,
    {
        &self.items
    }

    /// The height that the item at `index` last measured, with the width it
    /// measured at (none for a live tail or an item never measured).
    pub closed spec fn cached_at(&self, index: int) -> Option<(u16, u16)> {
        item_cache(self.items@[index])
    }

    /// The heights that the items last measured, top to bottom.
    pub closed spec fn caches(&self) -> Seq<Option<(u16, u16)>> {
        caches_of(self.items@)
    }

    proof fn lemma_caches(&self)
        ensures
            self.caches().len() == self@.items.len(),
            forall|i: int|
                0 <= i < self@.items.len() ==> #[trigger] self.cached_at(i) == self.caches()[i],
            forall|i: int|
                0 <= i < self@.items.len() && (#[trigger] self@.items[i]) is LiveTail
                    ==> self.cached_at(i) is None,
    {
        assert forall|i: int|
            0 <= i < self@.items.len() && (#[trigger] self@.items[i]) is LiveTail implies self.cached_at(
                i,
            ) is None by {
            assert(self@.items[i] == self.items@[i]@);
        }
    }

    /// The rows the item at `index` takes at `width`: its content's height,
    /// plus one blank row above it when it is spaced. A cell's content answers
    /// from the height it remembers for `width`, else is measured with
    /// `measure` and remembered; a live tail is always measured. `measure`
    /// runs only when nothing is remembered. What the pager shows does not
    /// change.
    pub fn item_height<F: FnOnce(u16) -> u16>(&mut self, index: usize, width: u16, measure: F) -> (r:
        u16)
        requires
            index < old(self)@.items.len(),
            cache_hit(old(self).cached_at(index as int), width) is None ==> call_requires(
                measure,
                (width,),
            ),
        ensures
            final(self)@ == old(self)@,
            cache_hit(old(self).cached_at(index as int), width) matches Some(h) ==> r == sat_add(
                h,
                spacing_rows(old(self)@.items[index as int]),
            ),
            cache_hit(old(self).cached_at(index as int), width) is None ==> exists|inner: u16|
                call_ensures(measure, (width,), inner) && r == sat_add(
                    inner,
                    spacing_rows(old(self)@.items[index as int]),
                ),
            old(self)@.items[index as int] is Cell ==> (cache_hit(
                final(self).cached_at(index as int),
                width,
            ) matches Some(h) && r == sat_add(h, spacing_rows(old(self)@.items[index as int]))),
            forall|j: int|
                0 <= j < old(self)@.items.len() && j != index ==> final(self).cached_at(j)
                    == old(self).cached_at(j),
            final(self).caches().len() == old(self).caches().len(),
    {
        let mut items = Vec::new();
        std::mem::swap(&mut items, &mut self.items);
        let ghost before = items@;
        let mut item = items.remove(index);
        let inner = match &mut item.body {
            ItemBody::Cell(c) => c.desired_height(width, measure),
            ItemBody::LiveTail(_) => measure(width),
        };
        let r = if item.leading_spacing {
            inner.saturating_add(1)
        } else {
            inner
        };
        proof {
            if cache_hit(old(self).cached_at(index as int), width) is None {
                assert(call_ensures(measure, (width,), inner) && r == sat_add(
                    inner,
                    spacing_rows(old(self)@.items[index as int]),
                ));
            }
        }
        items.insert(index, item);
        self.items = items;
        proof {
            assert(items_view(self.items@) =~= items_view(before));
            assert forall|j: int|
                0 <= j < before.len() && j != index implies self.items@[j] == before[j] by {}
            assert(self.caches().len() == before.len());
        }
        r
    }

    /// How many rows the view is scrolled up from the bottom.
    pub fn scroll_offset(&self) -> (r: usize)
        ensures
            r == self@.scroll_offset,
    {
        self.scroll_offset
    }

    /// Whether the view follows the bottom.
    pub fn is_following_bottom(&self) -> (r: bool)
        ensures
            r == (self@.scroll_offset == 0),
    {
        self.scroll_offset == 0
    }

    /// Scrolls back to the bottom.
    pub fn scroll_to_bottom(&mut self)
        ensures
            final(self)@ == (PagerModel { scroll_offset: 0, ..old(self)@ }),
            final(self).caches() == old(self).caches(),
    {
        self.scroll_offset = 0;
    }

    /// Scrolls `rows` rows in `direction`.
    pub fn scroll(&mut self, direction: ScrollDirection, rows: usize)
        ensures
            final(self)@ == (PagerModel {
                scroll_offset: scrolled(old(self)@.scroll_offset, direction, rows),
                ..old(self)@
            }),
            final(self).caches() == old(self).caches(),
    {
        self.scroll_offset = match direction {
            ScrollDirection::Up => self.scroll_offset.saturating_add(rows),
            ScrollDirection::Down => self.scroll_offset.saturating_sub(rows),
        };
    }

    /// Replaces all items.
    pub fn replace(&mut self, items: Vec<ContentItem>)
        ensures
            final(self)@ == (PagerModel { items: items_view(items@), ..old(self)@ }),
            final(self).caches() == caches_of(items@),
    {
        self.items = items;
    }

    /// Adds an item at the bottom.
    pub fn push(&mut self, item: ContentItem)
        ensures
            final(self)@ == (PagerModel { items: old(self)@.items.push(item@), ..old(self)@ }),
            final(self).caches() == old(self).caches().push(item_cache(item)),
    {
        self.items.push(item);
        proof {
            assert(items_view(self.items@) =~= old(self)@.items.push(item@));
            assert(caches_of(self.items@) =~= old(self).caches().push(item_cache(item)));
        }
    }

    /// Takes the bottom item, if any.
    pub fn pop(&mut self) -> (r: Option<ContentItem>)
        ensures
            old(self)@.items.len() == 0 ==> r is None && final(self)@ == old(self)@,
            final(self).caches() == (if old(self)@.items.len() == 0 {
                old(self).caches()
            } else {
                old(self).caches().drop_last()
            }),
            old(self)@.items.len() > 0 ==> (r matches Some(item) && item@ == old(self)@.items.last())
                && final(self)@ == (PagerModel {
                items: old(self)@.items.drop_last(),
                ..old(self)@
            }),
    {
        let r = self.items.pop();
        proof {
            if old(self)@.items.len() > 0 {
                assert(items_view(self.items@) =~= old(self)@.items.drop_last());
                assert(caches_of(self.items@) =~= old(self).caches().drop_last());
            }
        }
        r
    }
}

/// The rows of the first `i` items of heights `heights`.
pub open spec fn rows_before(heights: Seq<u16>, i: int) -> nat
    decreases i,
{
    if i <= 0 || i > heights.len() {
        0
    } else {
        rows_before(heights, i - 1) + heights[i - 1] as nat
    }
}

proof fn lemma_rows_before_monotone(heights: Seq<u16>, i: int, j: int)
    requires
        0 <= i <= j <= heights.len(),
    ensures
        rows_before(heights, i) <= rows_before(heights, j),
    decreases j - i,
{
    if i < j {
        lemma_rows_before_monotone(heights, i, j - 1);
    }
}

/// The rows of a bottom-aligned view: the rows `start..end` of the content,
/// and the first row of each item.
pub struct RowWindow {
    pub start: usize,
    pub end: usize,
    pub item_starts: Vec<usize>,
}

/// The window of a view `view_height` rows tall, scrolled `scroll_offset`
/// rows up from the bottom, over items of heights `heights`: it ends that many
/// rows above the content's end (at its top at most) and starts up to
/// `view_height` rows earlier (at its top at least); each item starts after
/// the items above it.
pub open spec fn spec_row_window(heights: Seq<u16>, scroll_offset: usize, view_height: u16) -> (
    int,
    int,
) {
    let total = rows_before(heights, heights.len() as int);
    let end = total - (if scroll_offset <= total {
        scroll_offset as int
    } else {
        total as int
    });
    let start = end - (if view_height <= end {
        view_height as int
    } else {
        end
    });
    (start, end)
}

/// The rows that a bottom-aligned view of items of heights `heights` shows;
/// `None` when the content has more rows than a `usize` counts.
pub fn row_window(heights: &Vec<u16>, scroll_offset: usize, view_height: u16) -> (r: Option<RowWindow>)
    ensures
        rows_before(heights@, heights@.len() as int) <= usize::MAX ==> (r matches Some(w) && (
        w.start as int, w.end as int) == spec_row_window(heights@, scroll_offset, view_height)
            && w.item_starts@.len() == heights@.len() && forall|i: int|
            0 <= i < heights@.len() ==> #[trigger] w.item_starts@[i] == rows_before(heights@, i)),
        rows_before(heights@, heights@.len() as int) > usize::MAX ==> r is None,
{
    let mut starts: Vec<usize> = Vec::new();
    let mut total: usize = 0;
    let mut k: usize = 0;
    while k < heights.len()
        invariant
            k <= heights@.len(),
            total == rows_before(heights@, k as int),
            starts@.len() == k,
            forall|i: int| 0 <= i < k ==> #[trigger] starts@[i] == rows_before(heights@, i),
        decreases heights.len() - k,
    {
        starts.push(total);
        let h = heights[k] as usize;
        if total > usize::MAX - h {
            proof {
                lemma_rows_before_monotone(heights@, k + 1, heights@.len() as int);
            }
            return None;
        }
        total = total + h;
        k = k + 1;
    }
    let end = total - if scroll_offset <= total {
        scroll_offset
    } else {
        total
    };
    let view = view_height as usize;
    let start = end - if view <= end {
        view
    } else {
        end
    };
    Some(RowWindow { start, end, item_starts: starts })
}

/// Which of an item's rows a window `start..end` shows, for an item whose
/// first row is `first` and which is `height` rows tall: the item's rows
/// `from..to` that fall in the window, none when they miss it.
pub open spec fn spec_visible_lines(start: int, end: int, first: int, height: int) -> (int, int) {
    let lo = if start >= first {
        start
    } else {
        first
    };
    let hi = if end <= first + height {
        end
    } else {
        first + height
    };
    if lo < hi {
        (lo - first, hi - first)
    } else {
        (0, 0)
    }
}

/// The rows `from..to` of an item that `window` shows.
pub fn visible_lines(window: &RowWindow, first: usize, height: u16) -> (r: (usize, usize))
    ensures
        (r.0 as int, r.1 as int) == spec_visible_lines(
            window.start as int,
            window.end as int,
            first as int,
            height as int,
        ),
        r.0 <= r.1 <= height,
{
    if first >= window.end {
        return (0, 0);
    }
    let h = height as usize;
    let lo = if window.start >= first {
        window.start
    } else {
        first
    };
    let hi = if window.end - first <= h {
        window.end
    } else {
        first + h
    };
    if lo < hi {
        (lo - first, hi - first)
    } else {
        (0, 0)
    }
}

/// The row of `area` where a bottom-aligned window of `rows` rows begins.
pub fn window_top(area: Rect, rows: usize) -> (r: u16)
    requires
        rows <= area.height,
        area.fits(),
    ensures
        r == area.y + area.height - rows,
{
    area.y + (area.height - rows as u16)
}

/// Whether a cell only carries session metadata (the session header or
/// session info), which the owned canvas does not show.
pub open spec fn spec_is_session_metadata(cell: HistoryCell) -> bool {
    cell.kind == CellKind::SessionHeader || cell.kind == CellKind::SessionInfo
}

/// Whether `cell` only carries session metadata.
pub fn is_session_metadata(cell: &HistoryCell) -> (r: bool)
    ensures
        r == spec_is_session_metadata(*cell),
        r == (cell.kind == CellKind::SessionHeader || cell.kind == CellKind::SessionInfo),
{
    match cell.kind {
        CellKind::SessionHeader | CellKind::SessionInfo => true,
        _ => false,
    }
}

/// The cells of `cells` that are not session metadata, in order.
pub open spec fn visible(cells: Seq<HistoryCell>) -> Seq<HistoryCell>
    decreases cells.len(),
{
    if cells.len() == 0 {
        Seq::empty()
    } else {
        let rest = visible(cells.drop_last());
        if spec_is_session_metadata(cells.last()) {
            rest
        } else {
            rest.push(cells.last())
        }
    }
}

/// The cells of `cells` that are not session metadata, in order.
pub fn visible_cells(cells: &Vec<HistoryCell>) -> (r: Vec<HistoryCell>)
    ensures
        r@ == visible(cells@),
{
    let mut kept: Vec<HistoryCell> = Vec::new();
    let mut i: usize = 0;
    while i < cells.len()
        invariant
            i <= cells@.len(),
            kept@ == visible(cells@.take(i as int)),
        decreases cells.len() - i,
    {
        let cell = cells[i];
        assert(cells@.take(i + 1).drop_last() =~= cells@.take(i as int));
        if !is_session_metadata(&cell) {
            kept.push(cell);
        }
        i = i + 1;
    }
    assert(cells@.take(cells.len() as int) =~= cells@);
    kept
}

/// The item of a cell: spaced from the cell above unless it is the first cell
/// or continues the stream of the one above.
pub open spec fn cell_item(cell: HistoryCell, mode: HistoryRenderMode, has_prior_cells: bool) -> ContentModel {
    ContentModel::Cell { cell, mode, spaced: has_prior_cells && !cell.is_stream_continuation }
}

/// The item of the live tail, spaced as a cell would be.
pub open spec fn live_tail_item(lines: Seq<Seq<char>>, has_prior_cells: bool, is_stream_continuation: bool) -> ContentModel {
    ContentModel::LiveTail { lines, spaced: has_prior_cells && !is_stream_continuation }
}

/// The items of `cells` rendered in `mode`.
pub open spec fn rendered(cells: Seq<HistoryCell>, mode: HistoryRenderMode) -> Seq<ContentModel> {
    Seq::new(cells.len(), |i: int| cell_item(cells[i], mode, i > 0))
}

/// The viewport's model.
pub struct ViewportModel {
    pub cells: Seq<HistoryCell>,
    pub render_mode: HistoryRenderMode,
    pub live_tail_key: Option<LiveTailKey>,
    pub live_tail_dismisses_welcome: bool,
    pub pager: PagerModel,
}

/// The viewport's invariant: it shows no metadata; its pager holds the
/// rendered cells, then at most one item, the live tail, which is present only
/// while there is a live-tail key and holds some lines spaced for that key.
pub open spec fn model_wf(m: ViewportModel) -> bool {
    let items = m.pager.items;
    &&& forall|i: int| 0 <= i < m.cells.len() ==> !spec_is_session_metadata(#[trigger] m.cells[i])
    &&& items.len() == m.cells.len() || items.len() == m.cells.len() + 1
    &&& items.take(m.cells.len() as int) == rendered(m.cells, m.render_mode)
    &&& items.len() == m.cells.len() + 1 ==> {
        &&& m.live_tail_key is Some
        &&& items.last() matches ContentModel::LiveTail { lines, spaced }
        &&& lines.len() > 0
        &&& spaced == (m.cells.len() > 0 && !m.live_tail_key->0.is_stream_continuation)
    }
}

/// Whether the model shows a live tail.
pub open spec fn has_live_tail(m: ViewportModel) -> bool {
    m.pager.items.len() > m.cells.len()
}

/// Whether the welcome gives way: some shown cell dismisses it, or the live
/// tail that was last rendered did.
pub open spec fn spec_dismisses_welcome(m: ViewportModel) -> bool {
    (exists|i: int| 0 <= i < m.cells.len() && #[trigger] m.cells[i].dismisses_welcome)
        || m.live_tail_dismisses_welcome
}

/// The model after the shown cells become `cells` (already free of metadata):
/// the live tail is dropped, its key forgotten, and the cells re-rendered.
pub open spec fn with_cells(m: ViewportModel, cells: Seq<HistoryCell>) -> ViewportModel {
    ViewportModel {
        cells,
        live_tail_key: None,
        pager: PagerModel { items: rendered(cells, m.render_mode), ..m.pager },
        ..m
    }
}

/// The model after a switch to `mode`: the live tail is dropped, its key
/// forgotten, and the cells re-rendered in `mode`.
pub open spec fn with_mode(m: ViewportModel, mode: HistoryRenderMode) -> ViewportModel {
    ViewportModel {
        render_mode: mode,
        live_tail_key: None,
        pager: PagerModel { items: rendered(m.cells, mode), ..m.pager },
        ..m
    }
}

/// The live-tail key of an active cell at `width`.
pub open spec fn next_live_tail_key(width: u16, active_key: Option<ActiveCellTranscriptKey>) -> Option<LiveTailKey> {
    match active_key {
        Some(k) => Some(
            LiveTailKey {
                width,
                revision: k.revision,
                is_stream_continuation: k.is_stream_continuation,
                animation_tick: k.animation_tick,
            },
        ),
        None => None,
    }
}

/// Whether a live-tail sync has nothing to do: same key, same dismissal.
pub open spec fn live_tail_current(m: ViewportModel, key: Option<LiveTailKey>, dismisses_welcome: bool) -> bool {
    m.live_tail_key == key && m.live_tail_dismisses_welcome == dismisses_welcome
}

/// The model after the live tail is rendered for `key` as `lines`: the old
/// tail is dropped; a new one is shown when there is a key and the lines are
/// not empty, and only then may it dismiss the welcome.
pub open spec fn with_live_tail(
    m: ViewportModel,
    key: Option<LiveTailKey>,
    dismisses_welcome: bool,
    lines: Seq<Seq<char>>,
) -> ViewportModel {
    let base = rendered(m.cells, m.render_mode);
    let shown = key is Some && lines.len() > 0;
    ViewportModel {
        live_tail_key: key,
        live_tail_dismisses_welcome: shown && dismisses_welcome,
        pager: PagerModel {
            items: if shown {
                base.push(live_tail_item(lines, m.cells.len() > 0, key->0.is_stream_continuation))
            } else {
                base
            },
            ..m.pager
        },
        ..m
    }
}

/// The lines that the live tail's producer gave, none where it gave nothing.
pub open spec fn produced_lines(out: Option<Vec<String>>) -> Seq<Seq<char>> {
    match out {
        Some(v) => lines_view(v@),
        None => Seq::empty(),
    }
}

/// Whether two cell lists hold the same cells, by identity, in order.
pub open spec fn same_cells(a: Seq<HistoryCell>, b: Seq<HistoryCell>) -> bool {
    a.len() == b.len() && forall|i: int| 0 <= i < a.len() ==> #[trigger] a[i].id == b[i].id
}

/// The conversation shown on the owned full screen, bottom aligned.
pub struct ConversationViewport {
    content: PagerContent,
    cells: Vec<HistoryCell>,
    render_mode: HistoryRenderMode,
    live_tail_key: Option<LiveTailKey>,
    live_tail_dismisses_welcome: bool,
}

impl View for ConversationViewport {
    type V = ViewportModel;

    closed spec fn view(&self) -> ViewportModel {
        ViewportModel {
            cells: self.cells@,
            render_mode: self.render_mode,
            live_tail_key: self.live_tail_key,
            live_tail_dismisses_welcome: self.live_tail_dismisses_welcome,
            pager: self.content@,
        }
    }
}

/// Whether two live-tail keys are equal.
fn same_key(a: &Option<LiveTailKey>, b: &Option<LiveTailKey>) -> (r: bool)
    ensures
        r == (*a == *b),
{
    match (a, b) {
        (None, None) => true,
        (Some(x), Some(y)) => {
            let ticks = match (x.animation_tick, y.animation_tick) {
                (None, None) => true,
                (Some(s), Some(t)) => s == t,
                _ => false,
            };
            x.width == y.width && x.revision == y.revision && x.is_stream_continuation
                == y.is_stream_continuation && ticks
        },
        _ => false,
    }
}

/// Whether `a` and `b` hold the same cells, by identity, in order.
fn same_cell_ids(a: &Vec<HistoryCell>, b: &Vec<HistoryCell>) -> (r: bool)
    ensures
        r == same_cells(a@, b@),
{
    if a.len() != b.len() {
        return false;
    }
    let mut j: usize = 0;
    while j < a.len()
        invariant
            a@.len() == b@.len(),
            j <= a@.len(),
            forall|k: int| 0 <= k < j ==> #[trigger] a@[k].id == b@[k].id,
        decreases a.len() - j,
    {
        if a[j].id != b[j].id {
            return false;
        }
        j = j + 1;
    }
    true
}

impl ConversationViewport {
    /// The viewport's invariant.
    pub open spec fn wf(&self) -> bool {
        model_wf(self@)
    }

    /// An empty viewport in `render_mode`, following the bottom.
    pub fn new(render_mode: HistoryRenderMode, keymap: PagerKeymap) -> (r: ConversationViewport)
        ensures
            r.wf(),
            r@ == (ViewportModel {
                cells: Seq::empty(),
                render_mode,
                live_tail_key: None,
                live_tail_dismisses_welcome: false,
                pager: PagerModel { items: Seq::empty(), scroll_offset: 0, keymap },
            }),
    {
        let r = ConversationViewport {
            content: PagerContent::new(Vec::new(), keymap),
            cells: Vec::new(),
            render_mode,
            live_tail_key: None,
            live_tail_dismisses_welcome: false,
        };
        assert(r@.pager.items =~= Seq::<ContentModel>::empty());
        assert(r@.pager.items.take(0) =~= rendered(r@.cells, render_mode));
        r
    }

    /// The pager that renders the viewport.
    pub fn content(&self) -> (r: &PagerContent)
        ensures
            r@ == self@.pager,
    {
        &self.content
    }

    /// The height that the pager's item at `index` last measured, with its width.
    pub closed spec fn cached_at(&self, index: int) -> Option<(u16, u16)> {
        self.content.cached_at(index)
    }



    /// The rows the pager's item at `index` takes at `width`, as the pager
    /// measures it: its content's height plus one blank row when it is spaced.
    /// What the viewport shows does not change.
    pub fn item_height<F: FnOnce(u16) -> u16>(&mut self, index: usize, width: u16, measure: F) -> (r:
        u16)
        requires
            old(self).wf(),
            index < old(self)@.pager.items.len(),
            cache_hit(old(self).cached_at(index as int), width) is None ==> call_requires(
                measure,
                (width,),
            ),
        ensures
            final(self).wf(),
            final(self)@ == old(self)@,
            cache_hit(old(self).cached_at(index as int), width) matches Some(h) ==> r == sat_add(
                h,
                spacing_rows(old(self)@.pager.items[index as int]),
            ),
            cache_hit(old(self).cached_at(index as int), width) is None ==> exists|inner: u16|
                call_ensures(measure, (width,), inner) && r == sat_add(
                    inner,
                    spacing_rows(old(self)@.pager.items[index as int]),
                ),
    {
        self.content.item_height(index, width, measure)
    }

    /// The cells shown, in order.
    pub fn cells(&self) -> (r: &Vec<HistoryCell>)
        ensures
            r@ == self@.cells,
    {
        &self.cells
    }

    /// Whether nothing is shown: no cell and no live tail.
    pub fn is_empty(&self) -> (r: bool)
        ensures
            r == (self@.pager.items.len() == 0),
            self.wf() ==> r == (self@.cells.len() == 0 && !has_live_tail(self@)),
    {
        self.content.is_empty()
    }

    /// Whether the conversation hides the welcome.
    pub fn dismisses_welcome(&self) -> (r: bool)
        ensures
            r == spec_dismisses_welcome(self@),
    {
        let mut i: usize = 0;
        while i < self.cells.len()
            invariant
                i <= self.cells@.len(),
                forall|j: int| 0 <= j < i ==> !(#[trigger] self.cells@[j]).dismisses_welcome,
            decreases self.cells.len() - i,
        {
            if self.cells[i].dismisses_welcome {
                return true;
            }
            i = i + 1;
        }
        self.live_tail_dismisses_welcome
    }

    /// Scrolls three rows in `direction`.
    pub fn scroll(&mut self, direction: ScrollDirection)
        requires
            old(self).wf(),
        ensures
            final(self).wf(),
            final(self)@ == (ViewportModel {
                pager: PagerModel {
                    scroll_offset: scrolled(old(self)@.pager.scroll_offset, direction, 3),
                    ..old(self)@.pager
                },
                ..old(self)@
            }),
            forall|i: int| 0 <= i < old(self)@.pager.items.len() ==> #[trigger] final(self).cached_at(i)
                == old(self).cached_at(i),
    {
        proof {
            self.content.lemma_caches();
        }
        self.content.scroll(direction, 3);
        proof {
            self.content.lemma_caches();
        }
    }

    /// The item of a cell in `render_mode`.
    pub fn cell_renderable(cell: HistoryCell, render_mode: HistoryRenderMode, has_prior_cells: bool) -> (r:
        ContentItem)
        ensures
            r@ == cell_item(cell, render_mode, has_prior_cells),
            r.body matches ItemBody::Cell(c) && c.cached_height is None,
    {
        let is_stream_continuation = cell.is_stream_continuation;
        let renderable = ContentItem {
            body: ItemBody::Cell(ConversationCellRenderable { cell, render_mode, cached_height: None }),
            leading_spacing: false,
        };
        if has_prior_cells && !is_stream_continuation {
            Self::with_leading_spacing(renderable)
        } else {
            renderable
        }
    }

    /// The item of the live tail's lines.
    pub fn live_tail_renderable(lines: Vec<String>, has_prior_cells: bool, is_stream_continuation: bool) -> (r:
        ContentItem)
        ensures
            r@ == live_tail_item(lines_view(lines@), has_prior_cells, is_stream_continuation),
    {
        let renderable = ContentItem {
            body: ItemBody::LiveTail(HyperlinkLinesRenderable { lines }),
            leading_spacing: false,
        };
        if has_prior_cells && !is_stream_continuation {
            Self::with_leading_spacing(renderable)
        } else {
            renderable
        }
    }

    /// `renderable` with one blank row above it.
    pub fn with_leading_spacing(renderable: ContentItem) -> (r: ContentItem)
        ensures
            r.body == renderable.body,
            r.leading_spacing,
    {
        ContentItem { body: renderable.body, leading_spacing: true }
    }

    /// The items of `cells` in `render_mode`, each spaced from the one above
    /// unless it is the first or continues its stream.
    pub fn render_cells(cells: &Vec<HistoryCell>, render_mode: HistoryRenderMode) -> (r: Vec<ContentItem>)
        ensures
            items_view(r@) == rendered(cells@, render_mode),
            caches_of(r@) == no_caches(cells@.len()),
    {
        let mut out: Vec<ContentItem> = Vec::new();
        let mut index: usize = 0;
        while index < cells.len()
            invariant
                index <= cells@.len(),
                items_view(out@) == rendered(cells@, render_mode).take(index as int),
                caches_of(out@) == no_caches(index as nat),
            decreases cells.len() - index,
        {
            let item = Self::cell_renderable(cells[index], render_mode, index > 0);
            let ghost prev = out@;
            out.push(item);
            proof {
                let r = rendered(cells@, render_mode);
                assert(r[index as int] == cell_item(cells@[index as int], render_mode, index > 0));
                assert(out@ == prev.push(item));
                assert(items_view(out@) =~= items_view(prev).push(item@));
                assert(items_view(out@) =~= r.take(index + 1));
                assert(item_cache(item) is None);
                assert(caches_of(out@) =~= caches_of(prev).push(item_cache(item)));
                assert(caches_of(out@) =~= no_caches((index + 1) as nat));
            }
            index = index + 1;
        }
        assert(rendered(cells@, render_mode).take(cells.len() as int) =~= rendered(cells@, render_mode));
        out
    }

    /// Takes the live tail off the pager, if it shows one.
    pub fn take_live_tail_renderable(&mut self) -> (r: Option<ContentItem>)
        ensures
            has_live_tail(old(self)@) ==> (r matches Some(item) && item@ == old(self)@.pager.items.last())
                && final(self)@ == (ViewportModel {
                pager: PagerModel { items: old(self)@.pager.items.drop_last(), ..old(self)@.pager },
                ..old(self)@
            }),
            !has_live_tail(old(self)@) ==> r is None && final(self)@ == old(self)@,
            forall|i: int| 0 <= i < final(self)@.pager.items.len() ==> #[trigger] final(self).cached_at(i)
                == old(self).cached_at(i),
    {
        proof {
            self.content.lemma_caches();
        }
        let r = if self.content.len() > self.cells.len() {
            self.content.pop()
        } else {
            None
        };
        proof {
            self.content.lemma_caches();
        }
        r
    }

    /// Drops the live tail; the pager then holds the rendered cells.
    fn drop_live_tail(&mut self)
        requires
            old(self).wf(),
        ensures
            final(self)@ == (ViewportModel {
                pager: PagerModel { items: rendered(old(self)@.cells, old(self)@.render_mode), ..old(self)@.pager },
                ..old(self)@
            }),
            forall|i: int| 0 <= i < old(self)@.cells.len() ==> #[trigger] final(self).cached_at(i)
                == old(self).cached_at(i),
    {
        let _ = self.take_live_tail_renderable();
        proof {
            if !has_live_tail(old(self)@) {
                assert(old(self)@.pager.items =~= old(self)@.pager.items.take(old(self)@.cells.len() as int));
            } else {
                assert(old(self)@.pager.items.drop_last() =~= old(self)@.pager.items.take(old(self)@.cells.len() as int));
            }
        }
    }

    /// Shows `cells`, without their session metadata, in place of the shown
    /// cells; drops the live tail and forgets its key. A view that followed the
    /// bottom still does.
    pub fn replace_cells(&mut self, cells: Vec<HistoryCell>)
        requires
            old(self).wf(),
        ensures
            final(self).wf(),
            final(self)@ == with_cells(old(self)@, visible(cells@)),
            final(self)@.cells == cells@.filter(
                |c: HistoryCell| c.kind != CellKind::SessionHeader && c.kind != CellKind::SessionInfo,
            ),
            forall|i: int| 0 <= i < final(self)@.pager.items.len() ==> #[trigger] final(self).cached_at(i)
                is None,
    {
        proof {
            lemma_visible_drops_only_header_and_info(cells@);
        }
        let follow_bottom = self.content.is_following_bottom();
        self.drop_live_tail();
        self.live_tail_key = None;
        let kept = visible_cells(&cells);
        proof {
            lemma_visible_no_metadata(cells@);
        }
        self.cells = kept;
        let items = Self::render_cells(&self.cells, self.render_mode);
        self.content.replace(items);
        if follow_bottom {
            self.content.scroll_to_bottom();
        }
        proof {
            assert(self@.pager.items.take(self@.cells.len() as int) =~= self@.pager.items);
            self.content.lemma_caches();
        }
    }

    /// Shows `cells` unless the shown cells are already the same cells, by
    /// identity, once session metadata is left out.
    pub fn replace_cells_if_changed(&mut self, cells: &Vec<HistoryCell>)
        requires
            old(self).wf(),
        ensures
            final(self).wf(),
            same_cells(old(self)@.cells, visible(cells@)) ==> final(self)@ == old(self)@,
            !same_cells(old(self)@.cells, visible(cells@)) ==> final(self)@ == with_cells(
                old(self)@,
                visible(cells@),
            ),
            old(self)@.cells.len() != visible(cells@).len() ==> final(self)@.cells == visible(cells@),
            (exists|i: int|
                0 <= i < old(self)@.cells.len() && i < visible(cells@).len() && #[trigger] old(
                    self,
                )@.cells[i].id != visible(cells@)[i].id) ==> final(self)@.cells == visible(cells@),
            final(self)@.cells.len() == visible(cells@).len(),
            forall|i: int|
                0 <= i < final(self)@.cells.len() ==> #[trigger] final(self)@.cells[i].id == visible(
                    cells@,
                )[i].id,
            forall|i: int| 0 <= i < final(self)@.pager.items.len() ==> #[trigger] final(self).cached_at(i)
                == if same_cells(old(self)@.cells, visible(cells@)) {
                    old(self).cached_at(i)
                } else {
                    None
                },
    {
        let shown = visible_cells(cells);
        let unchanged = same_cell_ids(&self.cells, &shown);
        if !unchanged {
            proof {
                lemma_visible_idempotent(cells@);
            }
            self.replace_cells(shown);
        }
    }

    /// Renders the cells in `render_mode`, unless they already are; a switch
    /// drops the live tail and forgets its key.
    pub fn set_render_mode(&mut self, render_mode: HistoryRenderMode)
        requires
            old(self).wf(),
        ensures
            final(self).wf(),
            render_mode == old(self)@.render_mode ==> final(self)@ == old(self)@,
            render_mode != old(self)@.render_mode ==> final(self)@ == with_mode(old(self)@, render_mode),
            forall|i: int| 0 <= i < final(self)@.pager.items.len() ==> #[trigger] final(self).cached_at(i)
                == if render_mode == old(self)@.render_mode {
                    old(self).cached_at(i)
                } else {
                    None
                },
    {
        if self.render_mode == render_mode {
            return;
        }
        let follow_bottom = self.content.is_following_bottom();
        self.drop_live_tail();
        self.live_tail_key = None;
        self.render_mode = render_mode;
        let items = Self::render_cells(&self.cells, self.render_mode);
        self.content.replace(items);
        if follow_bottom {
            self.content.scroll_to_bottom();
        }
        proof {
            assert(self@.pager.items.take(self@.cells.len() as int) =~= self@.pager.items);
            self.content.lemma_caches();
        }
    }

    /// Renders the live tail of the active cell at `width`, unless it is
    /// already rendered for the same key and dismissal. The lines come from
    /// `compute_lines`, which runs only when there is an active cell and the key
    /// or dismissal changed. A tail without lines is not shown, and only a
    /// shown tail may dismiss the welcome.
    #[verifier::rlimit(40)]
    pub fn sync_live_tail<F: FnOnce(u16) -> Option<Vec<String>>>(
        &mut self,
        width: u16,
        active_key: Option<ActiveCellTranscriptKey>,
        dismisses_welcome: bool,
        compute_lines: F,
    )
        requires
            old(self).wf(),
            active_key is Some ==> call_requires(compute_lines, (width,)),
        ensures
            final(self).wf(),
            live_tail_current(old(self)@, next_live_tail_key(width, active_key), dismisses_welcome)
                ==> final(self)@ == old(self)@,
            !live_tail_current(old(self)@, next_live_tail_key(width, active_key), dismisses_welcome)
                && active_key is None ==> final(self)@ == with_live_tail(
                old(self)@,
                None,
                dismisses_welcome,
                Seq::empty(),
            ),
            !live_tail_current(old(self)@, next_live_tail_key(width, active_key), dismisses_welcome)
                && active_key is Some ==> exists|out: Option<Vec<String>>|
                call_ensures(compute_lines, (width,), out) && final(self)@ == with_live_tail(
                    old(self)@,
                    next_live_tail_key(width, active_key),
                    dismisses_welcome,
                    produced_lines(out),
                ),
            active_key is None ==> final(self)@.live_tail_key is None,
            active_key matches Some(k) ==> final(self)@.live_tail_key matches Some(t) && t.width == width
                && t.revision == k.revision && t.is_stream_continuation == k.is_stream_continuation
                && t.animation_tick == k.animation_tick,
            forall|i: int| 0 <= i < final(self)@.pager.items.len() ==> #[trigger] final(self).cached_at(i)
                == if i < old(self)@.cells.len() {
                    old(self).cached_at(i)
                } else {
                    None
                },
    {
        let next_key = match active_key {
            Some(key) => Some(
                LiveTailKey {
                    width,
                    revision: key.revision,
                    is_stream_continuation: key.is_stream_continuation,
                    animation_tick: key.animation_tick,
                },
            ),
            None => None,
        };
        proof {
            self.content.lemma_caches();
            if has_live_tail(self@) {
                assert(self@.pager.items[self@.cells.len() as int] == self@.pager.items.last());
            }
        }
        if same_key(&self.live_tail_key, &next_key) && self.live_tail_dismisses_welcome
            == dismisses_welcome {
            return;
        }
        let follow_bottom = self.content.is_following_bottom();
        self.drop_live_tail();
        let ghost dropped = *self;
        self.live_tail_key = next_key;
        self.live_tail_dismisses_welcome = false;
        proof {
            self.content.lemma_caches();
        }
        let ghost c0 = self.content.caches();
        assert forall|i: int| 0 <= i < old(self)@.cells.len() implies #[trigger] c0[i] == old(self).cached_at(i) by {
            assert(dropped.cached_at(i) == old(self).cached_at(i));
            assert(self.content.cached_at(i) == c0[i]);
        }
        assert(c0.len() == old(self)@.cells.len());
        match next_key {
            Some(key) => {
                let out = compute_lines(width);
                let ghost produced = out;
                let lines = match out {
                    Some(lines) => lines,
                    None => Vec::new(),
                };
                assert(lines_view(lines@) =~= produced_lines(produced));
                if lines.len() > 0 {
                    self.live_tail_dismisses_welcome = dismisses_welcome;
                    let has_prior = self.cells.len() > 0;
                    let item = Self::live_tail_renderable(
                        lines,
                        has_prior,
                        key.is_stream_continuation,
                    );
                    self.content.push(item);
                }
                if follow_bottom {
                    self.content.scroll_to_bottom();
                }
                proof {
                    let target = with_live_tail(
                        old(self)@,
                        next_key,
                        dismisses_welcome,
                        produced_lines(produced),
                    );
                    assert(self@.pager.items =~= target.pager.items);
                    assert(self@ == target);
                    self.content.lemma_caches();
                    assert forall|i: int| 0 <= i < self@.pager.items.len() implies #[trigger] self.cached_at(i)
                        == (if i < old(self)@.cells.len() {
                        old(self).cached_at(i)
                    } else {
                        None
                    }) by {
                        if i < old(self)@.cells.len() {
                            assert(self.content.caches()[i] == c0[i]);
                        } else {
                            assert(self@.pager.items[i] is LiveTail);
                        }
                    }
                    assert(self@.pager.items.take(self@.cells.len() as int) =~= rendered(
                        self@.cells,
                        self@.render_mode,
                    ));
                }
            },
            None => {
                if follow_bottom {
                    self.content.scroll_to_bottom();
                }
                proof {
                    self.content.lemma_caches();
                    assert forall|i: int| 0 <= i < self@.pager.items.len() implies #[trigger] self.cached_at(i)
                        == old(self).cached_at(i) by {
                        assert(self.content.caches()[i] == c0[i]);
                    }
                    assert(self@.pager.items.take(self@.cells.len() as int) =~= self@.pager.items);
                }
            },
        }
    }
}

proof fn lemma_visible_no_metadata(cells: Seq<HistoryCell>)
    ensures
        forall|i: int|
            0 <= i < visible(cells).len() ==> !spec_is_session_metadata(#[trigger] visible(cells)[i]),
    decreases cells.len(),
{
    if cells.len() > 0 {
        lemma_visible_no_metadata(cells.drop_last());
        let rest = visible(cells.drop_last());
        if !spec_is_session_metadata(cells.last()) {
            assert forall|i: int| 0 <= i < visible(cells).len() implies !spec_is_session_metadata(
                #[trigger] visible(cells)[i],
            ) by {
                if i < rest.len() {
                    assert(visible(cells)[i] == rest[i]);
                }
            }
        }
    }
}

/// Leaving out session metadata twice leaves out what once does.
pub proof fn lemma_visible_idempotent(cells: Seq<HistoryCell>)
    ensures
        visible(visible(cells)) == visible(cells),
    decreases cells.len(),
{
    if cells.len() > 0 {
        lemma_visible_idempotent(cells.drop_last());
        let rest = visible(cells.drop_last());
        if !spec_is_session_metadata(cells.last()) {
            let v = rest.push(cells.last());
            assert(v.drop_last() =~= rest);
        }
    }
}

/// Once the live tail is synced for a key, syncing again for the same key and
/// dismissal does nothing, as long as the tail was shown or does not dismiss
/// the welcome.
pub proof fn lemma_sync_settles(
    m: ViewportModel,
    key: Option<LiveTailKey>,
    dismisses_welcome: bool,
    lines: Seq<Seq<char>>,
)
    requires
        (key is Some && lines.len() > 0) || !dismisses_welcome,
    ensures
        live_tail_current(with_live_tail(m, key, dismisses_welcome, lines), key, dismisses_welcome),
{
}

/// A live tail dismisses the welcome only when it is shown and its sync asks
/// for it; a background tail never does.
pub proof fn lemma_live_tail_dismisses_only_when_asked(
    m: ViewportModel,
    key: Option<LiveTailKey>,
    dismisses_welcome: bool,
    lines: Seq<Seq<char>>,
)
    ensures
        with_live_tail(m, key, dismisses_welcome, lines).live_tail_dismisses_welcome <==> (
        dismisses_welcome && key is Some && lines.len() > 0),
        !dismisses_welcome ==> (spec_dismisses_welcome(with_live_tail(m, key, false, lines))
            <==> exists|i: int| 0 <= i < m.cells.len() && #[trigger] m.cells[i].dismisses_welcome),
{
}

/// Replacing the cells with ones that are all session metadata leaves the
/// conversation empty: nothing but the welcome shows.
pub proof fn lemma_metadata_only_shows_nothing(m: ViewportModel, cells: Seq<HistoryCell>)
    requires
        forall|i: int| 0 <= i < cells.len() ==> spec_is_session_metadata(#[trigger] cells[i]),
    ensures
        with_cells(m, visible(cells)).pager.items.len() == 0,
        with_cells(m, visible(cells)).cells.len() == 0,
    decreases cells.len(),
{
    if cells.len() > 0 {
        assert(spec_is_session_metadata(cells.last()));
        lemma_metadata_only_shows_nothing(m, cells.drop_last());
    }
}

/// After the cells are replaced, the conversation is empty exactly when no
/// cell but session metadata was given.
pub proof fn lemma_replaced_empty_iff_only_metadata(m: ViewportModel, cells: Seq<HistoryCell>)
    ensures
        (with_cells(m, visible(cells)).pager.items.len() == 0) <==> (forall|i: int|
            0 <= i < cells.len() ==> spec_is_session_metadata(#[trigger] cells[i])),
    decreases cells.len(),
{
    if cells.len() > 0 {
        lemma_replaced_empty_iff_only_metadata(m, cells.drop_last());
        let rest = cells.drop_last();
        if forall|i: int| 0 <= i < cells.len() ==> spec_is_session_metadata(#[trigger] cells[i]) {
            assert forall|i: int| 0 <= i < rest.len() implies spec_is_session_metadata(
                #[trigger] rest[i],
            ) by {
                assert(rest[i] == cells[i]);
            }
        } else {
            let i = choose|i: int| 0 <= i < cells.len() && !spec_is_session_metadata(#[trigger] cells[i]);
            if i == cells.len() - 1 {
                assert(visible(cells).len() > 0);
            } else {
                assert(!spec_is_session_metadata(rest[i]));
                assert(visible(cells).len() >= visible(rest).len());
            }
        }
    }
}

/// Replacing the cells and then offering the same cells again is seen as no
/// change: the shown cells are the same cells.
pub proof fn lemma_replace_then_unchanged(m: ViewportModel, cells: Seq<HistoryCell>)
    ensures
        same_cells(with_cells(m, visible(cells)).cells, visible(cells)),
{
}

/// Scrolling down by as many rows as were just scrolled up returns to the same
/// place, unless scrolling up hit the limit.
pub proof fn lemma_scroll_round_trip(offset: usize, rows: usize)
    requires
        offset + rows <= usize::MAX,
    ensures
        scrolled(scrolled(offset, ScrollDirection::Up, rows), ScrollDirection::Down, rows) == offset,
{
}

/// Replacing the cells, switching the render mode and syncing the live tail
/// each keep the viewport's invariant, whatever the lines of the tail.
pub proof fn lemma_updates_keep_invariant(
    m: ViewportModel,
    cells: Seq<HistoryCell>,
    mode: HistoryRenderMode,
    key: Option<LiveTailKey>,
    dismisses_welcome: bool,
    lines: Seq<Seq<char>>,
)
    requires
        model_wf(m),
    ensures
        model_wf(with_cells(m, visible(cells))),
        model_wf(with_mode(m, mode)),
        model_wf(with_live_tail(m, key, dismisses_welcome, lines)),
{
    lemma_visible_no_metadata(cells);
    let a = with_cells(m, visible(cells));
    assert(a.pager.items.take(a.cells.len() as int) =~= a.pager.items);
    let b = with_mode(m, mode);
    assert(b.pager.items.take(b.cells.len() as int) =~= b.pager.items);
    let c = with_live_tail(m, key, dismisses_welcome, lines);
    assert(c.pager.items.take(c.cells.len() as int) =~= rendered(c.cells, c.render_mode));
}


/// The cells that the viewport shows of `cells` are exactly those whose kind
/// is neither the session header nor session info, in their order: every cell
/// of any other kind is kept.
pub proof fn lemma_visible_drops_only_header_and_info(cells: Seq<HistoryCell>)
    ensures
        visible(cells) == cells.filter(
            |c: HistoryCell| c.kind != CellKind::SessionHeader && c.kind != CellKind::SessionInfo,
        ),
    decreases cells.len(),
{
    reveal(Seq::filter);
    if cells.len() > 0 {
        lemma_visible_drops_only_header_and_info(cells.drop_last());
    }
}

/// A cell list in which no cell is the session header or session info is
/// shown whole.
pub proof fn lemma_visible_keeps_cells_without_metadata(cells: Seq<HistoryCell>)
    requires
        forall|i: int|
            0 <= i < cells.len() ==> #[trigger] cells[i].kind != CellKind::SessionHeader
                && cells[i].kind != CellKind::SessionInfo,
    ensures
        visible(cells) == cells,
    decreases cells.len(),
{
    if cells.len() > 0 {
        let rest = cells.drop_last();
        assert forall|i: int| 0 <= i < rest.len() implies #[trigger] rest[i].kind
            != CellKind::SessionHeader && rest[i].kind != CellKind::SessionInfo by {
            assert(rest[i] == cells[i]);
        }
        lemma_visible_keeps_cells_without_metadata(rest);
        assert(cells[cells.len() - 1] == cells.last());
        assert(rest.push(cells.last()) =~= cells);
    }
}

/// Two cell lists count as the same cells exactly when they are equally long
/// and hold the same cell, by id, at every index; a list that differs at any
/// index is a change.
pub proof fn lemma_same_cells_compares_every_index(a: Seq<HistoryCell>, b: Seq<HistoryCell>, i: int)
    ensures
        same_cells(a, b) ==> a.len() == b.len(),
        same_cells(a, b) && 0 <= i < a.len() ==> a[i].id == b[i].id,
        a.len() == b.len() && (forall|j: int| 0 <= j < a.len() ==> #[trigger] a[j].id == b[j].id)
            ==> same_cells(a, b),
        0 <= i < a.len() && 0 <= i < b.len() && a[i].id != b[i].id ==> !same_cells(a, b),
{
}

/// The key the live tail is recorded under after a sync with an active cell
/// carries that cell's revision, stream continuation and animation tick, and
/// the width; without an active cell there is none.
pub proof fn lemma_live_tail_key_records_the_active_key(width: u16, active_key: Option<ActiveCellTranscriptKey>)
    ensures
        active_key is None ==> next_live_tail_key(width, active_key) is None,
        active_key matches Some(k) ==> next_live_tail_key(width, active_key) matches Some(t) && t.width
            == width && t.revision == k.revision && t.is_stream_continuation == k.is_stream_continuation
            && t.animation_tick == k.animation_tick,
{
}

/// Once the live tail was rendered for an active cell at some revision, a sync
/// for another revision is never skipped: the tail is recomputed, and lines
/// that the producer gives are shown as the last item.
pub proof fn lemma_new_revision_recomputes(
    m: ViewportModel,
    width: u16,
    before: ActiveCellTranscriptKey,
    after: ActiveCellTranscriptKey,
    dismisses_welcome: bool,
    lines: Seq<Seq<char>>,
)
    requires
        m.live_tail_key == next_live_tail_key(width, Some(before)),
        before.revision != after.revision,
        lines.len() > 0,
    ensures
        !live_tail_current(m, next_live_tail_key(width, Some(after)), dismisses_welcome),
        with_live_tail(m, next_live_tail_key(width, Some(after)), dismisses_welcome, lines).pager.items.last()
            matches ContentModel::LiveTail { lines: shown, .. } && shown == lines,
        with_live_tail(m, next_live_tail_key(width, Some(after)), dismisses_welcome, lines).live_tail_key
            matches Some(t) && t.revision == after.revision,
{
}

} // verus!
