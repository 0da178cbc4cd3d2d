//! Application-owned full-screen composition: the conversation canvas above
//! the bottom pane, and the choice between the conversation and the welcome.

use vstd::prelude::*;
use crate::geometry::{Rect, min16, min_u16, rect, sat_add};
use crate::keys::{KeyBinding, PagerKeymap};
use crate::viewport::{
    ActiveCellTranscriptKey, ConversationViewport, HistoryRenderMode, PagerModel, ViewportModel,
    live_tail_current, next_live_tail_key, spec_dismisses_welcome, produced_lines, with_live_tail, with_mode,
};
use crate::welcome::SolWelcome;

verus! {

/// The canvas and the bottom pane of a frame over `area`: the bottom pane
/// takes the rows it asks for, at most the whole area, and the canvas the rows
/// above it.
pub open spec fn spec_owned_layout(area: Rect, bottom_desired_height: u16) -> (Rect, Rect) {
    let bottom_height = min16(bottom_desired_height, area.height);
    let canvas_height = (area.height - bottom_height) as u16;
    (
        rect(area.x, area.y, area.width, canvas_height),
        rect(area.x, sat_add(area.y, canvas_height), area.width, bottom_height),
    )
}

/// The canvas and bottom-pane rectangles of a frame over `area`.
pub fn owned_layout(area: Rect, bottom_desired_height: u16) -> (r: (Rect, Rect))
    ensures
        r == spec_owned_layout(area, bottom_desired_height),
        area.fits() ==> {
            &&& r.0.height + r.1.height == area.height
            &&& r.1.y == r.0.spec_bottom()
            &&& r.0.width == area.width && r.1.width == area.width
            &&& r.1.height == min16(bottom_desired_height, area.height)
        },
{
    let bottom_height = min_u16(bottom_desired_height, area.height);
    let canvas_height = area.height.saturating_sub(bottom_height);
    let canvas = Rect::new(area.x, area.y, area.width, canvas_height);
    let bottom = Rect::new(area.x, area.y.saturating_add(canvas_height), area.width, bottom_height);
    (canvas, bottom)
}

/// What a frame of the owned screen draws: in the canvas, either the welcome
/// (with whatever the conversation shows drawn over it, uncleared) or the
/// conversation alone; and the bottom pane below it.
#[derive(Clone, Copy, Debug, PartialEq, Eq, Structural)]
pub struct OwnedFrame {
    pub canvas: Rect,
    pub bottom: Rect,
    pub shows_welcome: bool,
    pub draws_over: bool,
}

/// The owned full screen: the conversation viewport and the welcome that
/// stands in for an empty conversation.
pub struct OwnedScreen {
    pub viewport: ConversationViewport,
    pub welcome: SolWelcome,
}

impl OwnedScreen {
    /// A screen with an empty conversation in rich rendering and a fresh welcome.
    pub fn new(
        pager_keymap: PagerKeymap,
        animations_enabled: bool,
        history_key: Option<KeyBinding>,
        shortcuts_key: Option<KeyBinding>,
    ) -> (r: OwnedScreen)
        ensures
            r.viewport.wf(),
            r.viewport@ == (ViewportModel {
                cells: Seq::empty(),
                render_mode: HistoryRenderMode::Rich,
                live_tail_key: None,
                live_tail_dismisses_welcome: false,
                pager: PagerModel { items: Seq::empty(), scroll_offset: 0, keymap: pager_keymap },
            }),
            r.welcome.animations_enabled == animations_enabled,
            r.welcome.history_key == history_key,
            r.welcome.shortcuts_key == shortcuts_key,
    {
        OwnedScreen {
            viewport: ConversationViewport::new(HistoryRenderMode::Rich, pager_keymap),
            welcome: SolWelcome::new(animations_enabled, history_key, shortcuts_key),
        }
    }

    /// Brings the conversation up to date for a frame over `area` and says what
    /// to draw: the cells are rendered in `render_mode`, the live tail is synced
    /// for the active cell at the area's width, and the welcome shows until
    /// the conversation dismisses it. Content that does not dismiss it, such as
    /// a startup warning or a background live tail, is drawn over the welcome.
    pub fn prepare_frame<F: FnOnce(u16) -> Option<Vec<String>>>(
        &mut self,
        area: Rect,
        bottom_desired_height: u16,
        render_mode: HistoryRenderMode,
        active_key: Option<ActiveCellTranscriptKey>,
        dismisses_welcome: bool,
        compute_lines: F,
    ) -> (r: OwnedFrame)
        requires
            old(self).viewport.wf(),
            active_key is Some ==> call_requires(compute_lines, (area.width,)),
        ensures
            final(self).viewport.wf(),
            (r.canvas, r.bottom) == spec_owned_layout(area, bottom_desired_height),
            r.shows_welcome == !spec_dismisses_welcome(final(self).viewport@),
            r.draws_over == (r.shows_welcome && final(self).viewport@.pager.items.len() > 0),
            ({
                let moded = if render_mode == old(self).viewport@.render_mode {
                    old(self).viewport@
                } else {
                    with_mode(old(self).viewport@, render_mode)
                };
                let key = next_live_tail_key(area.width, active_key);
                &&& live_tail_current(moded, key, dismisses_welcome) ==> final(self).viewport@ == moded
                &&& !live_tail_current(moded, key, dismisses_welcome) && active_key is None
                    ==> final(self).viewport@ == with_live_tail(moded, None, dismisses_welcome, Seq::empty())
                &&& !live_tail_current(moded, key, dismisses_welcome) && active_key is Some
                    ==> exists|out: Option<Vec<String>>|
                    call_ensures(compute_lines, (area.width,), out) && final(self).viewport@
                        == with_live_tail(moded, key, dismisses_welcome, produced_lines(out))
            }),
    {
        let (canvas, bottom) = owned_layout(area, bottom_desired_height);
        self.viewport.set_render_mode(render_mode);
        self.viewport.sync_live_tail(area.width, active_key, dismisses_welcome, compute_lines);
        let shows_welcome = !self.viewport.dismisses_welcome();
        let draws_over = shows_welcome && !self.viewport.is_empty();
        OwnedFrame { canvas, bottom, shows_welcome, draws_over }
    }
}

} // verus!
