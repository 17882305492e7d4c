//! The document viewer's zoom, where context menus open, and how a name tells a click from
//! a double click.

use vstd::prelude::*;
use crate::numbers::{decimal_spec, push_decimal};
use crate::text::push_text;

verus! {

/// The smallest zoom, in percent.
pub const MIN_ZOOM: u32 = 50;

/// The largest zoom, in percent.
pub const MAX_ZOOM: u32 = 300;

/// The zoom a document opens at, in percent.
pub const DEFAULT_ZOOM: u32 = 100;

/// The zoom after pressing `+`: ten points more, at most the largest zoom.
pub open spec fn zoom_in_spec(z: u32) -> u32 {
    if z + 10 < 300 {
        (z + 10) as u32
    } else {
        300
    }
}

/// The zoom after pressing `−`: ten points less, at least the smallest zoom.
pub open spec fn zoom_out_spec(z: u32) -> u32 {
    if z < 60 {
        50
    } else {
        (z - 10) as u32
    }
}

/// Zooms in by ten points, up to 300%.
pub fn zoom_in(z: u32) -> (r: u32)
    requires
        z + 10 <= u32::MAX,
    ensures
        r == zoom_in_spec(z),
{
    let up = z + 10;
    if up < MAX_ZOOM {
        up
    } else {
        MAX_ZOOM
    }
}

/// Zooms out by ten points, down to 50%.
pub fn zoom_out(z: u32) -> (r: u32)
    ensures
        r == zoom_out_spec(z),
{
    let down = z.saturating_sub(10);
    if down > MIN_ZOOM {
        down
    } else {
        MIN_ZOOM
    }
}

/// The zoom that the reset button restores.
pub fn reset_zoom() -> (r: u32)
    ensures
        r == 100,
{
    DEFAULT_ZOOM
}

/// The zoom stays between 50% and 300% whatever is pressed, and zooming out undoes zooming
/// in (and the reverse) wherever neither hits a limit.
pub proof fn lemma_zoom_bounds(z: u32)
    ensures
        50 <= z <= 300 ==> 50 <= zoom_in_spec(z) <= 300,
        50 <= z <= 300 ==> 50 <= zoom_out_spec(z) <= 300,
        50 <= z <= 290 ==> zoom_out_spec(zoom_in_spec(z)) == z,
        60 <= z <= 300 ==> zoom_in_spec(zoom_out_spec(z)) == z,
{
}

/// A press of one of the zoom buttons.
#[derive(Clone, Copy, Debug, PartialEq, Eq, Structural)]
pub enum ZoomPress {
    In,
    Out,
    Reset,
}

/// The zoom after one press.
pub open spec fn zoom_step(z: u32, p: ZoomPress) -> u32 {
    match p {
        ZoomPress::In => zoom_in_spec(z),
        ZoomPress::Out => zoom_out_spec(z),
        ZoomPress::Reset => 100,
    }
}

/// The zoom after a run of presses, starting from `z`.
pub open spec fn zoom_after(z: u32, presses: Seq<ZoomPress>) -> u32
    decreases presses.len(),
{
    if presses.len() == 0 {
        z
    } else {
        zoom_step(zoom_after(z, presses.drop_last()), presses.last())
    }
}

/// One press of a zoom button, as the viewer applies it.
pub fn press_zoom(z: u32, p: ZoomPress) -> (r: u32)
    requires
        z + 10 <= u32::MAX,
    ensures
        r == zoom_step(z, p),
{
    match p {
        ZoomPress::In => zoom_in(z),
        ZoomPress::Out => zoom_out(z),
        ZoomPress::Reset => reset_zoom(),
    }
}

/// A document opens at 100%, and whatever buttons are pressed after, the zoom stays between
/// 50% and 300% and a multiple of ten.
pub proof fn lemma_zoom_stays_on_steps(presses: Seq<ZoomPress>)
    ensures
        50 <= zoom_after(100, presses) <= 300,
        zoom_after(100, presses) % 10 == 0,
    decreases presses.len(),
{
    if presses.len() > 0 {
        lemma_zoom_stays_on_steps(presses.drop_last());
    }
}

/// The zoom label, such as `120%`.
pub fn zoom_label(z: u32) -> (s: String)
    ensures
        s@ == decimal_spec(z as nat) + "%"@,
{
    let mut s = String::new();
    push_decimal(&mut s, z as u64);
    push_text(&mut s, "%");
    s
}

/// The widest a context menu gets, in pixels.
pub const MENU_MAX_W: i32 = 240;

/// The tallest a context menu gets, in pixels.
pub const MENU_MAX_H: i32 = 320;

/// `v` kept within `0..=room` (or at `0` when there is no room).
pub open spec fn clamp_spec(v: int, room: int) -> int {
    let hi = if room > 0 { room } else { 0 };
    let m = if v < hi { v } else { hi };
    if m > 0 { m } else { 0 }
}

/// Where a context menu opened at `(x, y)` goes so that it stays inside a viewport of
/// `viewport` pixels: moved left and up as far as needed, never past the top left corner.
/// Without a viewport size it stays where it was opened.
pub open spec fn menu_position_spec(x: i32, y: i32, viewport: Option<(i32, i32)>) -> (int, int) {
    match viewport {
        None => (x as int, y as int),
        Some((vw, vh)) => (clamp_spec(x as int, vw - 240), clamp_spec(y as int, vh - 320)),
    }
}

/// Where a context menu opened at `(x, y)` goes, given the viewport's width and height.
pub fn clamp_menu_position(x: i32, y: i32, viewport: Option<(i32, i32)>) -> (r: (i32, i32))
    requires
        viewport matches Some((vw, vh)) ==> vw - 240 >= i32::MIN && vh - 320 >= i32::MIN,
    ensures
        (r.0 as int, r.1 as int) == menu_position_spec(x, y, viewport),
{
    match viewport {
        None => (x, y),
        Some((vw, vh)) => {
            let room_x = vw - MENU_MAX_W;
            let room_y = vh - MENU_MAX_H;
            let hi_x = if room_x > 0 { room_x } else { 0 };
            let hi_y = if room_y > 0 { room_y } else { 0 };
            let mx = if x < hi_x { x } else { hi_x };
            let my = if y < hi_y { y } else { hi_y };
            (if mx > 0 { mx } else { 0 }, if my > 0 { my } else { 0 })
        },
    }
}

/// A context menu never starts left of or above the window; in a window at least as large as
/// the menu it fits inside; and a menu that fits where it was opened stays there.
pub proof fn lemma_menu_inside_viewport(x: i32, y: i32, vw: i32, vh: i32)
    ensures
        menu_position_spec(x, y, Some((vw, vh))).0 >= 0,
        menu_position_spec(x, y, Some((vw, vh))).1 >= 0,
        vw >= 240 ==> menu_position_spec(x, y, Some((vw, vh))).0 + 240 <= vw,
        vh >= 320 ==> menu_position_spec(x, y, Some((vw, vh))).1 + 320 <= vh,
        0 <= x && x + 240 <= vw ==> menu_position_spec(x, y, Some((vw, vh))).0 == x,
        0 <= y && y + 320 <= vh ==> menu_position_spec(x, y, Some((vw, vh))).1 == y,
{
}

/// What happens to a name that can be clicked (to open it) and double clicked (to edit it).
#[derive(Clone, Copy, Debug, PartialEq, Eq, Structural)]
pub enum ClickEvent {
    /// A click on the name.
    Click,
    /// A double click on the name.
    DoubleClick,
    /// The short wait that a click started has passed.
    TimerFired,
}

/// What the page does in answer.
#[derive(Clone, Copy, Debug, PartialEq, Eq, Structural)]
pub enum ClickAction {
    /// Nothing.
    Nothing,
    /// Starts the short wait (200 ms) after which a lone click counts.
    StartTimer,
    /// Opens or closes what the name stands for.
    Toggle,
    /// Starts editing the name.
    Edit,
}

/// The wait, in milliseconds, that tells a click from a double click.
pub const CLICK_DELAY_MS: u32 = 200;

/// From whether a click is waiting and what happened, whether one waits afterwards and
/// what the page does: a click starts the wait, or, with one waiting, counts as a double
/// click and edits; the end of the wait toggles when the click is still waiting; a double
/// click with a click waiting edits.
pub open spec fn click_step_spec(pending: bool, ev: ClickEvent) -> (bool, ClickAction) {
    match ev {
        ClickEvent::Click => if pending {
            (false, ClickAction::Edit)
        } else {
            (true, ClickAction::StartTimer)
        },
        ClickEvent::TimerFired => if pending {
            (false, ClickAction::Toggle)
        } else {
            (false, ClickAction::Nothing)
        },
        ClickEvent::DoubleClick => if pending {
            (false, ClickAction::Edit)
        } else {
            (false, ClickAction::Nothing)
        },
    }
}

/// One step of a name's click handling.
pub fn click_step(pending: bool, ev: ClickEvent) -> (r: (bool, ClickAction))
    ensures
        r == click_step_spec(pending, ev),
{
    match ev {
        ClickEvent::Click => if pending {
            (false, ClickAction::Edit)
        } else {
            (true, ClickAction::StartTimer)
        },
        ClickEvent::TimerFired => if pending {
            (false, ClickAction::Toggle)
        } else {
            (false, ClickAction::Nothing)
        },
        ClickEvent::DoubleClick => if pending {
            (false, ClickAction::Edit)
        } else {
            (false, ClickAction::Nothing)
        },
    }
}

/// A lone click toggles once its wait is over; a second click within the wait edits and
/// the end of the wait then does nothing; a double click that follows a click edits. After
/// any of these nothing waits.
pub proof fn lemma_click_or_double_click()
    ensures
        click_step_spec(false, ClickEvent::Click) == (true, ClickAction::StartTimer),
        click_step_spec(true, ClickEvent::TimerFired) == (false, ClickAction::Toggle),
        click_step_spec(true, ClickEvent::Click) == (false, ClickAction::Edit),
        click_step_spec(false, ClickEvent::TimerFired) == (false, ClickAction::Nothing),
        click_step_spec(true, ClickEvent::DoubleClick) == (false, ClickAction::Edit),
{
}

/// Only a click leaves a click waiting.
pub proof fn lemma_only_click_waits(pending: bool, ev: ClickEvent)
    ensures
        click_step_spec(pending, ev).0 ==> (ev == ClickEvent::Click && !pending),
{
}

} // verus!
