//! What clients may do: activate windows, grab the pointer for popups, move
//! and resize, and ask for decorations.

use crate::geometry;
use crate::geometry::{Location, Rect};
use vstd::prelude::*;

verus! {

/// Serial numbers wrap around, so that one which is far behind another one
/// counts as later.
pub open spec fn no_older(serial: u32, other: u32) -> bool {
    let distance = if serial > other {
        serial - other
    } else {
        other - serial
    };
    if distance < u32::MAX / 2 {
        other <= serial
    } else {
        serial <= other
    }
}

/// Whether the first serial number was given out after the second, or is the
/// same. Numbers that lie half of the range or more apart are taken to have
/// wrapped around.
fn is_no_older_than(serial: u32, other: u32) -> (r: bool)
    ensures
        r == no_older(serial, other),
{
    let distance: u32 = if serial > other {
        serial - other
    } else {
        other - serial
    };
    if distance < u32::MAX / 2 {
        other <= serial
    } else {
        serial <= other
    }
}

/// The serial number is not older than the last time something was entered.
pub open spec fn is_recent(serial: u32, entered: Option<u32>) -> bool {
    match entered {
        Some(last) => no_older(serial, last),
        None => false,
    }
}

fn recent(serial: u32, entered: Option<u32>) -> (r: bool)
    ensures
        r == is_recent(serial, entered),
{
    match entered {
        Some(last) => is_no_older_than(serial, last),
        None => false,
    }
}

/// Whether a client may have a token to activate a window with: the input
/// event that it names is as recent as the focus of the keyboard or of the
/// pointer.
pub fn grants_token(
    serial: Option<u32>,
    keyboard_entered: Option<u32>,
    pointer_entered: Option<u32>,
) -> (r: bool)
    ensures
        r == (match serial {
            Some(serial) => is_recent(serial, keyboard_entered) || is_recent(
                serial,
                pointer_entered,
            ),
            None => false,
        }),
{
    match serial {
        Some(serial) => recent(serial, keyboard_entered) || recent(serial, pointer_entered),
        None => false,
    }
}

/// A serial number is no older than itself and than the one before it.
pub proof fn serials_follow_each_other(serial: u32)
    ensures
        no_older(serial, serial),
        serial < u32::MAX ==> no_older((serial + 1) as u32, serial) && !no_older(
            serial,
            (serial + 1) as u32,
        ),
        no_older(0, u32::MAX) && !no_older(u32::MAX, 0),
{
}

/// How long a token to activate a window is good for, in seconds.
pub const ACTIVATION_TOKEN_TIMEOUT_SECS: u64 = 10;

/// A token of an age in seconds is no longer good.
pub open spec fn run_out(age_secs: u64) -> bool {
    age_secs >= ACTIVATION_TOKEN_TIMEOUT_SECS
}

/// Whether a token has run out.
pub fn token_expired(age_secs: u64) -> (r: bool)
    ensures
        r == (age_secs >= ACTIVATION_TOKEN_TIMEOUT_SECS),
        r == run_out(age_secs),
{
    age_secs >= ACTIVATION_TOKEN_TIMEOUT_SECS
}

/// Whether a device of the seat is grabbed, and whether the grab belongs to
/// the popup's client: it goes by the popup's serial, or by the one before.
#[derive(Debug, Clone, Copy, PartialEq, Eq, Structural)]
pub struct GrabState {
    pub grabbed: bool,
    pub ours: bool,
}

/// What becomes of a popup that wants a grab.
#[derive(Debug, Clone, Copy, PartialEq, Eq, Structural)]
pub struct PopupGrabPlan {
    /// The popup gets the keyboard.
    pub keyboard: bool,
    /// The popup gets the pointer.
    pub pointer: bool,
    /// The popups are dismissed, because something else holds a device.
    pub dismissed: bool,
}

/// Something else holds the device.
pub open spec fn conflicts(device: Option<GrabState>) -> bool {
    match device {
        Some(state) => state.grabbed && !state.ours,
        None => false,
    }
}

fn is_held(device: Option<GrabState>) -> (r: bool)
    ensures
        r == conflicts(device),
{
    match device {
        Some(state) => state.grabbed && !state.ours,
        None => false,
    }
}

/// What a popup gets of the grab that it wants.
pub open spec fn granted(keyboard: Option<GrabState>, pointer: Option<GrabState>) -> PopupGrabPlan {
    PopupGrabPlan {
        keyboard: keyboard is Some && !conflicts(keyboard),
        pointer: pointer is Some && !conflicts(pointer) && !conflicts(keyboard),
        dismissed: conflicts(keyboard) || conflicts(pointer),
    }
}

/// What becomes of a popup that wants a grab: it gets the keyboard and then
/// the pointer, until one of them is held by something else.
pub fn popup_grab(keyboard: Option<GrabState>, pointer: Option<GrabState>) -> (r: PopupGrabPlan)
    ensures
        r.dismissed == (conflicts(keyboard) || conflicts(pointer)),
        r.keyboard == (keyboard is Some && !conflicts(keyboard)),
        r.pointer == (pointer is Some && !r.dismissed),
        r == granted(keyboard, pointer),
{
    if is_held(keyboard) {
        return PopupGrabPlan { keyboard: false, pointer: false, dismissed: true };
    }
    if is_held(pointer) {
        return PopupGrabPlan { keyboard: keyboard.is_some(), pointer: false, dismissed: true };
    }
    PopupGrabPlan { keyboard: keyboard.is_some(), pointer: pointer.is_some(), dismissed: false }
}

/// What is known of a client's wish to move or resize its window.
#[derive(Debug, Clone, Copy, PartialEq, Eq, Structural)]
pub struct InteractiveRequest {
    /// The pointer is grabbed by the press that the client names.
    pub has_grab: bool,
    /// The press was on a surface of the same client.
    pub same_client: bool,
    /// The window is on the desktop.
    pub mapped: bool,
}

/// A request to move or resize comes from the client that holds the pointer, for
/// a window on the desktop.
pub open spec fn justified(request: InteractiveRequest) -> bool {
    request.has_grab && request.same_client && request.mapped
}

/// Whether a client may move or resize its window now.
pub fn may_interact(request: InteractiveRequest) -> (r: bool)
    ensures
        r == (request.has_grab && request.same_client && request.mapped),
        r == justified(request),
{
    request.has_grab && request.same_client && request.mapped
}

/// Who a client of the older decoration protocol wants to draw its frame.
#[derive(Debug, Clone, Copy, PartialEq, Eq, Structural)]
pub enum KdeDecorationMode {
    /// Nobody.
    Bare,
    Client,
    Server,
    /// A value that is not known.
    Other,
}

/// Who is to draw the frame, if a mode says so.
pub open spec fn drawn_by_server(mode: KdeDecorationMode) -> Option<bool> {
    if mode is Other {
        None
    } else {
        Some(mode is Server)
    }
}

/// Whether the client asks for the server to draw its frame, if it asks for
/// anything. Without any frame the server draws none either.
pub fn kde_request(mode: KdeDecorationMode) -> (server: Option<bool>)
    ensures
        server == (match mode {
            KdeDecorationMode::Server => Some(true),
            KdeDecorationMode::Client => Some(false),
            KdeDecorationMode::Bare => Some(false),
            KdeDecorationMode::Other => None,
        }),
        server == drawn_by_server(mode),
{
    match mode {
        KdeDecorationMode::Server => Some(true),
        KdeDecorationMode::Client | KdeDecorationMode::Bare => Some(false),
        KdeDecorationMode::Other => None,
    }
}

/// The room for a popup, seen from its parent: the output that its window is
/// on. `root` is where the window lies, and `offset` where the popup's parent
/// lies in it.
pub open spec fn popup_room(output: Rect, root: Location, offset: Location) -> geometry::Box2 {
    geometry::Box2 {
        x: output.x - (root.x + offset.x),
        y: output.y - (root.y + offset.y),
        width: output.width as int,
        height: output.height as int,
    }
}

/// The room for a popup, seen from its parent.
pub fn popup_target(output: Rect, root: Location, offset: Location) -> (r: Rect)
    requires
        popup_room(output, root, offset).fits(),
    ensures
        r == popup_room(output, root, offset).rect(),
{
    let x: i64 = output.x as i64 - (root.x as i64 + offset.x as i64);
    let y: i64 = output.y as i64 - (root.y as i64 + offset.y as i64);
    Rect { x: x as i32, y: y as i32, width: output.width, height: output.height }
}

/// A pixel of the popup lies in its room exactly if it is on the output.
pub proof fn popups_stay_on_the_output(
    output: Rect,
    root: Location,
    offset: Location,
    x: int,
    y: int,
)
    requires
        popup_room(output, root, offset).fits(),
    ensures
        popup_room(output, root, offset).rect().holds(x, y) <==> output.holds(
            root.x + offset.x + x,
            root.y + offset.y + y,
        ),
{
}

} // verus!
