//! Small decisions, each told from what it depends on.

use vstd::prelude::*;

use crate::capture::{CursorMode, ScreencopyRequest};
use crate::input::{ConstraintState, PointerConstraint};
use crate::input;
use crate::pacing::PacerModel;
use crate::pacing;
use crate::paths;
use crate::requests::{GrabState, InteractiveRequest, KdeDecorationMode};
use crate::requests;
use crate::session::{Retry, SessionWait};
use crate::session;
use crate::state::{ChildStatus, CommitAction, Supervision};
use crate::state;
use crate::wire;

verus! {

/// A configured window is on the desktop exactly while its client has something
/// to show: a commit shows it, hides it, or lets it follow its resize. The first
/// commit is answered, and those of other surfaces are nothing to the desktop.
pub proof fn windows_are_shown_while_they_have_content(mapped: bool, has_buffer: bool)
    ensures
        state::committed(true, true, mapped, has_buffer) == CommitAction::Show <==> !mapped
            && has_buffer,
        state::committed(true, true, mapped, has_buffer) == CommitAction::Hide <==> mapped
            && !has_buffer,
        state::committed(true, true, mapped, has_buffer) == CommitAction::FollowResize <==> mapped
            && has_buffer,
        state::committed(true, true, false, false) == CommitAction::Nothing,
        state::committed(true, false, mapped, has_buffer) == CommitAction::Configure,
        state::committed(false, true, mapped, has_buffer) == CommitAction::Nothing,
        state::committed(false, false, mapped, has_buffer) == CommitAction::Nothing,
{
}

/// A child that runs is kept. One that ended is started again only if that is
/// wanted, and not before its time; no other is ever started.
pub proof fn children_are_restarted_as_wanted(
    status: ChildStatus,
    restart: bool,
    now: u64,
    next: u64,
)
    ensures
        state::supervised(status, restart, now, next) == Supervision::Restart <==> status
            == ChildStatus::Exited && restart && now >= next,
        state::supervised(ChildStatus::Running, restart, now, next) == Supervision::Keep,
        state::supervised(ChildStatus::Unknown, restart, now, next) == Supervision::Drop,
        !restart ==> state::supervised(ChildStatus::Exited, restart, now, next)
            == Supervision::Drop,
        restart && now < next ==> state::supervised(ChildStatus::Exited, restart, now, next)
            == Supervision::Keep,
{
}

/// Only an active constraint binds the pointer, and only within its region; a
/// locked pointer stays, and a confined one moves on its surface within the
/// region.
pub proof fn constraints_bind_within_their_region(
    c: ConstraintState,
    same_surface: bool,
    in_region: bool,
)
    ensures
        input::bound_by(None) == PointerConstraint::Free,
        input::bound_by(Some(c)) == PointerConstraint::Free <==> !(c.active && c.in_region),
        input::bound_by(Some(c)) == PointerConstraint::Locked <==> c.active && c.in_region
            && c.locks,
        input::bound_by(Some(c)) == PointerConstraint::Confined <==> c.active && c.in_region
            && !c.locks,
        input::follows(PointerConstraint::Free, same_surface, in_region),
        !input::follows(PointerConstraint::Locked, same_surface, in_region),
        input::follows(PointerConstraint::Confined, same_surface, in_region) <==> same_surface
            && in_region,
        input::activates(Some(c)) <==> !c.active && c.in_region,
        !input::activates(None),
        input::activates(Some(c)) ==> input::bound_by(Some(c)) == PointerConstraint::Free,
{
}

/// The server draws the frame of a client that asks for it, and of no other that
/// asks for anything.
pub proof fn clients_choose_who_draws_their_frame(mode: KdeDecorationMode)
    ensures
        requests::drawn_by_server(mode) == Some(true) <==> mode == KdeDecorationMode::Server,
        requests::drawn_by_server(mode) is None <==> mode == KdeDecorationMode::Other,
{
}

/// A token is good for ten seconds.
pub proof fn tokens_are_good_for_ten_seconds(age: u64)
    ensures
        requests::run_out(age) <==> age >= 10,
{
}

/// A client moves or resizes its own window on the desktop, while it holds the
/// pointer.
pub proof fn clients_move_their_own_windows(request: InteractiveRequest)
    ensures
        requests::justified(request) ==> request.has_grab,
        requests::justified(request) ==> request.same_client,
        requests::justified(request) ==> request.mapped,
        request.has_grab && request.same_client && request.mapped ==> requests::justified(request),
{
}

/// A popup is dismissed if another grab holds the keyboard or the pointer, and
/// then it does not get the pointer; otherwise it gets both, as far as there are
/// such devices.
pub proof fn popups_give_way_to_other_grabs(keyboard: GrabState, pointer: GrabState)
    ensures
        ({
            let plan = requests::granted(Some(keyboard), Some(pointer));
            &&& plan.dismissed <==> keyboard.grabbed && !keyboard.ours || pointer.grabbed
                && !pointer.ours
            &&& plan.pointer <==> !plan.dismissed
            &&& plan.keyboard <==> !(keyboard.grabbed && !keyboard.ours)
        }),
        !requests::granted(None, Some(pointer)).keyboard,
        !requests::granted(Some(keyboard), None).pointer,
{
}

/// Waiting for the session ends when it is active or when no time is left; until
/// then, events are handled for at most a fifth of a second, and never for longer
/// than is left.
pub proof fn waiting_ends_in_time(remaining: u64)
    ensures
        session::waiting_step(true, remaining) == SessionWait::Ready,
        session::waiting_step(false, 0) == SessionWait::TimedOut,
        remaining > 0 ==> (session::waiting_step(false, remaining) matches SessionWait::Dispatch(
            time,
        ) && 0 < time <= remaining && time <= 200_000_000 && (time == remaining || time
            == 200_000_000)),
{
}

/// There are as many attempts as are allowed, one after another.
pub proof fn attempts_are_counted(attempt: u32, attempts: u32)
    ensures
        session::next_attempt(attempt, attempts) == Retry::GiveUp <==> attempt >= attempts,
        session::next_attempt(attempt, attempts) matches Retry::Again(next) ==> next == attempt + 1
            && next <= attempts,
{
}

/// As many intervals as the display refreshes in a second make up a second: a
/// rate in thousandths of a hertz times the interval is a thousand seconds, but
/// for what is lost to rounding.
pub proof fn refreshes_fill_the_second(rate: i32)
    requires
        rate > 0,
    ensures
        pacing::interval_of(rate) * rate <= 1_000_000_000_000 < (pacing::interval_of(rate) + 1)
            * rate,
{
    let r = rate as int;
    assert((1_000_000_000_000int / r) * r <= 1_000_000_000_000 < (1_000_000_000_000int / r + 1)
        * r) by (nonlinear_arith)
        requires
            r > 0,
    ;
}

/// Once a frame is on the display, the next one that is asked for is due at
/// once; a forced one is due without being asked for.
pub proof fn the_next_frame_may_begin_at_once(p: PacerModel, now: int)
    requires
        p.interval > 0,
    ensures
        p.shown(now).due(now, true),
        p.shown(now).due(now, false) <==> p.redraw,
        p.forced(now).due(now, false),
        p.shown(now).interval == p.interval,
        p.forced(now).interval == p.interval,
        !p.shown(now).pending && !p.forced(now).pending,
{
}

/// A capture shows the pointer exactly if the client wants it.
pub proof fn captures_show_the_pointer_if_wanted(request: ScreencopyRequest)
    ensures
        request.overlay_cursor ==> request.pointer_drawn() == CursorMode::Composited,
        !request.overlay_cursor ==> request.pointer_drawn() == CursorMode::Hidden,
{
}

/// The files of the user come after those of the system, so that they win, and
/// in each directory the fragments come after the main file.
pub proof fn files_of_the_user_win(
    system_dir: Seq<char>,
    system: Seq<Seq<char>>,
    user_dir: Seq<char>,
    user: Seq<Seq<char>>,
    i: int,
)
    requires
        0 <= i < user.len(),
    ensures
        ({
            let files = paths::ordered_files(system_dir, system, user_dir, user);
            &&& files.len() == 2 + system.len() + user.len()
            &&& files[0] == paths::below(system_dir, paths::CONFIG_FILE_NAME@)
            &&& files[1 + system.len() as int] == paths::below(user_dir, paths::CONFIG_FILE_NAME@)
            &&& files[2 + system.len() as int + i] == paths::below(
                paths::below(user_dir, paths::FRAGMENTS_NAME@),
                user[i],
            )
        }),
{
}

/// A client has left if its unique name has no owner; other names never leave.
pub proof fn clients_leave_with_their_unique_name(rest: Seq<char>, name: Seq<char>)
    ensures
        wire::gone(seq![':'] + rest, false),
        !wire::gone(name, true),
        name.len() > 0 && name[0] != ':' ==> !wire::gone(name, false),
{
}

} // verus!
