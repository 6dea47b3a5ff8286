//! What is left behind by windows that come and go, and by new outputs.

use vstd::prelude::*;

use crate::geometry::{Location, Rect};
use crate::invariants;
use crate::laws::focusing;
use crate::model::{DesktopModel, Effect, FocusTarget, ManagedWindow, WindowId};
use crate::model;

verus! {

proof fn lemma_another(d: DesktopModel, history: Seq<WindowId>, workspace: u64, n: nat)
    requires
        n <= history.len(),
    ensures
        d.last_focusable(history, workspace, n) matches Some(id) ==> Some(id) != d.focused_window,
    decreases n,
{
    if n > 0 {
        lemma_another(d, history, workspace, (n - 1) as nat);
    }
}

/// The keyboard never goes back to the window that gives it away.
proof fn lemma_given_away(d: DesktopModel, id: WindowId)
    requires
        focusing::nobody_takes_all(d),
        d.focused_window == Some(id),
    ensures
        d.focus_previous().keyboard != FocusTarget::Window(id),
        d.focus_previous().windows == d.windows,
        d.focus_previous().settings == d.settings,
{
    focusing::the_keyboard_goes_where_it_is_sent(d, FocusTarget::Nobody, 0);
    let workspace = d.focused_workspace();
    match d.workspace_place(workspace) {
        Some(place) => {
            let history = d.workspaces[place].focus_history;
            lemma_another(d, history, workspace, history.len());
        },
        None => {},
    }
    match d.previous_focus() {
        Some(other) => {
            let raised = if d.settings.raise_on_focus || d.window(other).fullscreen {
                d.raise(other)
            } else {
                d
            };
            focusing::the_keyboard_goes_where_it_is_sent(raised, FocusTarget::Window(other), 0);
        },
        None => {},
    }
}

/// A minimized window leaves the desktop and notes where it was; if it had the
/// keyboard, it loses it. The windows that the layout arranges with it move up.
pub proof fn minimized_windows_leave_the_desktop(d: DesktopModel, id: WindowId, i: int)
    requires
        d.wf(),
        d.has(id),
        d.window(id).place is Some,
        focusing::nobody_takes_all(d),
        d.outputs.len() > 0,
    ensures
        ({
            let (next, done) = d.minimize(id);
            let left = d.with(
                ManagedWindow { minimized: d.window(id).place, ..d.window(id) },
            ).take_off(id);
            let workspace = d.window(id).workspace;
            &&& done
            &&& next.has(id)
            &&& next.window(id).place is None
            &&& next.window(id).minimized == d.window(id).place
            &&& next.window(id).workspace == d.window(id).workspace
            &&& !next.stack.contains(id)
            &&& next.effects.last() == (Effect::WindowMinimized { id })
            &&& d.focused_window == Some(id) ==> next.keyboard != FocusTarget::Window(id)
            &&& 0 <= i < left.tiled_windows(workspace).len() ==> next.window(
                left.tiled_windows(workspace)[i].id,
            ).place == Some(
                super::tile_location(
                    left,
                    workspace,
                    left.output_for_workspace(workspace)->0,
                    i,
                ),
            )
        }),
{
    let workspace = d.window(id).workspace;
    let w = ManagedWindow { minimized: d.window(id).place, ..d.window(id) };
    invariants::lemma_listed(d, id);
    invariants::lemma_with(d, w);
    let noted = d.with(w);
    assert(noted.has(id));
    invariants::lemma_take_off(noted, id);
    let left = noted.take_off(id);
    invariants::lemma_rearranged_window(noted, left, id);
    let gone = left.retile(workspace);
    invariants::lemma_retile(left, workspace);
    invariants::lemma_rearranged_window(left, gone, id);
    assert(!left.tiled(left.window(id), workspace));
    super::arranging_leaves_other_windows_alone(left, workspace, id);
    invariants::lemma_minimize(d, id);
    let next = d.minimize(id).0;
    if d.focused_window == Some(id) {
        lemma_given_away(gone, id);
    }
    assert(next.windows == gone.windows);
    assert(next.stack.contains(id) <==> next.has(id) && next.window(id).place is Some);
    if 0 <= i < left.tiled_windows(workspace).len() {
        super::tiled_windows_get_their_tiles(left, workspace, i);
    }
}

/// Windows that a moved window leaves behind are arranged anew without it.
pub proof fn windows_left_behind_move_up(
    d: DesktopModel,
    id: WindowId,
    workspace: u64,
    place: int,
    i: int,
)
    requires
        d.wf(),
        d.has(id),
        d.workspace_place(workspace) is Some,
        d.window(id).workspace != workspace,
        d.workspace_place(d.window(id).workspace) == Some(place),
        d.outputs.len() > 0,
        focusing::nobody_takes_all(d),
        ({
            let left = d.with_workspace(place, d.workspaces[place].forget(id)).with(
                ManagedWindow { workspace, ..d.window(id) },
            );
            0 <= i < left.tiled_windows(d.window(id).workspace).len()
        }),
    ensures
        ({
            let left = d.with_workspace(place, d.workspaces[place].forget(id)).with(
                ManagedWindow { workspace, ..d.window(id) },
            );
            let previous = d.window(id).workspace;
            let next = d.move_to_workspace(id, workspace).0;
            let other = left.tiled_windows(previous)[i].id;
            &&& next.window(other).place == Some(
                super::tile_location(left, previous, left.output_for_workspace(previous)->0, i),
            )
            &&& next.effects.last() == Effect::WorkspacesChanged
            &&& d.focused_window == Some(id) ==> next.keyboard != FocusTarget::Window(id)
        }),
{
    let previous = d.window(id).workspace;
    invariants::lemma_listed(d, id);
    invariants::lemma_moved_out(d, id);
    let forgotten = d.with_workspace(place, d.workspaces[place].forget(id));
    let w = ManagedWindow { workspace, ..d.window(id) };
    assert(forgotten.windows == d.windows);
    assert(forgotten.has(id));
    invariants::lemma_with(forgotten, w);
    let left = forgotten.with(w);
    let other = left.tiled_windows(previous)[i].id;
    super::tiled_windows_get_their_tiles(left, previous, i);
    invariants::lemma_tiled_listed(left, previous, i);
    let once = left.retile(previous);
    invariants::lemma_retile(left, previous);
    invariants::lemma_rearranged_window(left, once, other);
    assert(!once.tiled(once.window(other), workspace));
    super::arranging_leaves_other_windows_alone(once, workspace, other);
    let moved = once.retile(workspace);
    invariants::lemma_retile(once, workspace);
    if d.focused_window == Some(id) {
        lemma_given_away(moved, id);
    }
    assert(d.move_to_workspace(id, workspace).0.windows == moved.windows);
}

/// Clients hear last that a window was closed and that the workspaces changed; a
/// window that was never on the desktop is not reported.
pub proof fn closed_windows_are_reported(d: DesktopModel, id: WindowId)
    requires
        d.has(id),
    ensures
        ({
            let off = d.unmap(id).effects;
            let end = d.destroy(id).effects;
            &&& off.len() >= 2 && off[off.len() - 2] == (Effect::WindowClosed { id })
                && off.last() == Effect::WorkspacesChanged
            &&& d.window(id).mapped ==> end.len() >= 2 && end[end.len() - 2] == (
            Effect::WindowClosed { id }) && end.last() == Effect::WorkspacesChanged
        }),
{
}

/// A window that opens without the focus is the last to get it: it is put before
/// all others in the history of its workspace, and is what the workspace
/// remembers only if it remembers nothing else.
pub proof fn windows_in_the_background_wait_their_turn(
    d: DesktopModel,
    id: WindowId,
    workspace: u64,
    named: Option<int>,
    position: Option<Location>,
    now: u64,
    k: int,
)
    requires
        d.wf(),
        d.has(id),
        d.workspace_place(workspace) == Some(k),
        !d.settings.focus_new_windows || workspace != d.focused_workspace(),
    ensures
        ({
            let next = d.map_window(id, workspace, named, position, now);
            &&& next.workspaces.len() == d.workspaces.len()
            &&& next.workspaces[k].focus_history == seq![id] + d.workspaces[k].focus_history
            &&& next.workspaces[k].focused_window == (if d.workspaces[k].focused_window is Some {
                d.workspaces[k].focused_window
            } else {
                Some(id)
            })
            &&& next.redraw && next.pointer_dirty
        }),
{
    let location = d.initial_place(id, named, workspace, position);
    let listed = d.emit(Effect::ListForeign { id });
    invariants::lemma_emit(d, Effect::ListForeign { id });
    let w = ManagedWindow {
        mapped: true,
        workspace,
        opened_at: if d.settings.animations {
            Some(now)
        } else {
            None
        },
        ..d.window(id)
    };
    invariants::lemma_listed(d, id);
    invariants::lemma_with(listed, w);
    let known = listed.with(w);
    assert(known.has(id));
    invariants::lemma_put(known, id, location);
    let put = known.put(id, location);
    let told = put.emit(Effect::WindowOpened { id });
    invariants::lemma_emit(put, Effect::WindowOpened { id });
    invariants::lemma_emit(told, Effect::WorkspacesChanged);
    let both = told.emit(Effect::WorkspacesChanged);
    invariants::lemma_retile(both, workspace);
    let mapped = both.retile(workspace);
    assert(mapped.workspaces == d.workspaces);
    invariants::lemma_workspace_from(d, workspace, 0);
    assert(d.workspaces[k].focus_history.insert(0, id) =~= seq![id]
        + d.workspaces[k].focus_history);
}

/// A new output is as it was announced, last of all; it gets the focus only if no
/// other has it.
pub proof fn new_outputs_come_last(d: DesktopModel, name: Seq<char>, geometry: Rect, zone: Rect)
    requires
        d.wf(),
        d.outputs.len() < usize::MAX,
    ensures
        ({
            let next = d.add_output(name, geometry, zone);
            let n = d.outputs.len() as int;
            &&& next.outputs.len() == n + 1
            &&& next.outputs[n].geometry == geometry
            &&& next.outputs[n].zone == zone
            &&& next.output_names.len() == n + 1 && next.output_names[n] == name
            &&& d.focused_output is Some ==> next.focused_output == d.focused_output
            &&& d.focused_output is None ==> next.focused_output == Some(n as usize)
            &&& forall|j: int|
                0 <= j < n ==> (#[trigger] next.outputs[j]).geometry == d.outputs[j].geometry
                    && next.outputs[j].zone == d.outputs[j].zone
            &&& forall|j: int|
                0 <= j < n && d.output_names[j] != name ==> (#[trigger] next.outputs[j])
                    == d.outputs[j]
            &&& next.effects.len() == d.effects.len() + 2
            &&& next.effects[d.effects.len() as int] == (Effect::OutputAdded {
                output: n as usize,
            })
            &&& next.effects.last() == (Effect::WorkspaceActivated {
                output: n as usize,
                workspace: next.outputs[n].workspace,
            })
        }),
{
}

proof fn lemma_free(d: DesktopModel, name: Option<Seq<char>>, from: int)
    requires
        0 <= from,
    ensures
        match d.free_workspace(name, from) {
            Some(id) => exists|k: int|
                from <= k < d.workspaces.len() && (#[trigger] d.workspaces[k]).id == id
                    && d.unassigned(d.workspaces[k]) && (name is Some ==> d.workspaces[k].output
                    == name),
            None => forall|k: int|
                from <= k < d.workspaces.len() && (name is None || (
                #[trigger] d.workspaces[k]).output == name) ==> !d.unassigned(
                    #[trigger] d.workspaces[k],
                ),
        },
    decreases d.workspaces.len() - from,
{
    if from < d.workspaces.len() {
        lemma_free(d, name, from + 1);
        if d.unassigned(d.workspaces[from]) && (name is None || d.workspaces[from].output == name) {
            assert(d.workspaces[from].id == d.free_workspace(name, from)->0);
        }
    }
}

/// A new output shows a free workspace that is meant for it, if there is one;
/// without one, any free one; and the first if all are taken.
pub proof fn outputs_show_the_workspaces_meant_for_them(d: DesktopModel, name: Seq<char>, k: int)
    requires
        0 <= k < d.workspaces.len(),
        forall|j: int|
            0 <= j < d.outputs.len() ==> (#[trigger] d.outputs[j]).workspace != d.workspaces[k].id,
    ensures
        d.workspaces[k].output == Some(name) ==> exists|m: int|
            0 <= m < d.workspaces.len() && (#[trigger] d.workspaces[m]).id
                == d.workspace_for_new_output(name) && d.workspaces[m].output == Some(name),
        exists|m: int|
            0 <= m < d.workspaces.len() && (#[trigger] d.workspaces[m]).id
                == d.workspace_for_new_output(name) && d.unassigned(d.workspaces[m]),
{
    lemma_unshown(d, d.workspaces[k].id, 0);
    lemma_free(d, Some(name), 0);
    lemma_free(d, None, 0);
    assert(d.unassigned(d.workspaces[k]));
}

proof fn lemma_unshown(d: DesktopModel, workspace: u64, from: int)
    requires
        0 <= from,
        forall|j: int|
            0 <= j < d.outputs.len() ==> (#[trigger] d.outputs[j]).workspace != workspace,
    ensures
        model::output_showing(d.outputs, workspace, from) is None,
    decreases d.outputs.len() - from,
{
    if from < d.outputs.len() {
        lemma_unshown(d, workspace, from + 1);
    }
}

/// The topmost window of a workspace is the last on the stack that is shown on
/// it.
pub proof fn the_topmost_window_is_last_on_the_stack(d: DesktopModel, workspace: u64, i: int)
    requires
        0 <= i < d.stack.len(),
        d.has(d.stack[i]),
        d.window(d.stack[i]).mapped,
        d.window(d.stack[i]).minimized is None,
        d.window(d.stack[i]).workspace == workspace,
        forall|j: int|
            i < j < d.stack.len() ==> !(d.has(#[trigger] d.stack[j]) && d.window(d.stack[j]).mapped
                && d.window(d.stack[j]).minimized is None && d.window(d.stack[j]).workspace
                == workspace),
    ensures
        d.topmost(workspace) == Some(d.stack[i]),
{
    lemma_topmost(d, workspace, i, d.stack.len());
}

proof fn lemma_topmost(d: DesktopModel, workspace: u64, i: int, n: nat)
    requires
        0 <= i < n <= d.stack.len(),
        d.has(d.stack[i]),
        d.window(d.stack[i]).shown(),
        d.window(d.stack[i]).workspace == workspace,
        forall|j: int|
            i < j < n ==> !(d.has(#[trigger] d.stack[j]) && d.window(d.stack[j]).shown()
                && d.window(d.stack[j]).workspace == workspace),
    ensures
        d.topmost_below(workspace, n) == Some(d.stack[i]),
    decreases n,
{
    if i < n - 1 {
        assert(!(d.has(d.stack[n - 1]) && d.window(d.stack[n - 1]).shown() && d.window(
            d.stack[n - 1],
        ).workspace == workspace));
        lemma_topmost(d, workspace, i, (n - 1) as nat);
    }
}

/// Where a shown workspace is asked for, the two outputs swap their workspaces.
pub proof fn outputs_swap_their_workspaces(
    d: DesktopModel,
    output: int,
    other: int,
    id: u64,
    now: u64,
)
    requires
        d.wf(),
        0 <= output < d.outputs.len(),
        0 <= other < d.outputs.len(),
        d.output_names[output] != d.output_names[other],
        model::output_showing(d.outputs, id, 0) == Some(other),
    ensures
        ({
            let next = d.show_workspace(output, id, now);
            &&& next.outputs[output].workspace == id
            &&& next.outputs[other].workspace == d.outputs[output].workspace
            &&& next.outputs[output].geometry == d.outputs[output].geometry
            &&& next.outputs[output].animation == Some(now)
            &&& next.outputs[other].animation == Some(now)
        }),
{
    let current = d.outputs[output].workspace;
    let swapped = d.show(other, current, now);
    invariants::lemma_show(d, other, current, now);
    let shown = swapped.show(output, id, now);
    invariants::lemma_show(swapped, output, id, now);
    match shown.workspace_focus(id) {
        Some(window) if shown.has(window) && shown.window(window).mapped => {
            super::lemma_focus_here_outputs(shown, window);
        },
        _ => {
            invariants::lemma_request_focus(shown, FocusTarget::Nobody);
        },
    }
}

} // verus!
