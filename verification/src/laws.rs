//! What holds of the desktop across its operations.

use vstd::prelude::*;

use crate::geometry::{Location, Rect, Size};
use crate::geometry;
use crate::invariants;
use crate::layout;
use crate::model::{DesktopModel, Effect, FocusTarget, ManagedWindow, OutputState, WindowId};
use crate::model;
use crate::seqs;

pub mod changing;
pub mod clicking;
pub mod deciding;
pub mod displays;
pub mod drawing;
pub mod finding;
pub mod focusing;
pub mod frames;
pub mod keys;
pub mod leaving;
pub mod placing;
pub mod reading;
pub mod ruling;
pub mod sending;
pub mod settings;
pub mod tiling;

verus! {

/// Outputs with different names display different workspaces.
pub open spec fn apart(outputs: Seq<OutputState>, names: Seq<Seq<char>>) -> bool {
    forall|i: int, j: int|
        0 <= i < outputs.len() && 0 <= j < outputs.len() && #[trigger] names[i]
            != #[trigger] names[j] ==> outputs[i].workspace != outputs[j].workspace
}

/// Focusing a window of the shown workspace changes nothing on the outputs.
proof fn lemma_focus_here_outputs(d: DesktopModel, id: WindowId)
    requires
        d.wf(),
        d.has(id),
    ensures
        d.focus_here(id).outputs == d.outputs,
        d.focus_here(id).output_names == d.output_names,
        d.focus_here(id).focused_output == d.focused_output,
{
    let window = d.window(id);
    invariants::lemma_listed(d, id);
    match window.minimized {
        Some(location) => {
            let shown = ManagedWindow { minimized: None, ..window };
            invariants::lemma_with(d, shown);
            assert(d.with(shown).has(id));
            invariants::lemma_put(d.with(shown), id, location);
            invariants::lemma_retile(d.with(shown).put(id, location), window.workspace);
        },
        None => {},
    }
}

/// Switching workspaces lets the focused output display the workspace that
/// the number selects. An output that displayed it gets the one it replaces,
/// and all others keep theirs, so no workspace is ever on two outputs.
pub proof fn switching_keeps_workspaces_apart(d: DesktopModel, id: u64, now: u64)
    requires
        d.wf(),
        apart(d.outputs, d.output_names),
    ensures
        d.switch_workspace(id, now).0.output_names == d.output_names,
        apart(d.switch_workspace(id, now).0.outputs, d.output_names),
        d.switch_workspace(id, now).1 <==> d.workspace_target(id) is Some && d.outputs.len() > 0,
        d.switch_workspace(id, now).1 ==> Some(d.switch_workspace(id, now).0.focused_workspace())
            == d.workspace_target(id),
        d.switch_workspace(id, now).1 ==> forall|k: int|
            0 <= k < d.outputs.len() && d.output_names[k]
                != d.output_names[d.current_output()->0] ==> (
            #[trigger] d.switch_workspace(id, now).0.outputs[k]).workspace == (if Some(
                d.outputs[k].workspace,
            ) == d.workspace_target(id) {
                d.focused_workspace()
            } else {
                d.outputs[k].workspace
            }),
        !d.switch_workspace(id, now).1 ==> d.switch_workspace(id, now).0 == d,
{
    match (d.workspace_target(id), d.current_output()) {
        (Some(target), Some(output)) => {
            if target != d.outputs[output].workspace {
                let current = d.outputs[output].workspace;
                invariants::lemma_output_showing(d, target, 0);
                let swapped = match model::output_showing(d.outputs, target, 0) {
                    Some(other) => {
                        invariants::lemma_show(d, other, current, now);
                        d.show(other, current, now)
                    },
                    None => d,
                };
                invariants::lemma_show(swapped, output, target, now);
                let shown = swapped.show(output, target, now);
                match shown.workspace_focus(target) {
                    Some(window) if shown.has(window) && shown.window(window).mapped => {
                        lemma_focus_here_outputs(shown, window);
                    },
                    _ => {},
                }
                let next = d.switch_workspace(id, now).0;
                assert(next.outputs == shown.outputs);
                assert forall|k: int| 0 <= k < d.outputs.len() implies (
                #[trigger] shown.outputs[k]).workspace == (if d.output_names[k]
                    == d.output_names[output] {
                    target
                } else if d.outputs[k].workspace == target {
                    current
                } else {
                    d.outputs[k].workspace
                }) by {
                    match model::output_showing(d.outputs, target, 0) {
                        Some(other) => {
                            assert(d.output_names[k] == d.output_names[other]
                                || d.output_names[k] != d.output_names[other]);
                        },
                        None => {},
                    }
                }
                assert forall|i: int, j: int|
                    0 <= i < shown.outputs.len() && 0 <= j < shown.outputs.len()
                        && #[trigger] d.output_names[i]
                        != #[trigger] d.output_names[j] implies shown.outputs[i].workspace
                    != shown.outputs[j].workspace by {
                    assert(d.outputs[i].workspace != d.outputs[j].workspace);
                    assert(d.output_names[i] != d.output_names[output] ==> d.outputs[i].workspace
                        != d.outputs[output].workspace);
                    assert(d.output_names[j] != d.output_names[output] ==> d.outputs[j].workspace
                        != d.outputs[output].workspace);
                }
            } else {
                assert forall|k: int|
                    0 <= k < d.outputs.len() && d.output_names[k]
                        != d.output_names[output] implies (
                #[trigger] d.outputs[k]).workspace != target by {
                    assert(d.outputs[k].workspace != d.outputs[output].workspace);
                }
            }
        },
        _ => {},
    }
}

/// Focusing a window, wherever it is, keeps workspaces on one output each.
pub proof fn focusing_keeps_workspaces_apart(d: DesktopModel, id: WindowId, now: u64)
    requires
        d.wf(),
        apart(d.outputs, d.output_names),
    ensures
        d.focus_by_id(id, now).0.output_names == d.output_names,
        apart(d.focus_by_id(id, now).0.outputs, d.output_names),
{
    if d.has(id) && d.window(id).mapped {
        let workspace = d.window(id).workspace;
        if workspace == d.focused_workspace() {
            lemma_focus_here_outputs(d, id);
        } else {
            invariants::lemma_workspace_from(d, workspace, 0);
            match d.workspace_place(workspace) {
                Some(place) => {
                    let ws = model::WorkspaceModel {
                        focused_window: Some(id),
                        ..d.workspaces[place]
                    };
                    assert forall|x: WindowId| #[trigger]
                        ws.focus_history.contains(x) implies d.has(x) by {
                        assert(d.workspaces[place].focus_history.contains(x));
                    }
                    invariants::lemma_with_workspace(d, place, ws);
                    switching_keeps_workspaces_apart(
                        d.with_workspace(place, ws),
                        workspace,
                        now,
                    );
                },
                None => {
                    switching_keeps_workspaces_apart(d, workspace, now);
                },
            }
        }
    }
}

/// A free workspace is found if there is one.
proof fn lemma_free_workspace(d: DesktopModel, name: Option<Seq<char>>, from: int)
    requires
        0 <= from,
    ensures
        match d.free_workspace(name, from) {
            Some(id) => model::output_showing(d.outputs, id, 0) is None,
            None => name is None ==> forall|i: int|
                from <= i < d.workspaces.len() ==> !d.unassigned(#[trigger] d.workspaces[i]),
        },
    decreases d.workspaces.len() - from,
{
    if from < d.workspaces.len() && !(d.unassigned(d.workspaces[from]) && (name is None
        || d.workspaces[from].output == name)) {
        lemma_free_workspace(d, name, from + 1);
    }
}

/// A new output displays a workspace of its own as long as one is free, which
/// it shares with outputs of its name only.
pub proof fn a_new_output_gets_a_workspace_of_its_own(
    d: DesktopModel,
    name: Seq<char>,
    geometry: Rect,
    zone: Rect,
    free: int,
)
    requires
        d.wf(),
        apart(d.outputs, d.output_names),
        0 <= free < d.workspaces.len(),
        d.unassigned(d.workspaces[free]),
    ensures
        apart(
            d.add_output(name, geometry, zone).outputs,
            d.add_output(name, geometry, zone).output_names,
        ),
{
    lemma_free_workspace(d, Some(name), 0);
    lemma_free_workspace(d, None, 0);
    let id = d.workspace_for_new_output(name);
    assert(model::output_showing(d.outputs, id, 0) is None);
    invariants::lemma_output_showing(d, id, 0);
    let next = d.add_output(name, geometry, zone);
    let n = d.outputs.len() as int;
    assert forall|i: int, j: int|
        0 <= i < next.outputs.len() && 0 <= j < next.outputs.len()
            && #[trigger] next.output_names[i]
            != #[trigger] next.output_names[j] implies next.outputs[i].workspace
        != next.outputs[j].workspace by {
        assert(i < n ==> next.output_names[i] == d.output_names[i]);
        assert(j < n ==> next.output_names[j] == d.output_names[j]);
        assert(i < n ==> d.outputs[i].workspace != id);
        assert(j < n ==> d.outputs[j].workspace != id);
        if i < n && j < n {
            assert(d.outputs[i].workspace != d.outputs[j].workspace);
        }
    }
}

/// Outputs with one name always display one workspace.
pub proof fn outputs_of_one_name_share_a_workspace(d: DesktopModel, i: int, j: int)
    requires
        d.wf(),
        0 <= i < d.outputs.len(),
        0 <= j < d.outputs.len(),
        d.output_names[i] == d.output_names[j],
    ensures
        d.outputs[i].workspace == d.outputs[j].workspace,
{
}

/// Once a window is destroyed, nothing remembers it: it is not listed, not
/// on the desktop, in no focus history, and does not have the focus.
pub proof fn a_destroyed_window_is_forgotten(d: DesktopModel, id: WindowId)
    requires
        d.wf(),
        d.has(id),
    ensures
        !d.destroy(id).has(id),
        !d.destroy(id).stack.contains(id),
        invariants::unremembered(d.destroy(id), id),
        d.destroy(id).focused_window != Some(id),
{
    invariants::lemma_destroy(d, id);
    let next = d.destroy(id);
    assert forall|i: int|
        0 <= i < next.workspaces.len() implies !(
    #[trigger] next.workspaces[i]).focus_history.contains(id) && next.workspaces[i].focused_window
        != Some(id) by {
        if next.workspaces[i].focus_history.contains(id) {
            assert(next.has(id));
        }
    }
    let window = d.window(id);
    invariants::lemma_forgotten(d, id);
    let forgotten = d.forgotten(id);
    invariants::lemma_listed(forgotten, id);
    invariants::lemma_take_off(forgotten, id);
    let off = forgotten.take_off(id);
    invariants::lemma_rearranged_window(forgotten, off, id);
    invariants::lemma_removed(off, id);
    let gone = DesktopModel {
        windows: off.windows.remove(model::place_in(off.windows, id)),
        ..off
    };
    invariants::lemma_retile(gone, window.workspace);
    let tiled = gone.retile(window.workspace);
    let listed = if window.mapped {
        tiled.emit(Effect::UnlistForeign { id })
    } else {
        tiled
    };
    invariants::lemma_emit(tiled, Effect::UnlistForeign { id });
    let cleared = DesktopModel { focused_window: None, ..listed };
    invariants::lemma_same_but_focus(listed, cleared);
    invariants::lemma_focus_previous(cleared);
}

/// Moving one window leaves every other window as it is.
proof fn lemma_others_stay(d: DesktopModel, id: WindowId, rect: Rect, other: WindowId)
    requires
        d.wf(),
        d.has(id),
        d.has(other),
        other != id,
    ensures
        d.configure_and_place(id, rect).window(other) == d.window(other),
{
    let location = Location { x: rect.x, y: rect.y };
    let effect = Effect::Configure { id, size: Some(Size { w: rect.width, h: rect.height }) };
    let told = d.emit(effect);
    let next = d.configure_and_place(id, rect);
    invariants::lemma_configure_and_place(d, id, rect);
    invariants::lemma_rearranged_window(d, next, other);
    invariants::lemma_listed(d, id);
    invariants::lemma_listed(d, other);
    assert(model::place_in(d.windows, id) != model::place_in(d.windows, other));
}

/// The windows that the layout arranges have different ids.
proof fn lemma_tiled_distinct(d: DesktopModel, workspace: u64, i: int, j: int)
    requires
        d.ids_ok(),
        0 <= i < j < d.tiled_windows(workspace).len(),
    ensures
        d.tiled_windows(workspace)[i].id != d.tiled_windows(workspace)[j].id,
{
    let keep = |w: ManagedWindow| d.tiled(w, workspace);
    assert(d.windows.no_duplicates()) by {
        assert forall|a: int, b: int|
            0 <= a < d.windows.len() && 0 <= b < d.windows.len() && a != b implies d.windows[a]
            != d.windows[b] by {
            if a < b {
                assert(d.windows[a].id.0 < d.windows[b].id.0);
            } else {
                assert(d.windows[b].id.0 < d.windows[a].id.0);
            }
        }
    }
    invariants::lemma_filter_no_duplicates(d.windows, keep);
    invariants::lemma_tiled_listed(d, workspace, i);
    invariants::lemma_tiled_listed(d, workspace, j);
    assert(d.tiled_windows(workspace)[i] != d.tiled_windows(workspace)[j]);
}

/// Where the layout puts a window.
pub open spec fn tile_location(d: DesktopModel, workspace: u64, output: int, i: int) -> Location {
    let windows = d.tiled_windows(workspace);
    let rect = layout::client_box(
        d.tile_of(d.work_area(output), windows.len() as int, i),
        d.insets(windows[i].id),
    ).rect();
    Location { x: rect.x, y: rect.y }
}

proof fn lemma_tile_first_places(
    d: DesktopModel,
    workspace: u64,
    output: int,
    n: nat,
    i: int,
)
    requires
        d.wf(),
        0 <= i < n <= d.tiled_windows(workspace).len(),
    ensures
        d.tile_first(d.tiled_windows(workspace), d.work_area(output), n).window(
            d.tiled_windows(workspace)[i].id,
        ).place == Some(tile_location(d, workspace, output, i)),
    decreases n,
{
    let windows = d.tiled_windows(workspace);
    let area = d.work_area(output);
    assert forall|k: int| 0 <= k < windows.len() implies d.has((#[trigger] windows[k]).id) by {
        invariants::lemma_tiled_listed(d, workspace, k);
    }
    let before = d.tile_first(windows, area, (n - 1) as nat);
    invariants::lemma_tile_first(d, windows, area, (n - 1) as nat);
    let id = windows[n - 1].id;
    invariants::lemma_rearranged_window(d, before, id);
    let rect = layout::client_box(
        d.tile_of(area, windows.len() as int, n - 1),
        d.insets(id),
    ).rect();
    if i == n - 1 {
        let effect = Effect::Configure { id, size: Some(Size { w: rect.width, h: rect.height }) };
        invariants::lemma_emit(before, effect);
        let told = before.emit(effect);
        invariants::lemma_rearranged_window(before, told, id);
        invariants::lemma_move_window(told, id, Location { x: rect.x, y: rect.y });
    } else {
        lemma_tile_first_places(d, workspace, output, (n - 1) as nat, i);
        lemma_tiled_distinct(d, workspace, i, n - 1);
        invariants::lemma_rearranged_window(d, before, windows[i].id);
        lemma_others_stay(before, id, rect, windows[i].id);
    }
}

/// Arranging a workspace puts every tiled window at its tile.
pub proof fn tiled_windows_get_their_tiles(d: DesktopModel, workspace: u64, i: int)
    requires
        d.wf(),
        d.outputs.len() > 0,
        0 <= i < d.tiled_windows(workspace).len(),
    ensures
        d.retile(workspace).window(d.tiled_windows(workspace)[i].id).place == Some(
            tile_location(d, workspace, d.output_for_workspace(workspace)->0, i),
        ),
{
    invariants::lemma_output_for_workspace(d, workspace);
    let output = d.output_for_workspace(workspace)->0;
    lemma_tile_first_places(d, workspace, output, d.tiled_windows(workspace).len(), i);
}

proof fn lemma_tile_first_others(
    d: DesktopModel,
    windows: Seq<ManagedWindow>,
    area: Rect,
    n: nat,
    id: WindowId,
)
    requires
        d.wf(),
        d.has(id),
        n <= windows.len(),
        forall|i: int|
            0 <= i < windows.len() ==> d.has((#[trigger] windows[i]).id) && windows[i].id != id,
    ensures
        d.tile_first(windows, area, n).window(id) == d.window(id),
    decreases n,
{
    if n > 0 {
        let before = d.tile_first(windows, area, (n - 1) as nat);
        lemma_tile_first_others(d, windows, area, (n - 1) as nat, id);
        invariants::lemma_tile_first(d, windows, area, (n - 1) as nat);
        let other = windows[n - 1].id;
        invariants::lemma_rearranged_window(d, before, other);
        invariants::lemma_rearranged_window(d, before, id);
        let rect = layout::client_box(
            d.tile_of(area, windows.len() as int, n - 1),
            d.insets(other),
        ).rect();
        lemma_others_stay(before, other, rect, id);
    }
}

/// Arranging a workspace leaves alone what is not tiled on it.
pub proof fn arranging_leaves_other_windows_alone(d: DesktopModel, workspace: u64, id: WindowId)
    requires
        d.wf(),
        d.has(id),
        !d.tiled(d.window(id), workspace),
    ensures
        d.retile(workspace).has(id),
        d.retile(workspace).window(id) == d.window(id),
{
    let windows = d.tiled_windows(workspace);
    invariants::lemma_retile(d, workspace);
    invariants::lemma_rearranged_window(d, d.retile(workspace), id);
    match d.output_for_workspace(workspace) {
        Some(output) if windows.len() > 0 => {
            assert forall|i: int| 0 <= i < windows.len() implies d.has(
                (#[trigger] windows[i]).id,
            ) && windows[i].id != id by {
                invariants::lemma_tiled_listed(d, workspace, i);
            }
            lemma_tile_first_others(d, windows, d.work_area(output), windows.len(), id);
        },
        _ => {},
    }
}

/// Putting a window down and arranging its workspace leaves a floating
/// window where it was put.
proof fn lemma_floating_put(d: DesktopModel, id: WindowId, location: Location)
    requires
        d.wf(),
        d.has(id),
        d.floats(id),
    ensures
        d.put(id, location).wf(),
        d.put(id, location).floats(id),
        d.put(id, location).retile(d.window(id).workspace).wf(),
        d.put(id, location).retile(d.window(id).workspace).has(id),
        d.put(id, location).retile(d.window(id).workspace).window(id) == (ManagedWindow {
            place: Some(location),
            ..d.window(id)
        }),
{
    invariants::lemma_put(d, id, location);
    let put = d.put(id, location);
    invariants::lemma_rearranged_window(d, put, id);
    invariants::lemma_listed(d, id);
    invariants::lemma_retile(put, d.window(id).workspace);
    arranging_leaves_other_windows_alone(put, d.window(id).workspace, id);
}

/// A floating window without a place of its own opens in the middle of the
/// work area: the margins at its sides differ by a pixel at most, and so do
/// those above its frame and below it where the frame fits.
pub proof fn floating_windows_open_centered(
    d: DesktopModel,
    id: WindowId,
    workspace: u64,
    named: Option<int>,
    now: u64,
)
    requires
        d.wf(),
        d.has(id),
        d.floats(id),
        !d.window(id).mapped,
        d.window(id).size.w >= 0,
        d.window(id).size.h >= 0,
        named is Some ==> 0 <= named->0 < d.outputs.len(),
    ensures
        ({
            let area = d.initial_area(named, workspace);
            let size = d.window(id).size;
            let top = d.insets(id).top;
            let opened = d.map_window(id, workspace, named, None, now);
            let place = opened.window(id).place;
            &&& opened.has(id)
            &&& place is Some
            &&& -1 <= (area.right() - (place->0.x + size.w)) - (place->0.x - area.x) <= 1
            &&& size.h + top <= area.height ==> -1 <= (area.bottom() - (place->0.y + size.h)) - (
            place->0.y - top - area.y) <= 1
        }),
{
    let location = d.initial_place(id, named, workspace, None);
    let area = d.initial_area(named, workspace);
    let size = d.window(id).size;
    let told = d.emit(Effect::ListForeign { id });
    invariants::lemma_emit(d, Effect::ListForeign { id });
    invariants::lemma_listed(d, id);
    let w = ManagedWindow {
        mapped: true,
        workspace,
        opened_at: if d.settings.animations {
            Some(now)
        } else {
            None
        },
        ..d.window(id)
    };
    invariants::lemma_with(told, w);
    let set = told.with(w);
    assert(set.has(id));
    assert(set.floats(id));
    invariants::lemma_put(set, id, location);
    let put = set.put(id, location);
    invariants::lemma_rearranged_window(set, put, id);
    invariants::lemma_emit(put, Effect::WindowOpened { id });
    let one = put.emit(Effect::WindowOpened { id });
    invariants::lemma_emit(one, Effect::WorkspacesChanged);
    let two = one.emit(Effect::WorkspacesChanged);
    assert(two.floats(id));
    arranging_leaves_other_windows_alone(two, workspace, id);
    let mapped = two.retile(workspace);
    assert(mapped.window(id).place == Some(location));
    let opened = d.map_window(id, workspace, named, None, now);
    assert(opened.windows == mapped.windows);
    invariants::lemma_output_for_workspace(d, workspace);
    match d.output_for_new(named, workspace) {
        Some(output) => {
            let state = d.outputs[output];
            invariants::lemma_room(state.geometry, state.zone, d.windows.len(), 0);
        },
        None => {},
    }
    assert(location.x == area.x + geometry::quotient(area.width - size.w, 2));
}

/// A floating window that is minimized leaves the desktop, and focusing it
/// brings it back to where it was.
pub proof fn focusing_brings_a_minimized_window_back(d: DesktopModel, id: WindowId, now: u64)
    requires
        d.wf(),
        d.has(id),
        d.floats(id),
        d.window(id).mapped,
        d.window(id).place is Some,
        d.window(id).workspace == d.focused_workspace(),
    ensures
        ({
            let minimized = d.minimize(id).0;
            let back = minimized.focus_by_id(id, now).0;
            &&& d.minimize(id).1
            &&& !minimized.stack.contains(id)
            &&& minimized.focus_by_id(id, now).1
            &&& back.stack.contains(id)
            &&& back.window(id).place == d.window(id).place
            &&& back.window(id).minimized is None
        }),
{
    let location = d.window(id).place->0;
    let workspace = d.window(id).workspace;
    let minimized = d.minimize(id).0;
    invariants::lemma_listed(d, id);
    invariants::lemma_minimize(d, id);
    let w = ManagedWindow { minimized: Some(location), ..d.window(id) };
    invariants::lemma_with(d, w);
    let one = d.with(w);
    assert(one.has(id));
    invariants::lemma_take_off(one, id);
    let two = one.take_off(id);
    invariants::lemma_rearranged_window(one, two, id);
    invariants::lemma_retile(two, workspace);
    arranging_leaves_other_windows_alone(two, workspace, id);
    let gone = two.retile(workspace);
    invariants::lemma_focus_previous(gone);
    assert(gone.focus_previous().windows == gone.windows) by {
        match gone.previous_focus() {
            Some(other) => {},
            None => {},
        }
    }
    assert(minimized.windows == gone.windows);
    assert(minimized.window(id) == gone.window(id));
    assert(minimized.has(id));
    assert(minimized.window(id).place is None);
    assert(!minimized.stack.contains(id));
    assert(minimized.outputs == d.outputs && minimized.focused_output == d.focused_output);
    let shown = ManagedWindow { minimized: None, ..minimized.window(id) };
    invariants::lemma_listed(minimized, id);
    invariants::lemma_with(minimized, shown);
    let unhidden = minimized.with(shown);
    assert(unhidden.has(id));
    lemma_floating_put(unhidden, id, location);
    let back = minimized.focus_by_id(id, now).0;
    invariants::lemma_focus_by_id(minimized, id, now);
    assert(back.windows == unhidden.put(id, location).retile(workspace).windows);
    assert(back.has(id));
}

/// A fullscreen window notes the geometry that it had.
proof fn lemma_entered_fullscreen(d: DesktopModel, id: WindowId)
    requires
        d.wf(),
        d.has(id),
        d.window(id).place is Some,
        !d.window(id).fullscreen,
        d.window(id).restore is None,
    ensures
        d.set_fullscreen(id, true).wf(),
        d.set_fullscreen(id, true).settings == d.settings,
        d.set_fullscreen(id, true).has(id),
        d.set_fullscreen(id, true).window(id) == (ManagedWindow {
            restore: d.window(id).geometry(),
            fullscreen: true,
            place: d.set_fullscreen(id, true).window(id).place,
            ..d.window(id)
        }),
{
    let geometry = d.window(id).geometry()->0;
    invariants::lemma_listed(d, id);
    let w1 = ManagedWindow { restore: Some(geometry), ..d.window(id) };
    invariants::lemma_with(d, w1);
    let noted = d.with(w1);
    assert(noted.has(id));
    let w2 = ManagedWindow { fullscreen: true, ..w1 };
    invariants::lemma_with(noted, w2);
    let set = noted.with(w2);
    assert(set.has(id));
    let effect = Effect::SetFullscreenState { id, on: true };
    invariants::lemma_emit(set, effect);
    let marked = set.emit(effect);
    invariants::lemma_apply_fullscreen(marked, id);
    let full = marked.apply_fullscreen(id);
    invariants::lemma_rearranged_window(marked, full, id);
    invariants::lemma_raise(full, id);
    invariants::lemma_set_fullscreen(d, id, true);
    let f = d.set_fullscreen(id, true);
    assert(f.windows == full.windows);
}

/// Leaving fullscreen takes a floating window back to where it was, and asks
/// it for the size that it had.
pub proof fn leaving_fullscreen_restores_the_geometry(d: DesktopModel, id: WindowId)
    requires
        d.wf(),
        d.has(id),
        d.floats(id),
        d.window(id).place is Some,
        !d.window(id).fullscreen,
        !d.window(id).maximized,
        d.window(id).restore is None,
    ensures
        ({
            let back = d.set_fullscreen(id, true).set_fullscreen(id, false);
            &&& d.set_fullscreen(id, true).window(id).fullscreen
            &&& back.window(id) == d.window(id)
            &&& back.effects.contains(
                Effect::Configure { id, size: Some(d.window(id).size) },
            )
        }),
{
    lemma_entered_fullscreen(d, id);
    let f = d.set_fullscreen(id, true);
    invariants::lemma_listed(d, id);
    invariants::lemma_listed(f, id);
    let w3 = ManagedWindow { fullscreen: false, ..f.window(id) };
    invariants::lemma_with(f, w3);
    let unset = f.with(w3);
    assert(unset.has(id));
    let effect = Effect::SetFullscreenState { id, on: false };
    invariants::lemma_emit(unset, effect);
    lemma_restored(unset.emit(effect), id, d.window(id).geometry()->0);
    let placed = unset.emit(effect).restore_geometry(id);
    let back = f.set_fullscreen(id, false);
    assert(back == placed.repaint());
    assert(back.windows == placed.windows);
}

/// Going back to a noted geometry.
proof fn lemma_restored(d: DesktopModel, id: WindowId, rect: Rect)
    requires
        d.wf(),
        d.has(id),
        d.floats(id),
        d.window(id).restore == Some(rect),
    ensures
        d.restore_geometry(id).wf(),
        d.restore_geometry(id).has(id),
        d.restore_geometry(id).window(id) == (ManagedWindow {
            restore: None,
            place: Some(Location { x: rect.x, y: rect.y }),
            ..d.window(id)
        }),
        d.restore_geometry(id).effects.contains(
            Effect::Configure { id, size: Some(Size { w: rect.width, h: rect.height }) },
        ),
{
    invariants::lemma_restore_geometry(d, id);
    invariants::lemma_listed(d, id);
    let w = ManagedWindow { restore: None, ..d.window(id) };
    invariants::lemma_with(d, w);
    let taken = d.with(w);
    assert(taken.has(id));
    invariants::lemma_configure_and_place(taken, id, rect);
    let next = taken.configure_and_place(id, rect);
    invariants::lemma_rearranged_window(taken, next, id);
    let effect = Effect::Configure { id, size: Some(Size { w: rect.width, h: rect.height }) };
    invariants::lemma_emit(taken, effect);
    let told = taken.emit(effect);
    invariants::lemma_rearranged_window(taken, told, id);
    let location = Location { x: rect.x, y: rect.y };
    invariants::lemma_move_window(told, id, location);
    let n = taken.effects.len() as int;
    assert(told.effects[n] == effect);
    assert(next.effects[n] == effect);
}

/// A maximized window notes the geometry that it had.
proof fn lemma_maximized(d: DesktopModel, id: WindowId)
    requires
        d.wf(),
        d.has(id),
        d.window(id).place is Some,
        !d.window(id).fullscreen,
        d.window(id).restore is None,
    ensures
        d.set_maximized(id, true).0.wf(),
        d.set_maximized(id, true).0.settings == d.settings,
        d.set_maximized(id, true).0.has(id),
        d.set_maximized(id, true).0.window(id) == (ManagedWindow {
            restore: d.window(id).geometry(),
            maximized: true,
            place: d.set_maximized(id, true).0.window(id).place,
            ..d.window(id)
        }),
{
    let geometry = d.window(id).geometry()->0;
    invariants::lemma_listed(d, id);
    let w1 = ManagedWindow { restore: Some(geometry), ..d.window(id) };
    invariants::lemma_with(d, w1);
    let noted = d.with(w1);
    assert(noted.has(id));
    let w2 = ManagedWindow { maximized: true, ..w1 };
    invariants::lemma_with(noted, w2);
    let set = noted.with(w2);
    assert(set.has(id));
    let effect = Effect::SetMaximizedState { id, on: true };
    invariants::lemma_emit(set, effect);
    let marked = set.emit(effect);
    invariants::lemma_apply_maximized(marked, id);
    let full = marked.apply_maximized(id);
    invariants::lemma_rearranged_window(marked, full, id);
    invariants::lemma_set_maximized(d, id, true);
    let f = d.set_maximized(id, true).0;
    assert(f.windows == full.windows);
}

/// Taking a maximization back takes a floating window back to where it was,
/// and asks it for the size that it had.
pub proof fn unmaximizing_restores_the_geometry(d: DesktopModel, id: WindowId)
    requires
        d.wf(),
        d.has(id),
        d.floats(id),
        d.window(id).place is Some,
        !d.window(id).fullscreen,
        !d.window(id).maximized,
        d.window(id).restore is None,
    ensures
        ({
            let back = d.set_maximized(id, true).0.set_maximized(id, false).0;
            &&& d.set_maximized(id, true).0.window(id).maximized
            &&& back.window(id) == d.window(id)
            &&& back.effects.contains(
                Effect::Configure { id, size: Some(d.window(id).size) },
            )
        }),
{
    lemma_maximized(d, id);
    let f = d.set_maximized(id, true).0;
    invariants::lemma_listed(d, id);
    invariants::lemma_listed(f, id);
    let w3 = ManagedWindow { maximized: false, ..f.window(id) };
    invariants::lemma_with(f, w3);
    let unset = f.with(w3);
    assert(unset.has(id));
    let effect = Effect::SetMaximizedState { id, on: false };
    invariants::lemma_emit(unset, effect);
    lemma_restored(unset.emit(effect), id, d.window(id).geometry()->0);
    let placed = unset.emit(effect).restore_geometry(id);
    let told = Effect::WindowMaximized { id, maximized: false };
    let back = f.set_maximized(id, false).0;
    assert(back == placed.emit(told));
    assert(back.windows == placed.windows);
    let wanted = Effect::Configure { id, size: Some(d.window(id).size) };
    let k = choose|k: int| 0 <= k < placed.effects.len() && placed.effects[k] == wanted;
    assert(back.effects[k] == wanted);
}

/// What moving a window does to workspaces and to windows.
proof fn lemma_moved(d: DesktopModel, id: WindowId, workspace: u64, x: WindowId)
    requires
        d.wf(),
        d.has(id),
        d.workspace_place(workspace) is Some,
        d.window(id).workspace != workspace,
    ensures
        ({
            let next = d.move_to_workspace(id, workspace).0;
            &&& next.workspaces == (match d.workspace_place(d.window(id).workspace) {
                Some(place) => d.with_workspace(place, d.workspaces[place].forget(id)),
                None => d,
            }).workspaces
            &&& d.has(x) ==> next.has(x) && next.window(x).mapped == d.window(x).mapped
                && next.window(x).workspace == (if x == id {
                workspace
            } else {
                d.window(x).workspace
            })
        }),
{
    let next = d.move_to_workspace(id, workspace).0;
    let previous = d.window(id).workspace;
    invariants::lemma_listed(d, id);
    invariants::lemma_moved_out(d, id);
    let forgotten = match d.workspace_place(previous) {
        Some(place) => d.with_workspace(place, d.workspaces[place].forget(id)),
        None => d,
    };
    let w = ManagedWindow { workspace, ..d.window(id) };
    assert(forgotten.windows == d.windows);
    invariants::lemma_with(forgotten, w);
    let one = forgotten.with(w);
    assert(one.has(id));
    assert(d.has(x) ==> one.has(x));
    invariants::lemma_retile(one, previous);
    let two = one.retile(previous);
    invariants::lemma_rearranged_window(one, two, x);
    invariants::lemma_retile(two, workspace);
    let moved = two.retile(workspace);
    invariants::lemma_rearranged_window(two, moved, x);
    invariants::lemma_focus_previous(moved);
    invariants::lemma_rearranged_window(moved, moved.focus_previous(), x);
    let focused = if moved.focused_window == Some(id) {
        moved.focus_previous()
    } else {
        moved
    };
    assert(next.windows == focused.windows);
    assert(next.workspaces == focused.workspaces);
}

/// The window is mapped or not as before, and on the workspace where it was.
spec fn same_home(a: DesktopModel, b: DesktopModel, id: WindowId) -> bool {
    a.window(id).mapped == b.window(id).mapped && a.window(id).workspace == b.window(id).workspace
}

/// A window that was moved is on the workspace it was moved to, and no other
/// workspace remembers it, if none but its own did so before.
pub proof fn a_moved_window_is_remembered_nowhere_else(
    d: DesktopModel,
    id: WindowId,
    workspace: u64,
    i: int,
)
    requires
        d.wf(),
        d.has(id),
        d.workspace_place(workspace) is Some,
        0 <= i < d.move_to_workspace(id, workspace).0.workspaces.len(),
        d.move_to_workspace(id, workspace).0.workspaces[i].id != workspace,
        forall|k: int|
            0 <= k < d.workspaces.len() && #[trigger] d.workspaces[k].remembers(id)
                ==> d.workspaces[k].id == d.window(id).workspace,
    ensures
        d.move_to_workspace(id, workspace).1,
        d.move_to_workspace(id, workspace).0.window(id).workspace == workspace,
        !d.move_to_workspace(id, workspace).0.workspaces[i].focus_history.contains(id),
        d.move_to_workspace(id, workspace).0.workspaces[i].focused_window != Some(id),
{
    let next = d.move_to_workspace(id, workspace).0;
    invariants::lemma_move_to_workspace(d, id, workspace);
    if d.window(id).workspace != workspace {
        lemma_moved(d, id, workspace, id);
        lemma_forgotten_at_home(d, id, next, i);
    } else {
        assert(next == d);
        assert(!d.workspaces[i].remembers(id));
    }
}

/// A window that only its own workspace remembered is remembered nowhere once
/// that one forgets it.
proof fn lemma_forgotten_at_home(d: DesktopModel, id: WindowId, next: DesktopModel, k: int)
    requires
        d.wf(),
        forall|k: int|
            0 <= k < d.workspaces.len() && #[trigger] d.workspaces[k].remembers(id)
                ==> d.workspaces[k].id == d.window(id).workspace,
        next.workspaces == (match d.workspace_place(d.window(id).workspace) {
            Some(place) => d.with_workspace(place, d.workspaces[place].forget(id)),
            None => d,
        }).workspaces,
        0 <= k < next.workspaces.len(),
    ensures
        !next.workspaces[k].remembers(id),
{
    let home = d.window(id).workspace;
    invariants::lemma_workspace_from(d, home, 0);
    if d.workspaces[k].remembers(id) {
        let place = d.workspace_place(home)->0;
        if k < place {
            assert(d.workspaces[k].id != d.workspaces[place].id);
        }
        if place < k {
            assert(d.workspaces[place].id != d.workspaces[k].id);
        }
        invariants::lemma_forget(d.workspaces[place], id);
    } else {
        lemma_forgets(d.workspaces[k], id, id);
    }
}

/// Where nothing new is remembered and every window stays at home, workspaces
/// remember their own windows as before.
proof fn lemma_still_homed(a: DesktopModel, b: DesktopModel)
    requires
        a.homed(),
        b.workspaces.len() == a.workspaces.len(),
        forall|i: int, id: WindowId|
            0 <= i < a.workspaces.len() && #[trigger] b.workspaces[i].remembers(id)
                ==> a.workspaces[i].remembers(id) && b.workspaces[i].id == a.workspaces[i].id
                && b.has(id) && same_home(a, b, id),
    ensures
        b.homed(),
{
}

proof fn lemma_rearranged_homed(a: DesktopModel, b: DesktopModel)
    requires
        a.wf(),
        a.homed(),
        invariants::rearranged(a, b),
    ensures
        b.homed(),
{
    assert forall|i: int, id: WindowId|
        0 <= i < a.workspaces.len() && #[trigger] b.workspaces[i].remembers(id) implies b.has(id)
        && same_home(a, b, id) by {
        assert(a.workspaces[i].remembers(id));
        invariants::lemma_rearranged_window(a, b, id);
    }
    lemma_still_homed(a, b);
}

/// A workspace that forgets a window remembers nothing new.
proof fn lemma_forgets(ws: model::WorkspaceModel, id: WindowId, x: WindowId)
    ensures
        ws.forget(id).remembers(x) ==> x != id && ws.remembers(x),
{
    invariants::lemma_forget(ws, id);
}

/// Workspaces remember only mapped windows of their own. Moving a window keeps
/// this, and so does giving the keyboard to a mapped window.
pub proof fn workspaces_remember_their_own_windows(
    d: DesktopModel,
    id: WindowId,
    workspace: u64,
    target: FocusTarget,
)
    requires
        d.wf(),
        d.homed(),
    ensures
        d.move_to_workspace(id, workspace).0.homed(),
        (d.has(id) ==> d.window(id).mapped) ==> d.focus_changed(target, Some(id)).homed(),
        d.focus_changed(target, None).homed(),
{
    if d.workspace_place(workspace) is Some && d.has(id) && d.window(id).workspace != workspace {
        let next = d.move_to_workspace(id, workspace).0;
        lemma_moved(d, id, workspace, id);
        assert forall|k: int|
            0 <= k < d.workspaces.len() && #[trigger] d.workspaces[k].remembers(
                id,
            ) implies d.workspaces[k].id == d.window(id).workspace by {}
        invariants::lemma_workspace_from(d, d.window(id).workspace, 0);
        assert forall|i: int, x: WindowId|
            0 <= i < d.workspaces.len() && #[trigger] next.workspaces[i].remembers(
                x,
            ) implies d.workspaces[i].remembers(x) && next.workspaces[i].id == d.workspaces[i].id
            && next.has(x) && same_home(d, next, x) by {
            lemma_forgets(d.workspaces[i], id, x);
            lemma_forgotten_at_home(d, id, next, i);
            assert(d.workspaces[i].remembers(x));
            assert(x != id);
            lemma_moved(d, id, workspace, x);
        }
        lemma_still_homed(d, next);
    }
    if d.has(id) ==> d.window(id).mapped {
        let next = d.focus_changed(target, Some(id));
        invariants::lemma_workspace_from(d, d.window(id).workspace, 0);
        assert forall|i: int, x: WindowId|
            0 <= i < next.workspaces.len() && #[trigger] next.workspaces[i].remembers(
                x,
            ) implies next.has(x) && next.window(x).mapped && next.window(x).workspace
            == next.workspaces[i].id by {
            let was = d.workspaces[i];
            if next.workspaces[i] != was {
                let rest = model::without(was.focus_history, id);
                if x != id {
                    let now = next.workspaces[i].focus_history;
                    let k = choose|k: int| 0 <= k < now.len() && now[k] == x;
                    assert(rest[k] == x);
                    seqs::lemma_filter_contains(was.focus_history, model::other_than(id), x);
                    assert(was.remembers(x));
                }
            } else {
                assert(was.remembers(x));
            }
        }
    }
    assert forall|i: int, x: WindowId|
        0 <= i < d.workspaces.len() && #[trigger] d.focus_changed(target, None).workspaces[i].remembers(
            x,
        ) implies d.workspaces[i].remembers(x) by {}
}

/// Mapping a window and taking one off the desktop keep it so that workspaces
/// remember only mapped windows of their own.
pub proof fn opening_and_closing_keep_memories_at_home(
    d: DesktopModel,
    id: WindowId,
    workspace: u64,
    named: Option<int>,
    position: Option<Location>,
    now: u64,
)
    requires
        d.wf(),
        d.homed(),
        d.has(id),
    ensures
        !d.window(id).mapped ==> d.map_window(id, workspace, named, position, now).homed(),
        d.unmap(id).homed(),
        d.destroy(id).homed(),
{
    invariants::lemma_listed(d, id);
    if !d.window(id).mapped {
        lemma_mapped_homed(d, id, workspace, named, position, now);
    }
    let forgotten = d.forgotten(id);
    invariants::lemma_forgotten(d, id);
    assert forall|i: int, x: WindowId|
        0 <= i < d.workspaces.len() && #[trigger] forgotten.workspaces[i].remembers(x) implies x
        != id && d.workspaces[i].remembers(x) by {
        lemma_forgets(d.workspaces[i], id, x);
    }
    lemma_still_homed(d, forgotten);
    invariants::lemma_take_off(forgotten, id);
    let off = forgotten.take_off(id);
    lemma_rearranged_homed(forgotten, off);
    invariants::lemma_rearranged_window(forgotten, off, id);
    lemma_unmapped_homed(d, id, off);
    lemma_destroyed_homed(d, id, off);
}

#[verifier::rlimit(40)]
proof fn lemma_mapped_homed(
    d: DesktopModel,
    id: WindowId,
    workspace: u64,
    named: Option<int>,
    position: Option<Location>,
    now: u64,
)
    requires
        d.wf(),
        d.homed(),
        d.has(id),
        !d.window(id).mapped,
    ensures
        d.map_window(id, workspace, named, position, now).homed(),
{
    invariants::lemma_listed(d, id);
    let location = d.initial_place(id, named, workspace, position);
    let told = d.emit(Effect::ListForeign { id });
    invariants::lemma_emit(d, Effect::ListForeign { id });
    let w = ManagedWindow {
        mapped: true,
        workspace,
        opened_at: if d.settings.animations {
            Some(now)
        } else {
            None
        },
        ..d.window(id)
    };
    invariants::lemma_with(told, w);
    let set = told.with(w);
    assert(set.has(id));
    invariants::lemma_put(set, id, location);
    let put = set.put(id, location);
    invariants::lemma_rearranged_window(set, put, id);
    invariants::lemma_emit(put, Effect::WindowOpened { id });
    let one = put.emit(Effect::WindowOpened { id });
    invariants::lemma_emit(one, Effect::WorkspacesChanged);
    let two = one.emit(Effect::WorkspacesChanged);
    invariants::lemma_retile(two, workspace);
    let mapped = two.retile(workspace);
    assert forall|i: int, x: WindowId|
        0 <= i < d.workspaces.len() && #[trigger] set.workspaces[i].remembers(
            x,
        ) implies d.workspaces[i].remembers(x) && set.workspaces[i].id == d.workspaces[i].id
        && set.has(x) && same_home(d, set, x) by {
        assert(d.workspaces[i].remembers(x));
        assert(x != id);
        assert(told.has(x) && told.window(x) == d.window(x));
        assert(set.has(x) && set.window(x) == told.window(x));
    }
    lemma_still_homed(d, set);
    lemma_rearranged_homed(set, put);
    lemma_rearranged_homed(put, one);
    lemma_rearranged_homed(one, two);
    lemma_rearranged_homed(two, mapped);
    invariants::lemma_rearranged_window(two, mapped, id);
    invariants::lemma_focus_window(mapped, id);
    lemma_rearranged_homed(mapped, mapped.focus_window(id));
    invariants::lemma_workspace_from(mapped, workspace, 0);
    let next = d.map_window(id, workspace, named, position, now);
    if !(workspace == mapped.focused_workspace() && mapped.settings.focus_new_windows) {
        assert forall|i: int, x: WindowId|
            0 <= i < next.workspaces.len() && #[trigger] next.workspaces[i].remembers(
                x,
            ) implies next.has(x) && next.window(x).mapped && next.window(x).workspace
            == next.workspaces[i].id by {
            let was = mapped.workspaces[i];
            if x != id {
                let listed = next.workspaces[i].focus_history;
                if listed.contains(x) && !was.focus_history.contains(x) {
                    let k = choose|k: int| 0 <= k < listed.len() && listed[k] == x;
                    if k > 0 {
                        assert(was.focus_history[k - 1] == x);
                    }
                }
                assert(was.remembers(x));
            } else if next.workspaces[i] == was {
                assert(was.remembers(x));
            }
        }
    } else {
        assert forall|i: int, x: WindowId|
            0 <= i < next.workspaces.len() && #[trigger] next.workspaces[i].remembers(
                x,
            ) implies next.has(x) && next.window(x).mapped && next.window(x).workspace
            == next.workspaces[i].id by {
            assert(mapped.focus_window(id).workspaces[i].remembers(x));
        }
    }
}

proof fn lemma_unmapped_homed(d: DesktopModel, id: WindowId, off: DesktopModel)
    requires
        d.wf(),
        d.has(id),
        off == d.forgotten(id).take_off(id),
        off.wf(),
        off.homed(),
        off.has(id),
        off.window(id).place is None,
        forall|i: int|
            0 <= i < off.workspaces.len() ==> !#[trigger] off.workspaces[i].remembers(id),
    ensures
        d.unmap(id).homed(),
{
    let w = ManagedWindow { mapped: false, minimized: None, ..off.window(id) };
    invariants::lemma_with(off, w);
    let hidden = off.with(w);
    assert forall|i: int, x: WindowId|
        0 <= i < off.workspaces.len() && #[trigger] hidden.workspaces[i].remembers(
            x,
        ) implies off.workspaces[i].remembers(x) && hidden.has(x) && same_home(
        off,
        hidden,
        x,
    ) by {
        assert(off.workspaces[i].remembers(x));
        assert(x != id);
        assert(hidden.has(x) && hidden.window(x) == off.window(x));
    }
    lemma_still_homed(off, hidden);
    let one = hidden.emit(Effect::UnlistForeign { id });
    let two = one.emit(Effect::ResetConfigure { id });
    invariants::lemma_emit(hidden, Effect::UnlistForeign { id });
    invariants::lemma_emit(one, Effect::ResetConfigure { id });
    lemma_rearranged_homed(hidden, one);
    lemma_rearranged_homed(one, two);
    invariants::lemma_retile(two, d.window(id).workspace);
    let tiled = two.retile(d.window(id).workspace);
    lemma_rearranged_homed(two, tiled);
    lemma_refocused_homed(tiled, id);
    let next = d.unmap(id);
    assert(next.workspaces == tiled.refocus(id).workspaces);
    assert(next.windows == tiled.refocus(id).windows);
    assert forall|i: int, x: WindowId|
        0 <= i < next.workspaces.len() && #[trigger] next.workspaces[i].remembers(x) implies next.has(
        x,
    ) && next.window(x).mapped && next.window(x).workspace == next.workspaces[i].id by {
        assert(tiled.refocus(id).workspaces[i].remembers(x));
    }
}

proof fn lemma_destroyed_homed(d: DesktopModel, id: WindowId, off: DesktopModel)
    requires
        d.wf(),
        d.has(id),
        off == d.forgotten(id).take_off(id),
        off.wf(),
        off.homed(),
        off.has(id),
        off.window(id).place is None,
        invariants::unremembered(off, id),
        forall|i: int|
            0 <= i < off.workspaces.len() ==> !#[trigger] off.workspaces[i].remembers(id),
    ensures
        d.destroy(id).homed(),
{
    invariants::lemma_removed(off, id);
    let gone = DesktopModel {
        windows: off.windows.remove(model::place_in(off.windows, id)),
        ..off
    };
    assert forall|i: int, x: WindowId|
        0 <= i < off.workspaces.len() && #[trigger] gone.workspaces[i].remembers(
            x,
        ) implies off.workspaces[i].remembers(x) && gone.has(x) && same_home(off, gone, x) by {
        assert(off.workspaces[i].remembers(x));
        assert(x != id && off.has(x));
        assert(gone.has(x));
    }
    lemma_still_homed(off, gone);
    let workspace = d.window(id).workspace;
    invariants::lemma_retile(gone, workspace);
    let tiled = gone.retile(workspace);
    lemma_rearranged_homed(gone, tiled);
    let listed = if d.window(id).mapped {
        tiled.emit(Effect::UnlistForeign { id })
    } else {
        tiled
    };
    invariants::lemma_emit(tiled, Effect::UnlistForeign { id });
    lemma_rearranged_homed(tiled, listed);
    lemma_refocused_homed(listed, id);
    let next = d.destroy(id);
    assert(next.workspaces == listed.refocus(id).workspaces);
    assert(next.windows == listed.refocus(id).windows);
    assert forall|i: int, x: WindowId|
        0 <= i < next.workspaces.len() && #[trigger] next.workspaces[i].remembers(x) implies next.has(
        x,
    ) && next.window(x).mapped && next.window(x).workspace == next.workspaces[i].id by {
        assert(listed.refocus(id).workspaces[i].remembers(x));
    }
}

/// Giving the focus away changes no memory.
proof fn lemma_refocused_homed(d: DesktopModel, id: WindowId)
    requires
        d.wf(),
        d.homed(),
    ensures
        d.refocus(id).homed(),
{
    let cleared = DesktopModel { focused_window: None, ..d };
    invariants::lemma_same_but_focus(d, cleared);
    assert forall|i: int, x: WindowId|
        0 <= i < d.workspaces.len() && #[trigger] cleared.workspaces[i].remembers(
            x,
        ) implies d.workspaces[i].remembers(x) && cleared.has(x) by {
        assert(d.workspaces[i].remembers(x));
    }
    lemma_still_homed(d, cleared);
    invariants::lemma_focus_previous(cleared);
    lemma_rearranged_homed(cleared, cleared.focus_previous());
    let next = d.refocus(id);
    assert forall|i: int, x: WindowId|
        0 <= i < next.workspaces.len() && #[trigger] next.workspaces[i].remembers(x) implies next.has(
        x,
    ) && next.window(x).mapped && next.window(x).workspace == next.workspaces[i].id by {
        assert(d.workspaces[i].remembers(x));
        assert(cleared.focus_previous().workspaces[i].remembers(x));
    }
}

/// The windows drawn on an output are exactly those on the desktop that are
/// visible there.
pub proof fn exactly_the_visible_windows_are_drawn(d: DesktopModel, output: int, id: WindowId)
    ensures
        d.z_order(output).contains(id) <==> d.stack.contains(id) && d.visible_on(id, output),
{
    let a = d.level(output, false, false);
    let b = d.level(output, false, true);
    let c = d.level(output, true, false);
    let e = d.level(output, true, true);
    lemma_level(d, output, false, false, id);
    lemma_level(d, output, false, true, id);
    lemma_level(d, output, true, false, id);
    lemma_level(d, output, true, true, id);
    let z = d.z_order(output);
    if a.contains(id) {
        let i = choose|i: int| 0 <= i < a.len() && a[i] == id;
        assert(z[i] == id);
    }
    if b.contains(id) {
        let i = choose|i: int| 0 <= i < b.len() && b[i] == id;
        assert(z[a.len() + i] == id);
    }
    if c.contains(id) {
        let i = choose|i: int| 0 <= i < c.len() && c[i] == id;
        assert(z[a.len() + b.len() + i] == id);
    }
    if e.contains(id) {
        let i = choose|i: int| 0 <= i < e.len() && e[i] == id;
        assert(z[a.len() + b.len() + c.len() + i] == id);
    }
    if z.contains(id) {
        let i = choose|i: int| 0 <= i < z.len() && z[i] == id;
        if i < a.len() {
            assert(a[i] == id);
        } else if i < a.len() + b.len() {
            assert(b[i - a.len()] == id);
        } else if i < a.len() + b.len() + c.len() {
            assert(c[i - a.len() - b.len()] == id);
        } else {
            assert(e[i - a.len() - b.len() - c.len()] == id);
        }
    }
}

proof fn lemma_level(d: DesktopModel, output: int, fullscreen: bool, on_top: bool, id: WindowId)
    ensures
        d.level(output, fullscreen, on_top).contains(id) <==> d.stack.contains(id) && d.visible_on(
            id,
            output,
        ) && d.window(id).fullscreen == fullscreen && (d.window(id).always_on_top == Some(true))
            == on_top,
{
    let keep = |id: WindowId|
        d.visible_on(id, output) && d.window(id).fullscreen == fullscreen && (d.window(
            id,
        ).always_on_top == Some(true)) == on_top;
    seqs::lemma_filter_contains(d.stack, keep, id);
}

/// A fullscreen window is drawn above every window that is not.
pub proof fn fullscreen_windows_are_drawn_above(d: DesktopModel, output: int, i: int, j: int)
    requires
        0 <= i < j < d.z_order(output).len(),
        d.window(d.z_order(output)[i]).fullscreen,
    ensures
        d.window(d.z_order(output)[j]).fullscreen,
{
    let a = d.level(output, false, false);
    let b = d.level(output, false, true);
    let c = d.level(output, true, false);
    let e = d.level(output, true, true);
    let z = d.z_order(output);
    lemma_level(d, output, false, false, z[i]);
    lemma_level(d, output, false, true, z[i]);
    lemma_level(d, output, true, false, z[j]);
    lemma_level(d, output, true, true, z[j]);
    if i < a.len() {
        assert(a[i] == z[i]);
    } else if i < a.len() + b.len() {
        assert(b[i - a.len()] == z[i]);
    } else if j < a.len() + b.len() + c.len() {
        assert(c[j - a.len() - b.len()] == z[j]);
    } else {
        assert(e[j - a.len() - b.len() - c.len()] == z[j]);
    }
}

/// While a layer takes the keyboard from everyone, focusing a window or
/// giving the focus away leaves the keyboard with the layer.
pub proof fn an_exclusive_layer_keeps_the_keyboard(d: DesktopModel, id: WindowId)
    requires
        model::exclusive_layer(d.layers, 0) is Some,
    ensures
        d.focus_window(id).keyboard == FocusTarget::Layer(
            model::exclusive_layer(d.layers, 0)->0,
        ),
        d.focus_previous().keyboard == FocusTarget::Layer(
            model::exclusive_layer(d.layers, 0)->0,
        ),
{
    match d.previous_focus() {
        Some(other) => {},
        None => {},
    }
}

/// Ending animations twice at one time does no more than once, and where
/// animations are off none is left.
pub proof fn pruning_is_idempotent(d: DesktopModel, now: u64)
    ensures
        d.pruned(now).pruned(now) == d.pruned(now),
        !d.settings.animations ==> !d.pruned(now).animating(),
{
    assert(d.pruned(now).pruned(now) =~= d.pruned(now));
}

} // verus!
