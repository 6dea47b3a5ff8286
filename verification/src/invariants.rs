//! Every operation on the desktop keeps it well-formed.

use vstd::prelude::*;

use crate::geometry::{Location, Rect, Size};
use crate::geometry;
use crate::layout;
use crate::model::{DesktopModel, Effect, FocusTarget, ManagedWindow, WindowId, WorkspaceModel};
use crate::model;
use crate::seqs;

verus! {

/// Where a window is listed, if ids are in order.
pub proof fn lemma_place_in(d: DesktopModel, i: int)
    requires
        d.ids_ok(),
        0 <= i < d.windows.len(),
    ensures
        d.has(d.windows[i].id),
        model::place_in(d.windows, d.windows[i].id) == i,
        d.window(d.windows[i].id) == d.windows[i],
{
    let id = d.windows[i].id;
    let j = model::place_in(d.windows, id);
    assert(d.windows[i].id == id);
    assert(0 <= j < d.windows.len() && d.windows[j].id == id);
    if i < j {
        assert(d.windows[i].id.0 < d.windows[j].id.0);
    } else if j < i {
        assert(d.windows[j].id.0 < d.windows[i].id.0);
    }
}

/// A listed window is where it is listed.
pub proof fn lemma_listed(d: DesktopModel, id: WindowId)
    requires
        d.has(id),
    ensures
        0 <= model::place_in(d.windows, id) < d.windows.len(),
        d.windows[model::place_in(d.windows, id)].id == id,
        d.window(id).id == id,
{
}

/// Two lists with the same ids agree on who is listed, and where.
pub proof fn lemma_same_ids(a: DesktopModel, b: DesktopModel, id: WindowId)
    requires
        a.ids_ok(),
        a.windows.len() == b.windows.len(),
        forall|i: int|
            0 <= i < a.windows.len() ==> (#[trigger] b.windows[i]).id == a.windows[i].id,
        a.next_window_id == b.next_window_id,
    ensures
        b.ids_ok(),
        a.has(id) == b.has(id),
        a.has(id) ==> model::place_in(a.windows, id) == model::place_in(b.windows, id),
{
    assert forall|i: int, j: int| 0 <= i < j < b.windows.len() implies (
    #[trigger] b.windows[i]).id.0 < (#[trigger] b.windows[j]).id.0 by {
        assert(a.windows[i].id.0 < a.windows[j].id.0);
    }
    assert forall|i: int| 0 <= i < b.windows.len() implies (#[trigger] b.windows[i]).id.0
        < b.next_window_id by {
        assert(a.windows[i].id.0 < a.next_window_id);
    }
    if a.has(id) {
        let i = model::place_in(a.windows, id);
        assert(b.windows[i].id == id);
        lemma_place_in(b, i);
    }
    if b.has(id) {
        let i = model::place_in(b.windows, id);
        assert(a.windows[i].id == id);
    }
}

/// Nothing changed but places, the order of the stack, the keyboard focus
/// and what is to be done.
pub open spec fn rearranged(a: DesktopModel, b: DesktopModel) -> bool {
    &&& a.settings == b.settings
    &&& a.workspaces == b.workspaces
    &&& a.outputs == b.outputs
    &&& a.output_names == b.output_names
    &&& a.focused_output == b.focused_output
    &&& a.layers == b.layers
    &&& a.focused_window == b.focused_window
    &&& a.pointer == b.pointer
    &&& a.next_window_id == b.next_window_id
    &&& a.next_workspace_id == b.next_workspace_id
    &&& a.windows.len() == b.windows.len()
    &&& forall|i: int|
        0 <= i < a.windows.len() ==> (#[trigger] b.windows[i]) == (ManagedWindow {
            place: b.windows[i].place,
            ..a.windows[i]
        })
}

pub proof fn lemma_rearranged_trans(a: DesktopModel, b: DesktopModel, c: DesktopModel)
    requires
        rearranged(a, b),
        rearranged(b, c),
    ensures
        rearranged(a, c),
{
    assert forall|i: int| 0 <= i < a.windows.len() implies (#[trigger] c.windows[i]) == (
    ManagedWindow { place: c.windows[i].place, ..a.windows[i] }) by {
        assert(b.windows[i] == (ManagedWindow { place: b.windows[i].place, ..a.windows[i] }));
    }
}

/// What stays true of each window when things are rearranged.
pub proof fn lemma_rearranged_window(a: DesktopModel, b: DesktopModel, id: WindowId)
    requires
        a.ids_ok(),
        rearranged(a, b),
    ensures
        b.ids_ok(),
        a.has(id) == b.has(id),
        a.has(id) ==> b.window(id) == (ManagedWindow {
            place: b.window(id).place,
            ..a.window(id)
        }),
        a.has(id) ==> model::place_in(a.windows, id) == model::place_in(b.windows, id),
{
    assert forall|i: int| 0 <= i < a.windows.len() implies (#[trigger] b.windows[i]).id
        == a.windows[i].id by {
        assert(b.windows[i] == (ManagedWindow { place: b.windows[i].place, ..a.windows[i] }));
    }
    lemma_same_ids(a, b, id);
}

pub proof fn lemma_rearranged_wf(a: DesktopModel, b: DesktopModel)
    requires
        a.wf(),
        rearranged(a, b),
        b.stack_ok(),
    ensures
        b.wf(),
{
    lemma_rearranged_window(a, b, WindowId(0));
    assert forall|i: int, id: WindowId|
        0 <= i < b.workspaces.len() && (#[trigger] b.workspaces[i]).focus_history.contains(
            id,
        ) implies #[trigger] b.has(id) by {
        lemma_rearranged_window(a, b, id);
        assert(a.has(id));
    }
    assert forall|i: int|
        0 <= i < b.workspaces.len() && (
        #[trigger] b.workspaces[i]).focused_window is Some implies b.has(b.workspaces[i].focused_window->0) by {
        lemma_rearranged_window(a, b, b.workspaces[i].focused_window->0);
        assert(a.has(a.workspaces[i].focused_window->0));
    }
}

/// Taking an entry out of the stack.
pub proof fn lemma_stack_filter(stack: Seq<WindowId>, id: WindowId)
    requires
        stack.no_duplicates(),
    ensures
        model::without(stack, id).no_duplicates(),
        forall|x: WindowId| #[trigger]
            model::without(stack, id).contains(x) <==> x != id && stack.contains(x),
        model::without(stack, id).push(id).no_duplicates(),
        forall|x: WindowId| #[trigger]
            model::without(stack, id).push(id).contains(x) <==> x == id
                || stack.contains(x),
{
    let keep = model::other_than(id);
    let left = model::without(stack, id);
    assert forall|x: WindowId| #[trigger] left.contains(x) <==> x != id && stack.contains(x) by {
        seqs::lemma_filter_contains(stack, keep, x);
    }
    lemma_filter_no_duplicates(stack, keep);
    assert forall|i: int, j: int|
        0 <= i < left.push(id).len() && 0 <= j < left.push(id).len() && i != j implies left.push(
        id,
    )[i] != left.push(id)[j] by {
        if i < left.len() {
            assert(left.contains(left[i]));
        }
        if j < left.len() {
            assert(left.contains(left[j]));
        }
    }
    assert forall|x: WindowId| #[trigger] left.push(id).contains(x) <==> x == id || stack.contains(
        x,
    ) by {
        assert(left.push(id)[left.len() as int] == id);
        if left.contains(x) {
            let i = choose|i: int| 0 <= i < left.len() && left[i] == x;
            assert(left.push(id)[i] == x);
        }
        if left.push(id).contains(x) && x != id {
            let i = choose|i: int| 0 <= i < left.push(id).len() && left.push(id)[i] == x;
            assert(left[i] == x);
        }
    }
}

pub proof fn lemma_filter_no_duplicates<T>(s: Seq<T>, keep: spec_fn(T) -> bool)
    requires
        s.no_duplicates(),
    ensures
        s.filter(keep).no_duplicates(),
    decreases s.len(),
{
    reveal(Seq::filter);
    if s.len() > 0 {
        let rest = s.drop_last();
        lemma_filter_no_duplicates(rest, keep);
        let kept = rest.filter(keep);
        if keep(s.last()) {
            assert forall|i: int, j: int|
                0 <= i < kept.push(s.last()).len() && 0 <= j < kept.push(s.last()).len() && i
                    != j implies kept.push(s.last())[i] != kept.push(s.last())[j] by {
                if i < kept.len() && j == kept.len() {
                    assert(kept.contains(kept[i]));
                    seqs::lemma_filter_contains(rest, keep, kept[i]);
                    let k = choose|k: int| 0 <= k < rest.len() && rest[k] == kept[i];
                    assert(s[k] != s[s.len() - 1]);
                }
                if j < kept.len() && i == kept.len() {
                    assert(kept.contains(kept[j]));
                    seqs::lemma_filter_contains(rest, keep, kept[j]);
                    let k = choose|k: int| 0 <= k < rest.len() && rest[k] == kept[j];
                    assert(s[k] != s[s.len() - 1]);
                }
            }
        }
    }
}

/// Replacing a window by itself in another place.
proof fn lemma_with_place(d: DesktopModel, id: WindowId, place: Option<Location>)
    requires
        d.ids_ok(),
        d.has(id),
    ensures
        rearranged(d, d.with(ManagedWindow { place, ..d.window(id) })),
{
    lemma_listed(d, id);
}

pub proof fn lemma_put(d: DesktopModel, id: WindowId, location: Location)
    requires
        d.wf(),
        d.has(id),
    ensures
        d.put(id, location).wf(),
        rearranged(d, d.put(id, location)),
        d.put(id, location).window(id).place == Some(location),
{
    let next = d.put(id, location);
    lemma_listed(d, id);
    lemma_with_place(d, id, Some(location));
    lemma_stack_filter(d.stack, id);
    assert(rearranged(d, next));
    assert forall|x: WindowId| #[trigger] next.stack.contains(x) <==> next.has(x) && next.window(
        x,
    ).place is Some by {
        lemma_rearranged_window(d, next, x);
        assert(d.stack.contains(x) <==> d.has(x) && d.window(x).place is Some);
        if x != id && d.has(x) {
            lemma_listed(d, x);
        }
    }
    lemma_rearranged_window(d, next, id);
    lemma_rearranged_wf(d, next);
}

pub proof fn lemma_take_off(d: DesktopModel, id: WindowId)
    requires
        d.wf(),
        d.has(id),
    ensures
        d.take_off(id).wf(),
        rearranged(d, d.take_off(id)),
        d.take_off(id).window(id).place is None,
{
    let next = d.take_off(id);
    lemma_listed(d, id);
    lemma_with_place(d, id, None);
    lemma_stack_filter(d.stack, id);
    assert(rearranged(d, next));
    assert forall|x: WindowId| #[trigger] next.stack.contains(x) <==> next.has(x) && next.window(
        x,
    ).place is Some by {
        lemma_rearranged_window(d, next, x);
        assert(d.stack.contains(x) <==> d.has(x) && d.window(x).place is Some);
        if x != id && d.has(x) {
            lemma_listed(d, x);
        }
    }
    lemma_rearranged_window(d, next, id);
    lemma_rearranged_wf(d, next);
}

pub proof fn lemma_raise(d: DesktopModel, id: WindowId)
    requires
        d.wf(),
    ensures
        d.raise(id).wf(),
        rearranged(d, d.raise(id)),
{
    lemma_stack_filter(d.stack, id);
    let next = d.raise(id);
    assert forall|x: WindowId| #[trigger] next.stack.contains(x) <==> next.has(x) && next.window(
        x,
    ).place is Some by {
        assert(d.stack.contains(x) <==> d.has(x) && d.window(x).place is Some);
    }
    lemma_rearranged_wf(d, next);
}

/// Effects and flags are not part of what is well-formed.
pub proof fn lemma_emit(d: DesktopModel, effect: Effect)
    requires
        d.wf(),
    ensures
        d.emit(effect).wf(),
        rearranged(d, d.emit(effect)),
        d.repaint().wf(),
        rearranged(d, d.repaint()),
        d.repaint_all().wf(),
        rearranged(d, d.repaint_all()),
{
    lemma_unstacked(d, d.emit(effect));
    lemma_unstacked(d, d.repaint());
    lemma_unstacked(d, d.repaint_all());
}

/// With windows and stack as they were, the stack is as good as it was.
pub proof fn lemma_unstacked(a: DesktopModel, b: DesktopModel)
    requires
        a.wf(),
        rearranged(a, b),
        a.windows == b.windows,
        a.stack == b.stack,
    ensures
        b.wf(),
{
    assert forall|x: WindowId| #[trigger] b.stack.contains(x) <==> b.has(x) && b.window(
        x,
    ).place is Some by {
        assert(a.stack.contains(x) <==> a.has(x) && a.window(x).place is Some);
    }
    lemma_rearranged_wf(a, b);
}

pub proof fn lemma_report(d: DesktopModel, id: WindowId)
    requires
        d.wf(),
    ensures
        d.report_geometry(id).wf(),
        rearranged(d, d.report_geometry(id)),
{
    match d.window(id).geometry() {
        Some(geometry) => {
            lemma_emit(d, Effect::WindowGeometryChanged { id, geometry });
        },
        None => {},
    }
}

pub proof fn lemma_move_window(d: DesktopModel, id: WindowId, location: Location)
    requires
        d.wf(),
        d.has(id),
    ensures
        d.move_window(id, location).wf(),
        rearranged(d, d.move_window(id, location)),
        d.move_window(id, location).window(id).place == Some(location),
{
    if d.window(id).place != Some(location) {
        let put = d.put(id, location);
        lemma_put(d, id, location);
        lemma_report(put, id);
        let told = put.report_geometry(id);
        lemma_emit(told, Effect::FocusCleared);
        lemma_rearranged_trans(d, put, told);
        lemma_rearranged_trans(d, told, told.repaint_all());
    }
}

pub proof fn lemma_configure_and_place(d: DesktopModel, id: WindowId, rect: Rect)
    requires
        d.wf(),
        d.has(id),
    ensures
        d.configure_and_place(id, rect).wf(),
        rearranged(d, d.configure_and_place(id, rect)),
{
    let effect = Effect::Configure { id, size: Some(Size { w: rect.width, h: rect.height }) };
    lemma_emit(d, effect);
    let told = d.emit(effect);
    let location = Location { x: rect.x, y: rect.y };
    lemma_move_window(told, id, location);
    lemma_rearranged_trans(d, told, told.move_window(id, location));
}

/// The windows that the layout arranges are listed ones.
pub proof fn lemma_tiled_listed(d: DesktopModel, workspace: u64, i: int)
    requires
        d.ids_ok(),
        0 <= i < d.tiled_windows(workspace).len(),
    ensures
        d.has(d.tiled_windows(workspace)[i].id),
        d.window(d.tiled_windows(workspace)[i].id) == d.tiled_windows(workspace)[i],
        d.tiled(d.tiled_windows(workspace)[i], workspace),
{
    let keep = |w: ManagedWindow| d.tiled(w, workspace);
    let w = d.tiled_windows(workspace)[i];
    assert(d.tiled_windows(workspace).contains(w));
    seqs::lemma_filter_contains(d.windows, keep, w);
    let k = choose|k: int| 0 <= k < d.windows.len() && d.windows[k] == w;
    lemma_place_in(d, k);
}

pub proof fn lemma_tile_first(
    d: DesktopModel,
    windows: Seq<ManagedWindow>,
    area: Rect,
    n: nat,
)
    requires
        d.wf(),
        n <= windows.len(),
        forall|i: int| 0 <= i < windows.len() ==> d.has((#[trigger] windows[i]).id),
    ensures
        d.tile_first(windows, area, n).wf(),
        rearranged(d, d.tile_first(windows, area, n)),
    decreases n,
{
    if n > 0 {
        lemma_tile_first(d, windows, area, (n - 1) as nat);
        let before = d.tile_first(windows, area, (n - 1) as nat);
        let id = windows[n - 1].id;
        lemma_rearranged_window(d, before, id);
        let rect = layout::client_box(
            d.tile_of(area, windows.len() as int, n - 1),
            d.insets(id),
        ).rect();
        lemma_configure_and_place(before, id, rect);
        lemma_rearranged_trans(d, before, before.configure_and_place(id, rect));
    }
}

pub proof fn lemma_retile(d: DesktopModel, workspace: u64)
    requires
        d.wf(),
    ensures
        d.retile(workspace).wf(),
        rearranged(d, d.retile(workspace)),
{
    let windows = d.tiled_windows(workspace);
    match d.output_for_workspace(workspace) {
        Some(output) if windows.len() > 0 => {
            assert forall|i: int| 0 <= i < windows.len() implies d.has(
                (#[trigger] windows[i]).id,
            ) by {
                lemma_tiled_listed(d, workspace, i);
            }
            lemma_tile_first(d, windows, d.work_area(output), windows.len());
        },
        _ => {},
    }
}


pub proof fn lemma_request_focus(d: DesktopModel, target: FocusTarget)
    requires
        d.wf(),
    ensures
        d.request_focus(target).wf(),
        rearranged(d, d.request_focus(target)),
        d.set_keyboard_focus(target).wf(),
        rearranged(d, d.set_keyboard_focus(target)),
{
    lemma_unstacked(d, d.request_focus(target));
    lemma_unstacked(d, d.set_keyboard_focus(target));
}

pub proof fn lemma_focus_window(d: DesktopModel, id: WindowId)
    requires
        d.wf(),
    ensures
        d.focus_window(id).wf(),
        rearranged(d, d.focus_window(id)),
{
    lemma_raise(d, id);
    let raised = if d.settings.raise_on_focus || d.window(id).fullscreen {
        d.raise(id)
    } else {
        d
    };
    let target = FocusTarget::Window(id);
    lemma_request_focus(raised, target);
    let asked = raised.set_keyboard_focus(target);
    lemma_emit(asked, Effect::FocusCleared);
    lemma_rearranged_trans(d, raised, asked);
    lemma_rearranged_trans(d, asked, asked.repaint_all());
}

pub proof fn lemma_focus_previous(d: DesktopModel)
    requires
        d.wf(),
    ensures
        d.focus_previous().wf(),
        rearranged(d, d.focus_previous()),
{
    match d.previous_focus() {
        Some(id) => {
            lemma_focus_window(d, id);
        },
        None => {
            lemma_request_focus(d, FocusTarget::Nobody);
        },
    }
}

pub proof fn lemma_warp_pointer(d: DesktopModel, id: WindowId)
    requires
        d.wf(),
    ensures
        d.warp_pointer(id).wf(),
        rearranged(d, d.warp_pointer(id)),
{
    lemma_unstacked(d, d.warp_pointer(id));
}

/// No workspace remembers the window.
pub open spec fn unremembered(d: DesktopModel, id: WindowId) -> bool {
    forall|i: int|
        0 <= i < d.workspaces.len() ==> !(#[trigger] d.workspaces[i]).focus_history.contains(id)
            && d.workspaces[i].focused_window != Some(id)
}

/// Changing what is known of a window.
pub proof fn lemma_with(d: DesktopModel, w: ManagedWindow)
    requires
        d.wf(),
        d.has(w.id),
        (w.place is Some) == (d.window(w.id).place is Some),
    ensures
        d.with(w).wf(),
        d.with(w).window(w.id) == w,
        forall|x: WindowId| #[trigger] d.with(w).has(x) == d.has(x),
        forall|x: WindowId| x != w.id && d.has(x) ==> #[trigger] d.with(w).window(x) == d.window(x),
{
    let next = d.with(w);
    lemma_listed(d, w.id);
    assert forall|x: WindowId| #[trigger] next.has(x) == d.has(x) by {
        lemma_same_ids(d, next, x);
    }
    assert forall|x: WindowId| x != w.id && d.has(x) implies #[trigger] next.window(x) == d.window(
        x,
    ) by {
        lemma_same_ids(d, next, x);
        lemma_listed(d, x);
    }
    lemma_same_ids(d, next, w.id);
    assert forall|x: WindowId| #[trigger] next.stack.contains(x) <==> next.has(x) && next.window(
        x,
    ).place is Some by {
        assert(d.stack.contains(x) <==> d.has(x) && d.window(x).place is Some);
        assert(next.has(x) == d.has(x));
        if x != w.id && d.has(x) {
            assert(next.window(x) == d.window(x));
        }
    }
    assert forall|i: int, x: WindowId|
        0 <= i < next.workspaces.len() && (#[trigger] next.workspaces[i]).focus_history.contains(
            x,
        ) implies #[trigger] next.has(x) by {
        assert(d.workspaces[i].focus_history.contains(x));
        assert(d.has(x));
        assert(next.has(x) == d.has(x));
        if x != w.id {
            assert(next.window(x) == d.window(x));
        }
    }
    assert forall|i: int|
        0 <= i < next.workspaces.len() && (
        #[trigger] next.workspaces[i]).focused_window is Some implies next.has(next.workspaces[i].focused_window->0) by {
        let x = d.workspaces[i].focused_window->0;
        assert(d.has(x));
        assert(next.has(x) == d.has(x));
        if x != w.id {
            assert(next.window(x) == d.window(x));
        }
    }
}

pub proof fn lemma_workspace_from(d: DesktopModel, id: u64, from: int)
    requires
        0 <= from,
    ensures
        match model::workspace_from(d.workspaces, id, from) {
            Some(place) => from <= place < d.workspaces.len() && d.workspaces[place].id == id,
            None => forall|i: int|
                from <= i < d.workspaces.len() ==> (#[trigger] d.workspaces[i]).id != id,
        },
    decreases d.workspaces.len() - from,
{
    if from < d.workspaces.len() && d.workspaces[from].id != id {
        lemma_workspace_from(d, id, from + 1);
    }
}

pub proof fn lemma_output_showing(d: DesktopModel, workspace: u64, from: int)
    requires
        0 <= from,
    ensures
        match model::output_showing(d.outputs, workspace, from) {
            Some(place) => from <= place < d.outputs.len() && d.outputs[place].workspace
                == workspace,
            None => forall|i: int|
                from <= i < d.outputs.len() ==> (#[trigger] d.outputs[i]).workspace != workspace,
        },
    decreases d.outputs.len() - from,
{
    if from < d.outputs.len() && d.outputs[from].workspace != workspace {
        lemma_output_showing(d, workspace, from + 1);
    }
}

/// An output for a workspace is one that exists.
pub proof fn lemma_output_for_workspace(d: DesktopModel, workspace: u64)
    requires
        d.outputs_ok(),
    ensures
        match d.output_for_workspace(workspace) {
            Some(output) => 0 <= output < d.outputs.len(),
            None => d.outputs.len() == 0,
        },
{
    lemma_output_showing(d, workspace, 0);
}

/// Changing what a workspace remembers.
pub proof fn lemma_with_workspace(d: DesktopModel, place: int, ws: WorkspaceModel)
    requires
        d.wf(),
        0 <= place < d.workspaces.len(),
        ws.id == d.workspaces[place].id,
        forall|x: WindowId| #[trigger] ws.focus_history.contains(x) ==> d.has(x),
        ws.focused_window is Some ==> d.has(ws.focused_window->0),
    ensures
        d.with_workspace(place, ws).wf(),
{
    let next = d.with_workspace(place, ws);
    assert forall|i: int, j: int| 0 <= i < j < next.workspaces.len() implies (
    #[trigger] next.workspaces[i]).id != (#[trigger] next.workspaces[j]).id by {
        assert(d.workspaces[i].id != d.workspaces[j].id);
    }
    assert forall|i: int| 0 <= i < next.workspaces.len() implies (#[trigger] next.workspaces[i]).id
        < next.next_workspace_id by {
        assert(d.workspaces[i].id < d.next_workspace_id);
    }
    assert forall|x: WindowId| #[trigger] next.stack.contains(x) <==> next.has(x) && next.window(
        x,
    ).place is Some by {
        assert(d.stack.contains(x) <==> d.has(x) && d.window(x).place is Some);
    }
    assert forall|i: int, x: WindowId|
        0 <= i < next.workspaces.len() && (#[trigger] next.workspaces[i]).focus_history.contains(
            x,
        ) implies #[trigger] next.has(x) by {
        if i == place {
            assert(ws.focus_history.contains(x));
        } else {
            assert(d.workspaces[i].focus_history.contains(x));
            assert(d.has(x));
        }
        assert(d.has(x));
    }
    assert forall|i: int|
        0 <= i < next.workspaces.len() && (
        #[trigger] next.workspaces[i]).focused_window is Some implies next.has(next.workspaces[i].focused_window->0) by {
        if i != place {
            assert(d.workspaces[i].focused_window is Some);
        }
        assert(d.has(next.workspaces[i].focused_window->0));
    }
}

/// A workspace that forgets a window remembers nothing new.
pub proof fn lemma_forget(ws: WorkspaceModel, id: WindowId)
    ensures
        forall|x: WindowId| #[trigger]
            ws.forget(id).focus_history.contains(x) <==> x != id && ws.focus_history.contains(x),
        ws.forget(id).focused_window != Some(id),
        ws.forget(id).focused_window is Some ==> ws.forget(id).focused_window == ws.focused_window
            || ws.focus_history.contains(ws.forget(id).focused_window->0),
        ws.forget(id).id == ws.id,
{
    let history = model::without(ws.focus_history, id);
    assert forall|x: WindowId| #[trigger] history.contains(x) <==> x != id
        && ws.focus_history.contains(x) by {
        seqs::lemma_filter_contains(ws.focus_history, model::other_than(id), x);
    }
    if history.len() > 0 {
        assert(history.contains(history.last()));
    }
}

/// All workspaces forget a window: what is left is well-formed.
pub proof fn lemma_forgotten(d: DesktopModel, id: WindowId)
    requires
        d.wf(),
    ensures
        d.forgotten(id).wf(),
        unremembered(d.forgotten(id), id),
{
    let next = d.forgotten(id);
    assert forall|i: int| 0 <= i < next.workspaces.len() implies (#[trigger] next.workspaces[i])
        == d.workspaces[i].forget(id) by {}
    assert forall|i: int, j: int| 0 <= i < j < next.workspaces.len() implies (
    #[trigger] next.workspaces[i]).id != (#[trigger] next.workspaces[j]).id by {
        assert(d.workspaces[i].id != d.workspaces[j].id);
    }
    assert forall|i: int| 0 <= i < next.workspaces.len() implies (#[trigger] next.workspaces[i]).id
        < next.next_workspace_id by {
        assert(d.workspaces[i].id < d.next_workspace_id);
    }
    assert forall|x: WindowId| #[trigger] next.stack.contains(x) <==> next.has(x) && next.window(
        x,
    ).place is Some by {
        assert(d.stack.contains(x) <==> d.has(x) && d.window(x).place is Some);
    }
    assert forall|i: int, x: WindowId|
        0 <= i < next.workspaces.len() && (#[trigger] next.workspaces[i]).focus_history.contains(
            x,
        ) implies #[trigger] next.has(x) by {
        lemma_forget(d.workspaces[i], id);
        assert(d.workspaces[i].focus_history.contains(x));
        assert(d.has(x));
    }
    assert forall|i: int|
        0 <= i < next.workspaces.len() && (
        #[trigger] next.workspaces[i]).focused_window is Some implies next.has(next.workspaces[i].focused_window->0) by {
        lemma_forget(d.workspaces[i], id);
        let x = next.workspaces[i].focused_window->0;
        if d.workspaces[i].focus_history.contains(x) {
            assert(d.has(x));
        } else {
            assert(d.workspaces[i].focused_window is Some);
        }
        assert(d.has(x));
    }
    assert forall|i: int|
        0 <= i < next.workspaces.len() implies !(
    #[trigger] next.workspaces[i]).focus_history.contains(id) && next.workspaces[i].focused_window
        != Some(id) by {
        lemma_forget(d.workspaces[i], id);
    }
}

pub proof fn lemma_refocus(d: DesktopModel, id: WindowId)
    requires
        d.wf(),
    ensures
        d.refocus(id).wf(),
        d.refocus(id).focused_window != Some(id),
        d.refocus(id).workspaces == d.workspaces,
        d.refocus(id).windows.len() == d.windows.len(),
{
    if d.focused_window == Some(id) {
        let cleared = DesktopModel { focused_window: None, ..d };
        lemma_same_but_focus(d, cleared);
        lemma_focus_previous(cleared);
        lemma_request_focus(cleared, FocusTarget::Nobody);
        lemma_emit(cleared.focus_previous(), Effect::FocusCleared);
        lemma_emit(cleared.set_keyboard_focus(FocusTarget::Nobody), Effect::FocusCleared);
    } else {
        lemma_emit(d, Effect::FocusCleared);
    }
}

/// Who has the focus is not part of what is well-formed.
pub proof fn lemma_same_but_focus(a: DesktopModel, b: DesktopModel)
    requires
        a.wf(),
        b.settings == a.settings,
        b.windows == a.windows,
        b.stack == a.stack,
        b.workspaces == a.workspaces,
        b.outputs == a.outputs,
        b.output_names == a.output_names,
        b.focused_output == a.focused_output,
        b.next_window_id == a.next_window_id,
        b.next_workspace_id == a.next_workspace_id,
    ensures
        b.wf(),
{
    assert forall|x: WindowId| #[trigger] b.stack.contains(x) <==> b.has(x) && b.window(
        x,
    ).place is Some by {
        assert(a.stack.contains(x) <==> a.has(x) && a.window(x).place is Some);
    }
    assert forall|i: int, x: WindowId|
        0 <= i < b.workspaces.len() && (#[trigger] b.workspaces[i]).focus_history.contains(
            x,
        ) implies #[trigger] b.has(x) by {
        assert(a.has(x));
    }
    assert forall|i: int|
        0 <= i < b.workspaces.len() && (
        #[trigger] b.workspaces[i]).focused_window is Some implies b.has(b.workspaces[i].focused_window->0) by {
        assert(a.has(a.workspaces[i].focused_window->0));
    }
}

pub proof fn lemma_focus_here(d: DesktopModel, id: WindowId)
    requires
        d.wf(),
        d.has(id),
    ensures
        d.focus_here(id).wf(),
{
    let window = d.window(id);
    lemma_listed(d, id);
    let restored = match window.minimized {
        Some(location) => {
            let shown = ManagedWindow { minimized: None, ..window };
            lemma_with(d, shown);
            assert(d.with(shown).has(id));
            lemma_put(d.with(shown), id, location);
            let put = d.with(shown).put(id, location);
            lemma_retile(put, window.workspace);
            let tiled = put.retile(window.workspace);
            lemma_emit(tiled, Effect::WindowRestored { id });
            tiled.emit(Effect::WindowRestored { id })
        },
        None => d,
    };
    lemma_focus_window(restored, id);
    lemma_warp_pointer(restored.focus_window(id), id);
}

/// Room for some windows is room for fewer, and they can be tiled there.
pub proof fn lemma_room(geometry: Rect, zone: Rect, windows: nat, fewer: nat)
    requires
        model::room(geometry, zone, windows),
        fewer <= windows,
    ensures
        model::room(geometry, zone, fewer),
        crate::geometry::fits(geometry.x + zone.x),
        crate::geometry::fits(geometry.y + zone.y),
        geometry.x + zone.x + model::FRAME_ROOM <= i32::MAX,
        geometry.y + zone.y + zone.height + model::FRAME_ROOM <= i32::MAX,
        crate::layout::tileable(
            Rect {
                x: (geometry.x + zone.x) as i32,
                y: (geometry.y + zone.y) as i32,
                width: zone.width,
                height: zone.height,
            },
            fewer as int,
        ),
{
    assert(0 <= fewer * (model::MAX_GAP + 1) <= windows * (model::MAX_GAP + 1))
        by (nonlinear_arith)
        requires
            fewer <= windows,
            model::MAX_GAP == 512,
    ;
}

/// The first output with a name is the first one that has it.
pub proof fn lemma_output_named(names: Seq<Seq<char>>, name: Seq<char>, from: int)
    requires
        0 <= from,
    ensures
        match model::output_named(names, name, from) {
            Some(k) => from <= k < names.len() && names[k] == name && forall|i: int|
                from <= i < k ==> #[trigger] names[i] != name,
            None => forall|i: int| from <= i < names.len() ==> #[trigger] names[i] != name,
        },
    decreases names.len() - from,
{
    if from < names.len() && names[from] != name {
        lemma_output_named(names, name, from + 1);
    }
}

/// Outputs of one name still agree after a switch, and all keep their room.
pub proof fn lemma_switched(d: DesktopModel, name: Seq<char>, workspace: u64, now: Option<u64>)
    requires
        d.outputs_ok(),
    ensures
        ({
            let outputs = model::switched(d.outputs, d.output_names, name, workspace, now);
            &&& outputs.len() == d.outputs.len()
            &&& forall|i: int|
                0 <= i < outputs.len() ==> model::room(
                    (#[trigger] outputs[i]).geometry,
                    outputs[i].zone,
                    d.windows.len(),
                )
            &&& forall|i: int, j: int|
                0 <= i < outputs.len() && 0 <= j < outputs.len() && #[trigger] d.output_names[i]
                    == #[trigger] d.output_names[j] ==> outputs[i].workspace
                    == outputs[j].workspace && outputs[i].animation == outputs[j].animation
        }),
{
    let outputs = model::switched(d.outputs, d.output_names, name, workspace, now);
    assert forall|i: int| 0 <= i < outputs.len() implies model::room(
        (#[trigger] outputs[i]).geometry,
        outputs[i].zone,
        d.windows.len(),
    ) by {
        assert(model::room(d.outputs[i].geometry, d.outputs[i].zone, d.windows.len()));
    }
}

pub proof fn lemma_show(d: DesktopModel, output: int, workspace: u64, now: u64)
    requires
        d.wf(),
        0 <= output < d.outputs.len(),
    ensures
        d.show(output, workspace, now).wf(),
{
    let next = d.show(output, workspace, now);
    let middle = DesktopModel { outputs: d.outputs, ..next };
    lemma_same_but_focus(d, middle);
    lemma_switched(d, d.output_names[output], workspace, Some(now));
    assert forall|x: WindowId| #[trigger] next.stack.contains(x) <==> next.has(x) && next.window(
        x,
    ).place is Some by {
        assert(d.stack.contains(x) <==> d.has(x) && d.window(x).place is Some);
    }
    assert forall|i: int, x: WindowId|
        0 <= i < next.workspaces.len() && (#[trigger] next.workspaces[i]).focus_history.contains(
            x,
        ) implies #[trigger] next.has(x) by {
        assert(d.has(x));
    }
    assert forall|i: int|
        0 <= i < next.workspaces.len() && (
        #[trigger] next.workspaces[i]).focused_window is Some implies next.has(next.workspaces[i].focused_window->0) by {
        assert(d.has(d.workspaces[i].focused_window->0));
    }
}

pub proof fn lemma_show_workspace(d: DesktopModel, output: int, id: u64, now: u64)
    requires
        d.wf(),
        0 <= output < d.outputs.len(),
    ensures
        d.show_workspace(output, id, now).wf(),
{
    let current = d.outputs[output].workspace;
    lemma_output_showing(d, id, 0);
    let swapped = match model::output_showing(d.outputs, id, 0) {
        Some(other) => {
            lemma_show(d, other, current, now);
            d.show(other, current, now)
        },
        None => d,
    };
    lemma_show(swapped, output, id, now);
    let shown = swapped.show(output, id, now);
    let focused = match shown.workspace_focus(id) {
        Some(window) if shown.has(window) && shown.window(window).mapped => {
            lemma_focus_here(shown, window);
            shown.focus_here(window)
        },
        _ => {
            lemma_request_focus(shown, FocusTarget::Nobody);
            shown.set_keyboard_focus(FocusTarget::Nobody)
        },
    };
    lemma_emit(focused, Effect::FocusCleared);
}

pub proof fn lemma_switch_workspace(d: DesktopModel, id: u64, now: u64)
    requires
        d.wf(),
    ensures
        d.switch_workspace(id, now).0.wf(),
{
    match (d.workspace_target(id), d.current_output()) {
        (Some(target), Some(output)) => {
            lemma_show_workspace(d, output, target, now);
        },
        _ => {},
    }
}

pub proof fn lemma_focus_by_id(d: DesktopModel, id: WindowId, now: u64)
    requires
        d.wf(),
    ensures
        d.focus_by_id(id, now).0.wf(),
{
    if d.has(id) && d.window(id).mapped {
        lemma_focus_here(d, id);
        let workspace = d.window(id).workspace;
        lemma_workspace_from(d, workspace, 0);
        match d.workspace_place(workspace) {
            Some(place) => {
                let ws = WorkspaceModel { focused_window: Some(id), ..d.workspaces[place] };
                assert forall|x: WindowId| #[trigger]
                    ws.focus_history.contains(x) implies d.has(x) by {
                    assert(d.workspaces[place].focus_history.contains(x));
                }
                lemma_with_workspace(d, place, ws);
                lemma_switch_workspace(d.with_workspace(place, ws), workspace, now);
            },
            None => {
                lemma_switch_workspace(d, workspace, now);
            },
        }
    }
}


/// A workspace can forget a window.
pub proof fn lemma_moved_out(d: DesktopModel, id: WindowId)
    requires
        d.wf(),
        d.has(id),
    ensures
        (match d.workspace_place(d.window(id).workspace) {
            Some(place) => d.with_workspace(place, d.workspaces[place].forget(id)),
            None => d,
        }).wf(),
{
    let previous = d.window(id).workspace;
    lemma_workspace_from(d, previous, 0);
    match d.workspace_place(previous) {
        Some(place) => {
            let ws = d.workspaces[place].forget(id);
            lemma_forget(d.workspaces[place], id);
            assert forall|x: WindowId| #[trigger] ws.focus_history.contains(x) implies d.has(x) by {
                assert(d.workspaces[place].focus_history.contains(x));
            }
            if ws.focused_window is Some {
                let x = ws.focused_window->0;
                if d.workspaces[place].focus_history.contains(x) {
                    assert(d.has(x));
                } else {
                    assert(d.workspaces[place].focused_window is Some);
                }
            }
            lemma_with_workspace(d, place, ws);
        },
        None => {},
    }
}

pub proof fn lemma_move_to_workspace(d: DesktopModel, id: WindowId, workspace: u64)
    requires
        d.wf(),
    ensures
        d.move_to_workspace(id, workspace).0.wf(),
{
    if d.workspace_place(workspace) is Some && d.has(id) && d.window(id).workspace != workspace {
        let previous = d.window(id).workspace;
        lemma_listed(d, id);
        lemma_moved_out(d, id);
        let forgotten = match d.workspace_place(previous) {
            Some(place) => d.with_workspace(place, d.workspaces[place].forget(id)),
            None => d,
        };
        let w = ManagedWindow { workspace, ..d.window(id) };
        lemma_with(forgotten, w);
        let one = forgotten.with(w);
        lemma_retile(one, previous);
        let two = one.retile(previous);
        lemma_retile(two, workspace);
        let moved = two.retile(workspace);
        lemma_focus_previous(moved);
        let focused = if moved.focused_window == Some(id) {
            moved.focus_previous()
        } else {
            moved
        };
        lemma_emit(focused, Effect::FocusCleared);
        lemma_emit(focused.repaint_all(), Effect::WorkspacesChanged);
    }
}

pub proof fn lemma_minimize(d: DesktopModel, id: WindowId)
    requires
        d.wf(),
    ensures
        d.minimize(id).0.wf(),
{
    if d.has(id) && d.window(id).place is Some {
        lemma_listed(d, id);
        let location = d.window(id).place->0;
        let w = ManagedWindow { minimized: Some(location), ..d.window(id) };
        lemma_with(d, w);
        let one = d.with(w);
        assert(one.has(id));
        lemma_take_off(one, id);
        let two = one.take_off(id);
        lemma_retile(two, d.window(id).workspace);
        let gone = two.retile(d.window(id).workspace);
        lemma_focus_previous(gone);
        let focused = if gone.focused_window == Some(id) {
            gone.focus_previous()
        } else {
            gone
        };
        lemma_emit(focused, Effect::FocusCleared);
        lemma_emit(focused.repaint_all(), Effect::WindowMinimized { id });
    }
}

pub proof fn lemma_remember_restore(d: DesktopModel, id: WindowId)
    requires
        d.wf(),
        d.has(id),
    ensures
        d.remember_restore(id).wf(),
        d.remember_restore(id).has(id),
        d.remember_restore(id).window(id) == (ManagedWindow {
            restore: d.remember_restore(id).window(id).restore,
            ..d.window(id)
        }),
{
    lemma_listed(d, id);
    let w = ManagedWindow { restore: d.window(id).geometry(), ..d.window(id) };
    lemma_with(d, w);
    assert(d.with(w).has(id));
}

pub proof fn lemma_restore_geometry(d: DesktopModel, id: WindowId)
    requires
        d.wf(),
        d.has(id),
    ensures
        d.restore_geometry(id).wf(),
        d.restore_geometry(id).has(id),
{
    lemma_listed(d, id);
    let w = ManagedWindow { restore: None, ..d.window(id) };
    lemma_with(d, w);
    let taken = d.with(w);
    assert(taken.has(id));
    match d.window(id).restore {
        Some(rect) if d.floats(id) => {
            lemma_configure_and_place(taken, id, rect);
            lemma_rearranged_window(taken, taken.configure_and_place(id, rect), id);
        },
        _ => {
            let effect = Effect::Configure { id, size: None };
            lemma_emit(taken, effect);
            let told = taken.emit(effect);
            lemma_retile(told, d.window(id).workspace);
            lemma_rearranged_window(told, told.retile(d.window(id).workspace), id);
        },
    }
}

pub proof fn lemma_apply_maximized(d: DesktopModel, id: WindowId)
    requires
        d.wf(),
        d.has(id),
    ensures
        d.apply_maximized(id).wf(),
        rearranged(d, d.apply_maximized(id)),
{
    match d.output_for_workspace(d.window(id).workspace) {
        Some(output) => {
            lemma_configure_and_place(
                d,
                id,
                layout::client_box(d.work_area(output), d.insets(id)).rect(),
            );
        },
        None => {},
    }
}

pub proof fn lemma_apply_fullscreen(d: DesktopModel, id: WindowId)
    requires
        d.wf(),
        d.has(id),
    ensures
        d.apply_fullscreen(id).wf(),
        rearranged(d, d.apply_fullscreen(id)),
{
    match d.output_for_workspace(d.window(id).workspace) {
        Some(output) => {
            let area = d.outputs[output].geometry;
            let effect = Effect::ConfigureFullscreen {
                id,
                area: Size { w: area.width, h: area.height },
            };
            let location = Location { x: area.x, y: area.y };
            lemma_emit(d, effect);
            lemma_move_window(d.emit(effect), id, location);
            lemma_rearranged_trans(d, d.emit(effect), d.emit(effect).move_window(id, location));
        },
        None => {},
    }
}

pub proof fn lemma_set_maximized(d: DesktopModel, id: WindowId, on: bool)
    requires
        d.wf(),
    ensures
        d.set_maximized(id, on).0.wf(),
        d.has(id) ==> d.set_maximized(id, on).0.has(id),
{
    if d.has(id) && !d.window(id).fullscreen {
        lemma_remember_restore(d, id);
        let noted = if on {
            d.remember_restore(id)
        } else {
            d
        };
        lemma_listed(noted, id);
        let w = ManagedWindow { maximized: on, ..noted.window(id) };
        lemma_with(noted, w);
        let set = noted.with(w);
        assert(set.has(id));
        let effect = Effect::SetMaximizedState { id, on };
        lemma_emit(set, effect);
        let marked = set.emit(effect);
        lemma_apply_maximized(marked, id);
        lemma_rearranged_window(marked, marked.apply_maximized(id), id);
        lemma_restore_geometry(marked, id);
        let placed = if on {
            marked.apply_maximized(id)
        } else {
            marked.restore_geometry(id)
        };
        lemma_emit(placed, Effect::WindowMaximized { id, maximized: on });
    }
}

pub proof fn lemma_set_fullscreen(d: DesktopModel, id: WindowId, on: bool)
    requires
        d.wf(),
    ensures
        d.set_fullscreen(id, on).wf(),
{
    if d.has(id) {
        lemma_emit(d, Effect::SendConfigure { id });
        if d.window(id).fullscreen != on {
            lemma_remember_restore(d, id);
            let noted = if on {
                d.remember_restore(id)
            } else {
                d
            };
            lemma_listed(noted, id);
            let w = ManagedWindow { fullscreen: on, ..noted.window(id) };
            lemma_with(noted, w);
            let set = noted.with(w);
            assert(set.has(id));
            let effect = Effect::SetFullscreenState { id, on };
            lemma_emit(set, effect);
            let marked = set.emit(effect);
            lemma_apply_fullscreen(marked, id);
            lemma_raise(marked.apply_fullscreen(id), id);
            lemma_apply_maximized(marked, id);
            lemma_restore_geometry(marked, id);
            let placed = if on {
                marked.apply_fullscreen(id).raise(id)
            } else if marked.window(id).maximized {
                marked.apply_maximized(id)
            } else {
                marked.restore_geometry(id)
            };
            lemma_emit(placed, Effect::FocusCleared);
        }
    }
}

pub proof fn lemma_begin_move(d: DesktopModel, id: WindowId, x: i32)
    requires
        d.wf(),
    ensures
        d.begin_move(id, x).0.wf(),
{
    if d.has(id) {
        lemma_focus_window(d, id);
        match d.window(id).place {
            Some(place) => {
                lemma_set_maximized(d, id, false);
                let restored = d.set_maximized(id, false).0;
                let start = Location { x, y: place.y };
                lemma_move_window(restored, id, start);
                lemma_focus_window(restored.move_window(id, start), id);
            },
            None => {},
        }
    }
}

pub proof fn lemma_begin_resize(d: DesktopModel, id: WindowId, edges: crate::grabs::ResizeEdges)
    requires
        d.wf(),
    ensures
        d.begin_resize(id, edges).0.wf(),
{
    if d.has(id) {
        match d.window(id).geometry() {
            Some(initial) => {
                lemma_listed(d, id);
                let anchor = crate::grabs::ResizeAnchor { edges, initial };
                let w = ManagedWindow {
                    resize: Some(model::PendingResize { anchor, active: true }),
                    ..d.window(id)
                };
                lemma_with(d, w);
                lemma_focus_window(d.with(w), id);
            },
            None => {},
        }
    }
}

pub proof fn lemma_finish_resize(d: DesktopModel, id: WindowId)
    requires
        d.wf(),
    ensures
        d.finish_resize(id).wf(),
{
    if d.has(id) {
        lemma_listed(d, id);
        lemma_report(d, id);
        match d.window(id).resize {
            Some(pending) => {
                let w = ManagedWindow {
                    resize: Some(model::PendingResize { active: false, ..pending }),
                    ..d.window(id)
                };
                lemma_with(d, w);
                lemma_report(d.with(w), id);
            },
            None => {},
        }
    }
}

pub proof fn lemma_apply_resize(d: DesktopModel, id: WindowId)
    requires
        d.wf(),
    ensures
        d.apply_resize(id).wf(),
{
    if d.has(id) {
        lemma_listed(d, id);
        match d.window(id).resize {
            Some(pending) => {
                let location = pending.anchor.location(d.window(id).size);
                lemma_put(d, id, location);
                let w = ManagedWindow { resize: None, ..d.window(id) };
                lemma_with(d, w);
                assert(d.with(w).has(id));
                lemma_put(d.with(w), id, location);
                lemma_report(d.with(w).put(id, location), id);
            },
            None => {},
        }
    }
}

pub proof fn lemma_focus_changed(d: DesktopModel, target: FocusTarget, id: Option<WindowId>)
    requires
        d.wf(),
    ensures
        d.focus_changed(target, id).wf(),
{
    let noted = DesktopModel { keyboard: target, ..d };
    lemma_same_but_focus(d, noted);
    let activated = DesktopModel {
        focused_window: id,
        effects: d.effects + d.activations(id),
        ..noted
    };
    lemma_same_but_focus(d, activated);
    match id {
        Some(window) => {
            lemma_workspace_from(d, d.window(window).workspace, 0);
            let remembered = if d.has(window) {
                match d.workspace_place(d.window(window).workspace) {
                    Some(place) => {
                        let ws = d.workspaces[place].remember(window);
                        let rest = model::without(d.workspaces[place].focus_history, window);
                        assert forall|x: WindowId| #[trigger]
                            ws.focus_history.contains(x) implies activated.has(x) by {
                            let k = choose|k: int|
                                0 <= k < ws.focus_history.len() && ws.focus_history[k] == x;
                            if k < rest.len() {
                                assert(rest[k] == x);
                                assert(rest.contains(x));
                                seqs::lemma_filter_contains(
                                    d.workspaces[place].focus_history,
                                    model::other_than(window),
                                    x,
                                );
                                assert(d.has(x));
                            } else {
                                assert(x == window);
                                assert(d.has(window));
                            }
                        }
                        assert(activated.has(window));
                        lemma_with_workspace(activated, place, ws);
                        activated.with_workspace(place, ws)
                    },
                    None => activated,
                }
            } else {
                activated
            };
            lemma_emit(remembered, Effect::WindowFocused { id: window });
            lemma_emit(
                remembered.emit(Effect::WindowFocused { id: window }),
                Effect::FocusCleared,
            );
        },
        None => {
            lemma_emit(activated, Effect::FocusCleared);
            lemma_emit(activated.emit(Effect::FocusCleared), Effect::FocusCleared);
        },
    }
}

pub proof fn lemma_new_toplevel(d: DesktopModel)
    requires
        d.wf(),
        d.has_room(),
    ensures
        d.new_toplevel().0.wf(),
        d.new_toplevel().0.has(d.new_toplevel().1),
        !d.has(d.new_toplevel().1),
{
    let (next, id) = d.new_toplevel();
    assert forall|i: int, j: int| 0 <= i < j < next.windows.len() implies (
    #[trigger] next.windows[i]).id.0 < (#[trigger] next.windows[j]).id.0 by {
        assert(d.windows[i].id.0 < d.next_window_id);
        if j < d.windows.len() {
            assert(d.windows[i].id.0 < d.windows[j].id.0);
        }
    }
    assert forall|i: int| 0 <= i < next.windows.len() implies (#[trigger] next.windows[i]).id.0
        < next.next_window_id by {
        if i < d.windows.len() {
            assert(d.windows[i].id.0 < d.next_window_id);
        }
    }
    lemma_place_in(next, d.windows.len() as int);
    if d.has(id) {
        lemma_listed(d, id);
    }
    assert forall|x: WindowId| d.has(x) implies #[trigger] next.has(x) && next.window(x)
        == d.window(x) by {
        lemma_listed(d, x);
        let k = model::place_in(d.windows, x);
        assert(next.windows[k] == d.windows[k]);
        lemma_place_in(next, k);
    }
    assert forall|x: WindowId| #[trigger] next.stack.contains(x) <==> next.has(x) && next.window(
        x,
    ).place is Some by {
        assert(d.stack.contains(x) <==> d.has(x) && d.window(x).place is Some);
        if next.has(x) && !d.has(x) {
            lemma_listed(next, x);
            let k = model::place_in(next.windows, x);
            if k < d.windows.len() {
                assert(d.windows[k].id == x);
            }
        }
    }
    assert forall|i: int, x: WindowId|
        0 <= i < next.workspaces.len() && (#[trigger] next.workspaces[i]).focus_history.contains(
            x,
        ) implies #[trigger] next.has(x) by {
        assert(d.has(x));
        assert(next.has(x));
    }
    assert forall|i: int|
        0 <= i < next.workspaces.len() && (
        #[trigger] next.workspaces[i]).focused_window is Some implies next.has(next.workspaces[i].focused_window->0) by {
        assert(d.has(d.workspaces[i].focused_window->0));
        assert(next.has(d.workspaces[i].focused_window->0));
    }
}

/// Removing a window that is off the desktop and out of every memory.
pub proof fn lemma_removed(d: DesktopModel, id: WindowId)
    requires
        d.wf(),
        d.has(id),
        d.window(id).place is None,
        unremembered(d, id),
    ensures
        ({
            let next = DesktopModel {
                windows: d.windows.remove(model::place_in(d.windows, id)),
                ..d
            };
            next.wf() && !next.has(id) && forall|x: WindowId|
                x != id && d.has(x) ==> #[trigger] next.has(x) && next.window(x) == d.window(x)
        }),
{
    lemma_listed(d, id);
    let p = model::place_in(d.windows, id);
    let next = DesktopModel { windows: d.windows.remove(p), ..d };
    assert forall|i: int| 0 <= i < next.windows.len() implies #[trigger] next.windows[i] == (if i
        < p {
        d.windows[i]
    } else {
        d.windows[i + 1]
    }) by {}
    assert forall|i: int, j: int| 0 <= i < j < next.windows.len() implies (
    #[trigger] next.windows[i]).id.0 < (#[trigger] next.windows[j]).id.0 by {
        let a = if i < p {
            i
        } else {
            i + 1
        };
        let b = if j < p {
            j
        } else {
            j + 1
        };
        assert(d.windows[a].id.0 < d.windows[b].id.0);
    }
    assert forall|i: int| 0 <= i < next.windows.len() implies (#[trigger] next.windows[i]).id.0
        < next.next_window_id by {
        let a = if i < p {
            i
        } else {
            i + 1
        };
        assert(d.windows[a].id.0 < d.next_window_id);
    }
    assert forall|x: WindowId| x != id && d.has(x) implies #[trigger] next.has(x) && next.window(x)
        == d.window(x) by {
        lemma_listed(d, x);
        let k = model::place_in(d.windows, x);
        let m = if k < p {
            k
        } else {
            k - 1
        };
        assert(next.windows[m] == d.windows[k]);
        lemma_place_in(next, m);
    }
    assert forall|x: WindowId| #[trigger] next.has(x) implies x != id && d.has(x) by {
        lemma_listed(next, x);
        let m = model::place_in(next.windows, x);
        let k = if m < p {
            m
        } else {
            m + 1
        };
        assert(d.windows[k].id == x);
        lemma_place_in(d, k);
    }
    assert forall|x: WindowId| #[trigger] next.stack.contains(x) <==> next.has(x) && next.window(
        x,
    ).place is Some by {
        assert(d.stack.contains(x) <==> d.has(x) && d.window(x).place is Some);
        if x != id && d.has(x) {
            assert(next.has(x));
        }
    }
    assert forall|i: int, x: WindowId|
        0 <= i < next.workspaces.len() && (#[trigger] next.workspaces[i]).focus_history.contains(
            x,
        ) implies #[trigger] next.has(x) by {
        assert(d.workspaces[i].focus_history.contains(x));
        assert(d.has(x));
        assert(next.has(x));
    }
    assert forall|i: int|
        0 <= i < next.workspaces.len() && (
        #[trigger] next.workspaces[i]).focused_window is Some implies next.has(next.workspaces[i].focused_window->0) by {
        assert(d.has(d.workspaces[i].focused_window->0));
        assert(next.has(d.workspaces[i].focused_window->0));
    }
}

pub proof fn lemma_destroy(d: DesktopModel, id: WindowId)
    requires
        d.wf(),
    ensures
        d.destroy(id).wf(),
        !d.destroy(id).has(id),
{
    if d.has(id) {
        let window = d.window(id);
        lemma_forgotten(d, id);
        let forgotten = d.forgotten(id);
        lemma_listed(forgotten, id);
        lemma_take_off(forgotten, id);
        let off = forgotten.take_off(id);
        lemma_rearranged_window(forgotten, off, id);
        lemma_removed(off, id);
        let gone = DesktopModel {
            windows: off.windows.remove(model::place_in(off.windows, id)),
            ..off
        };
        lemma_retile(gone, window.workspace);
        let tiled = gone.retile(window.workspace);
        lemma_rearranged_window(gone, tiled, id);
        let listed = if window.mapped {
            tiled.emit(Effect::UnlistForeign { id })
        } else {
            tiled
        };
        lemma_emit(tiled, Effect::UnlistForeign { id });
        lemma_refocus(listed, id);
        lemma_refocus_windows(listed, id);
        let focused = listed.refocus(id);
        lemma_emit(focused, Effect::WindowClosed { id });
        lemma_emit(focused.emit(Effect::WindowClosed { id }), Effect::WorkspacesChanged);
    }
}

/// Giving the focus away lists nobody new.
pub proof fn lemma_refocus_windows(d: DesktopModel, id: WindowId)
    requires
        d.wf(),
    ensures
        forall|x: WindowId| #[trigger] d.refocus(id).has(x) == d.has(x),
{
    let cleared = DesktopModel { focused_window: None, ..d };
    lemma_same_but_focus(d, cleared);
    lemma_focus_previous(cleared);
    lemma_request_focus(cleared, FocusTarget::Nobody);
    assert forall|x: WindowId| #[trigger] d.refocus(id).has(x) == d.has(x) by {
        lemma_rearranged_window(cleared, cleared.focus_previous(), x);
        lemma_rearranged_window(cleared, cleared.set_keyboard_focus(FocusTarget::Nobody), x);
    }
}

pub proof fn lemma_unmap(d: DesktopModel, id: WindowId)
    requires
        d.wf(),
        d.has(id),
    ensures
        d.unmap(id).wf(),
{
    lemma_forgotten(d, id);
    let forgotten = d.forgotten(id);
    lemma_listed(forgotten, id);
    lemma_take_off(forgotten, id);
    let off = forgotten.take_off(id);
    lemma_rearranged_window(forgotten, off, id);
    lemma_listed(off, id);
    let w = ManagedWindow { mapped: false, minimized: None, ..off.window(id) };
    lemma_with(off, w);
    let set = off.with(w);
    lemma_emit(set, Effect::UnlistForeign { id });
    let one = set.emit(Effect::UnlistForeign { id });
    lemma_emit(one, Effect::ResetConfigure { id });
    let two = one.emit(Effect::ResetConfigure { id });
    lemma_retile(two, d.window(id).workspace);
    let tiled = two.retile(d.window(id).workspace);
    lemma_refocus(tiled, id);
    let focused = tiled.refocus(id);
    lemma_emit(focused, Effect::WindowClosed { id });
    lemma_emit(focused.emit(Effect::WindowClosed { id }), Effect::WorkspacesChanged);
}

/// A workspace may remember a window that there is.
proof fn lemma_remembered_on(d: DesktopModel, id: WindowId, place: int)
    requires
        d.wf(),
        0 <= place < d.workspaces.len(),
        d.has(id),
    ensures
        ({
            let was = d.workspaces[place];
            let ws = WorkspaceModel {
                focus_history: was.focus_history.insert(0, id),
                focused_window: match was.focused_window {
                    Some(other) => Some(other),
                    None => Some(id),
                },
                ..was
            };
            d.with_workspace(place, ws).wf()
        }),
{
    let was = d.workspaces[place];
    let ws = WorkspaceModel {
        focus_history: was.focus_history.insert(0, id),
        focused_window: match was.focused_window {
            Some(other) => Some(other),
            None => Some(id),
        },
        ..was
    };
    assert forall|x: WindowId| #[trigger] ws.focus_history.contains(x) implies d.has(x) by {
        let k = choose|k: int| 0 <= k < ws.focus_history.len() && ws.focus_history[k] == x;
        if k > 0 {
            assert(was.focus_history[k - 1] == x);
            assert(was.focus_history.contains(x));
            assert(d.has(x));
        }
    }
    if was.focused_window is Some {
        assert(d.has(was.focused_window->0));
    }
    lemma_with_workspace(d, place, ws);
}

#[verifier::rlimit(40)]
pub proof fn lemma_map_window(
    d: DesktopModel,
    id: WindowId,
    workspace: u64,
    named: Option<int>,
    position: Option<Location>,
    now: u64,
)
    requires
        d.wf(),
        d.has(id),
        !d.window(id).mapped,
    ensures
        d.map_window(id, workspace, named, position, now).wf(),
{
    let location = d.initial_place(id, named, workspace, position);
    lemma_emit(d, Effect::ListForeign { id });
    let told = d.emit(Effect::ListForeign { id });
    lemma_listed(d, id);
    let w = ManagedWindow {
        mapped: true,
        workspace,
        opened_at: if d.settings.animations {
            Some(now)
        } else {
            None
        },
        ..d.window(id)
    };
    lemma_with(told, w);
    let set = told.with(w);
    assert(set.has(id));
    lemma_put(set, id, location);
    let put = set.put(id, location);
    lemma_rearranged_window(set, put, id);
    lemma_emit(put, Effect::WindowOpened { id });
    let one = put.emit(Effect::WindowOpened { id });
    lemma_emit(one, Effect::WorkspacesChanged);
    let two = one.emit(Effect::WorkspacesChanged);
    lemma_retile(two, workspace);
    let mapped = two.retile(workspace);
    lemma_rearranged_window(two, mapped, id);
    assert(mapped.has(id));
    lemma_focus_window(mapped, id);
    lemma_workspace_from(mapped, workspace, 0);
    let focused = if workspace == mapped.focused_workspace() && mapped.settings.focus_new_windows {
        mapped.focus_window(id)
    } else {
        match mapped.workspace_place(workspace) {
            Some(place) => {
                lemma_remembered_on(mapped, id, place);
                let was = mapped.workspaces[place];
                let ws = WorkspaceModel {
                    focus_history: was.focus_history.insert(0, id),
                    focused_window: match was.focused_window {
                        Some(other) => Some(other),
                        None => Some(id),
                    },
                    ..was
                };
                mapped.with_workspace(place, ws)
            },
            None => mapped,
        }
    };
    lemma_emit(focused, Effect::FocusCleared);
}

pub proof fn lemma_retile_first(d: DesktopModel, n: nat)
    requires
        d.wf(),
        n <= d.workspaces.len(),
    ensures
        d.retile_first(n).wf(),
        rearranged(d, d.retile_first(n)),
    decreases n,
{
    if n > 0 {
        lemma_retile_first(d, (n - 1) as nat);
        let before = d.retile_first((n - 1) as nat);
        lemma_retile(before, d.workspaces[n - 1].id);
        lemma_rearranged_trans(d, before, before.retile(d.workspaces[n - 1].id));
    }
}

pub proof fn lemma_refit_first(d: DesktopModel, n: nat)
    requires
        d.wf(),
        n <= d.windows.len(),
    ensures
        d.refit_first(n).wf(),
        rearranged(d, d.refit_first(n)),
    decreases n,
{
    if n > 0 {
        lemma_refit_first(d, (n - 1) as nat);
        let before = d.refit_first((n - 1) as nat);
        let id = d.windows[n - 1].id;
        lemma_place_in(d, n - 1);
        lemma_rearranged_window(d, before, id);
        lemma_apply_fullscreen(before, id);
        lemma_apply_maximized(before, id);
        lemma_rearranged_trans(d, before, before.apply_fullscreen(id));
        lemma_rearranged_trans(d, before, before.apply_maximized(id));
    }
}

pub proof fn lemma_relayout(d: DesktopModel)
    requires
        d.wf(),
    ensures
        d.relayout().wf(),
        rearranged(d, d.relayout()),
{
    let tiled = d.retile_first(d.workspaces.len());
    lemma_retile_first(d, d.workspaces.len());
    lemma_refit_first(tiled, tiled.windows.len());
    lemma_rearranged_trans(d, tiled, tiled.refit_first(tiled.windows.len()));
}


/// The windows are the same ones, where and whose they were.
pub proof fn lemma_same_homes(a: DesktopModel, b: DesktopModel)
    requires
        a.wf(),
        b.settings.wf(),
        b.outputs_ok(),
        b.windows.len() == a.windows.len(),
        forall|i: int|
            0 <= i < a.windows.len() ==> {
                &&& (#[trigger] b.windows[i]).id == a.windows[i].id
                &&& b.windows[i].mapped == a.windows[i].mapped
                &&& b.windows[i].workspace == a.windows[i].workspace
                &&& b.windows[i].place == a.windows[i].place
            },
        b.stack == a.stack,
        b.workspaces == a.workspaces,
        b.next_window_id == a.next_window_id,
        b.next_workspace_id == a.next_workspace_id,
    ensures
        b.wf(),
        forall|x: WindowId| #[trigger] b.has(x) == a.has(x),
{
    assert forall|x: WindowId| #[trigger] b.has(x) == a.has(x) by {
        lemma_same_ids(a, b, x);
    }
    lemma_same_ids(a, b, WindowId(0));
    assert forall|x: WindowId| #[trigger] b.stack.contains(x) <==> b.has(x) && b.window(
        x,
    ).place is Some by {
        assert(a.stack.contains(x) <==> a.has(x) && a.window(x).place is Some);
        lemma_same_ids(a, b, x);
        if a.has(x) {
            lemma_listed(a, x);
        }
    }
    assert forall|i: int, x: WindowId|
        0 <= i < b.workspaces.len() && (#[trigger] b.workspaces[i]).focus_history.contains(
            x,
        ) implies #[trigger] b.has(x) by {
        assert(a.has(x));
        lemma_same_ids(a, b, x);
        lemma_listed(a, x);
    }
    assert forall|i: int|
        0 <= i < b.workspaces.len() && (
        #[trigger] b.workspaces[i]).focused_window is Some implies b.has(b.workspaces[i].focused_window->0) by {
        let x = a.workspaces[i].focused_window->0;
        assert(a.has(x));
        lemma_same_ids(a, b, x);
        lemma_listed(a, x);
    }
}

pub proof fn lemma_configure_new(
    d: DesktopModel,
    id: WindowId,
    rule: model::RuleOutcome,
    fixed_size: bool,
)
    requires
        d.wf(),
        d.has(id),
    ensures
        d.configure_new(id, rule, fixed_size).wf(),
{
    lemma_listed(d, id);
    let ruled = d.ruled(id, rule);
    lemma_with(d, ruled);
    lemma_same_homes(d.with(ruled), d.configure_new(id, rule, fixed_size));
}

pub proof fn lemma_with_output(d: DesktopModel, output: int, geometry: Rect, zone: Rect)
    requires
        d.wf(),
        0 <= output < d.outputs.len(),
        model::room(geometry, zone, d.windows.len()),
    ensures
        d.with_output(output, geometry, zone).wf(),
{
    let next = d.with_output(output, geometry, zone);
    assert forall|i: int| 0 <= i < next.outputs.len() implies model::room(
        (#[trigger] next.outputs[i]).geometry,
        next.outputs[i].zone,
        next.windows.len(),
    ) by {
        assert(model::room(d.outputs[i].geometry, d.outputs[i].zone, d.windows.len()));
    }
    lemma_same_homes(d, next);
}

pub proof fn lemma_add_output(d: DesktopModel, name: Seq<char>, geometry: Rect, zone: Rect)
    requires
        d.wf(),
        d.outputs.len() < usize::MAX,
        model::room(geometry, zone, d.windows.len()),
    ensures
        d.add_output(name, geometry, zone).wf(),
{
    let next = d.add_output(name, geometry, zone);
    let workspace = d.workspace_for_new_output(name);
    let moved = model::switched(d.outputs, d.output_names, name, workspace, None);
    lemma_switched(d, name, workspace, None);
    lemma_output_named(d.output_names, name, 0);
    assert forall|i: int| 0 <= i < next.outputs.len() implies model::room(
        (#[trigger] next.outputs[i]).geometry,
        next.outputs[i].zone,
        next.windows.len(),
    ) by {
        if i < d.outputs.len() {
            assert(next.outputs[i] == moved[i]);
        }
    }
    assert forall|i: int, j: int|
        0 <= i < next.outputs.len() && 0 <= j < next.outputs.len()
            && #[trigger] next.output_names[i]
            == #[trigger] next.output_names[j] implies next.outputs[i].workspace
        == next.outputs[j].workspace && next.outputs[i].animation == next.outputs[j].animation by {
        assert(i < d.outputs.len() ==> next.output_names[i] == d.output_names[i]);
        assert(j < d.outputs.len() ==> next.output_names[j] == d.output_names[j]);
        if i < d.outputs.len() && j < d.outputs.len() {
            assert(moved[i].workspace == moved[j].workspace);
        }
    }
    let focused = next.focused_output->0;
    lemma_output_named(next.output_names, next.output_names[focused as int], 0);
    if d.focused_output is Some {
        lemma_output_named(d.output_names, d.output_names[focused as int], 0);
        assert forall|i: int| 0 <= i < focused implies #[trigger] next.output_names[i]
            != next.output_names[focused as int] by {
            assert(next.output_names[i] == d.output_names[i]);
        }
    }
    lemma_same_homes(d, next);
}

pub proof fn lemma_focus_output_at(d: DesktopModel, position: crate::geometry::Point)
    requires
        d.wf(),
        d.outputs.len() <= usize::MAX,
    ensures
        d.focus_output_at(position).wf(),
{
    lemma_output_below(d, position, d.outputs.len());
    match d.output_at(position) {
        Some(output) => {
            let name = d.output_names[output];
            lemma_output_named(d.output_names, name, 0);
            lemma_same_homes(d, d.focus_output_at(position));
        },
        None => {},
    }
}

proof fn lemma_output_below(d: DesktopModel, position: crate::geometry::Point, n: nat)
    requires
        n <= d.outputs.len(),
    ensures
        d.output_below(position, n) matches Some(k) ==> 0 <= k < n,
    decreases n,
{
    if n > 0 {
        lemma_output_below(d, position, (n - 1) as nat);
    }
}

pub proof fn lemma_layer_removed(d: DesktopModel, layer: u64)
    requires
        d.wf(),
    ensures
        d.layer_removed(layer).wf(),
{
    let removed = DesktopModel {
        layers: d.layers.filter(|l: model::LayerState| l.id != layer),
        ..d
    };
    lemma_same_but_focus(d, removed);
    lemma_same_but_focus(d, d.layer_removed(layer));
}

pub proof fn lemma_new_workspace(d: DesktopModel, name: Seq<char>)
    requires
        d.wf(),
        d.next_workspace_id < u64::MAX,
    ensures
        d.with_new_workspace(name).wf(),
{
    let next = d.with_new_workspace(name);
    assert forall|i: int, j: int| 0 <= i < j < next.workspaces.len() implies (
    #[trigger] next.workspaces[i]).id != (#[trigger] next.workspaces[j]).id by {
        assert(d.workspaces[i].id < d.next_workspace_id);
        if j < d.workspaces.len() {
            assert(d.workspaces[i].id != d.workspaces[j].id);
        }
    }
    assert forall|i: int| 0 <= i < next.workspaces.len() implies (#[trigger] next.workspaces[i]).id
        < next.next_workspace_id by {
        if i < d.workspaces.len() {
            assert(d.workspaces[i].id < d.next_workspace_id);
        }
    }
    assert forall|x: WindowId| #[trigger] next.stack.contains(x) <==> next.has(x) && next.window(
        x,
    ).place is Some by {
        assert(d.stack.contains(x) <==> d.has(x) && d.window(x).place is Some);
    }
    assert forall|i: int, x: WindowId|
        0 <= i < next.workspaces.len() && (#[trigger] next.workspaces[i]).focus_history.contains(
            x,
        ) implies #[trigger] next.has(x) by {
        if i < d.workspaces.len() {
            assert(d.workspaces[i].focus_history.contains(x));
            assert(d.has(x));
        }
    }
    assert forall|i: int|
        0 <= i < next.workspaces.len() && (
        #[trigger] next.workspaces[i]).focused_window is Some implies next.has(next.workspaces[i].focused_window->0) by {
        if i < d.workspaces.len() {
            assert(d.has(d.workspaces[i].focused_window->0));
        }
    }
}

pub proof fn lemma_numbered_workspaces(d: DesktopModel, n: nat)
    requires
        d.wf(),
        d.next_workspace_id + n <= u64::MAX,
    ensures
        d.with_numbered_workspaces(n).wf(),
        d.with_numbered_workspaces(n).next_workspace_id == d.next_workspace_id + n,
        d.with_numbered_workspaces(n).settings == d.settings,
    decreases n,
{
    if n > 0 {
        lemma_numbered_workspaces(d, (n - 1) as nat);
        let before = d.with_numbered_workspaces((n - 1) as nat);
        lemma_new_workspace(before, crate::text::decimal(before.next_workspace_id as nat));
    }
}

pub proof fn lemma_pruned(d: DesktopModel, now: u64)
    requires
        d.wf(),
    ensures
        d.pruned(now).wf(),
{
    let next = d.pruned(now);
    assert forall|i: int| 0 <= i < next.outputs.len() implies model::room(
        (#[trigger] next.outputs[i]).geometry,
        next.outputs[i].zone,
        next.windows.len(),
    ) by {
        assert(model::room(d.outputs[i].geometry, d.outputs[i].zone, d.windows.len()));
    }
    lemma_same_homes(d, next);
}

pub proof fn lemma_redecorated(d: DesktopModel)
    requires
        d.wf(),
    ensures
        d.redecorated().wf(),
{
    lemma_same_homes(d, d.redecorated());
}

} // verus!
