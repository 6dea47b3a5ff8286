//! Who gets the keyboard, and what is on top of what.

use vstd::prelude::*;

use crate::invariants;
use crate::model::{
    DesktopModel, Effect, FocusTarget, KeyboardInteractivity, Layer, LayerState, ManagedWindow,
    WindowId, WorkspaceModel,
};
use crate::model;
use crate::seqs;

verus! {

/// A panel above the windows that keeps the keyboard to itself.
pub open spec fn takes_all(l: LayerState) -> bool {
    (l.layer == Layer::Top || l.layer == Layer::Overlay) && l.interactivity
        == KeyboardInteractivity::Exclusive && l.configured
}

/// No panel keeps the keyboard to itself.
pub open spec fn nobody_takes_all(d: DesktopModel) -> bool {
    forall|i: int| 0 <= i < d.layers.len() ==> !takes_all(#[trigger] d.layers[i])
}

proof fn lemma_nobody(layers: Seq<LayerState>, from: int)
    requires
        0 <= from,
        forall|i: int| 0 <= i < layers.len() ==> !takes_all(#[trigger] layers[i]),
    ensures
        model::exclusive_layer(layers, from) is None,
    decreases layers.len() - from,
{
    if from < layers.len() {
        lemma_nobody(layers, from + 1);
    }
}

proof fn lemma_somebody(layers: Seq<LayerState>, k: int, from: int)
    requires
        0 <= from <= k < layers.len(),
        takes_all(layers[k]),
        forall|i: int| 0 <= i < k ==> !takes_all(#[trigger] layers[i]),
    ensures
        model::exclusive_layer(layers, from) == Some(layers[k].id),
    decreases layers.len() - from,
{
    if from < k {
        lemma_somebody(layers, k, from + 1);
    }
}

/// The keyboard goes to whoever is meant to get it, unless a panel keeps it to
/// itself: then it goes to the first of those panels.
pub proof fn the_keyboard_goes_where_it_is_sent(d: DesktopModel, target: FocusTarget, k: int)
    ensures
        nobody_takes_all(d) ==> d.set_keyboard_focus(target).keyboard == target,
        nobody_takes_all(d) && d.keyboard != target ==> d.set_keyboard_focus(
            target,
        ).effects.contains(Effect::Focus { target }),
        0 <= k < d.layers.len() && takes_all(d.layers[k]) && (forall|i: int|
            0 <= i < k ==> !takes_all(#[trigger] d.layers[i])) ==> d.set_keyboard_focus(
            target,
        ).keyboard == FocusTarget::Layer(d.layers[k].id),
{
    if nobody_takes_all(d) {
        lemma_nobody(d.layers, 0);
        let next = d.set_keyboard_focus(target);
        if d.keyboard != target {
            assert(next.effects[next.effects.len() - 1] == Effect::Focus { target });
        }
    }
    if 0 <= k < d.layers.len() && takes_all(d.layers[k]) && (forall|i: int|
        0 <= i < k ==> !takes_all(#[trigger] d.layers[i])) {
        lemma_somebody(d.layers, k, 0);
    }
}

proof fn lemma_without_order(s: Seq<WindowId>, id: WindowId, a: WindowId, b: WindowId, i: int, j: int)
    requires
        0 <= i < j < s.len(),
        s[i] == a,
        s[j] == b,
        a != id,
        b != id,
    ensures
        exists|p: int, q: int|
            0 <= p < q < model::without(s, id).len() && model::without(s, id)[p] == a
                && model::without(s, id)[q] == b,
    decreases s.len(),
{
    reveal(Seq::filter);
    let keep = model::other_than(id);
    let rest = s.drop_last();
    let kept = rest.filter(keep);
    if j < s.len() - 1 {
        lemma_without_order(rest, id, a, b, i, j);
        let (p, q) = choose|p: int, q: int|
            0 <= p < q < model::without(rest, id).len() && model::without(rest, id)[p] == a
                && model::without(rest, id)[q] == b;
        assert(model::without(s, id)[p] == a && model::without(s, id)[q] == b);
    } else {
        assert(rest[i] == a);
        assert(rest.contains(a));
        seqs::lemma_filter_contains(rest, keep, a);
        let p = choose|p: int| 0 <= p < kept.len() && kept[p] == a;
        let q = kept.len() as int;
        assert(model::without(s, id)[p] == a && model::without(s, id)[q] == b);
    }
}

/// Raising a window that is on the desktop puts it on top of all others and
/// leaves those in the order that they had.
pub proof fn raising_puts_a_window_on_top(d: DesktopModel, id: WindowId, i: int, j: int)
    requires
        d.stack.contains(id),
        0 <= i < j < d.stack.len(),
        d.stack[i] != id,
        d.stack[j] != id,
    ensures
        d.raise(id).stack.last() == id,
        d.raise(id).effects.last() == (Effect::Raise { id }),
        exists|p: int, q: int|
            0 <= p < q < d.raise(id).stack.len() && d.raise(id).stack[p] == d.stack[i] && d.raise(
                id,
            ).stack[q] == d.stack[j],
{
    lemma_without_order(d.stack, id, d.stack[i], d.stack[j], i, j);
    let below = model::without(d.stack, id);
    let (p, q) = choose|p: int, q: int|
        0 <= p < q < below.len() && below[p] == d.stack[i] && below[q] == d.stack[j];
    assert(d.raise(id).stack[p] == d.stack[i] && d.raise(id).stack[q] == d.stack[j]);
}

proof fn lemma_focus_here_gives(d: DesktopModel, id: WindowId)
    requires
        d.wf(),
        d.has(id),
        nobody_takes_all(d),
    ensures
        ({
            let next = d.focus_here(id);
            &&& next.wf()
            &&& next.keyboard == FocusTarget::Window(id)
            &&& next.has(id)
            &&& next.window(id).minimized is None
            &&& next.window(id).workspace == d.window(id).workspace
            &&& next.outputs == d.outputs
            &&& next.focused_output == d.focused_output
            &&& d.settings.raise_on_focus && (d.window(id).place is Some || d.window(
                id,
            ).minimized is Some) ==> next.stack.len() > 0 && next.stack.last() == id
        }),
{
    invariants::lemma_focus_here(d, id);
    super::lemma_focus_here_outputs(d, id);
    let window = d.window(id);
    invariants::lemma_listed(d, id);
    let restored = match window.minimized {
        Some(location) => {
            let shown = ManagedWindow { minimized: None, ..window };
            invariants::lemma_with(d, shown);
            let one = d.with(shown);
            assert(one.has(id));
            invariants::lemma_put(one, id, location);
            let put = one.put(id, location);
            invariants::lemma_rearranged_window(one, put, id);
            invariants::lemma_retile(put, window.workspace);
            let tiled = put.retile(window.workspace);
            invariants::lemma_rearranged_window(put, tiled, id);
            invariants::lemma_emit(tiled, Effect::WindowRestored { id });
            let told = tiled.emit(Effect::WindowRestored { id });
            assert(put.stack.contains(id) <==> put.has(id) && put.window(id).place is Some);
            lemma_retile_places(put, window.workspace, id);
            told
        },
        None => d,
    };
    assert(restored.has(id));
    assert(restored.layers == d.layers);
    lemma_nobody(restored.layers, 0);
    invariants::lemma_focus_window(restored, id);
    let focused = restored.focus_window(id);
    invariants::lemma_rearranged_window(restored, focused, id);
    invariants::lemma_warp_pointer(focused, id);
    invariants::lemma_rearranged_window(focused, focused.warp_pointer(id), id);
    assert(restored.stack.contains(id) <==> restored.has(id) && restored.window(id).place is Some);
}

/// Arranging a workspace takes no window off the desktop.
proof fn lemma_retile_places(d: DesktopModel, workspace: u64, id: WindowId)
    requires
        d.wf(),
        d.has(id),
        d.window(id).place is Some,
    ensures
        d.retile(workspace).window(id).place is Some,
{
    let windows = d.tiled_windows(workspace);
    match d.output_for_workspace(workspace) {
        Some(output) if windows.len() > 0 => {
            assert forall|i: int| 0 <= i < windows.len() implies d.has(
                (#[trigger] windows[i]).id,
            ) by {
                invariants::lemma_tiled_listed(d, workspace, i);
            }
            lemma_tile_places(d, windows, d.work_area(output), windows.len(), id);
        },
        _ => {},
    }
}

proof fn lemma_tile_places(
    d: DesktopModel,
    windows: Seq<ManagedWindow>,
    area: crate::geometry::Rect,
    n: nat,
    id: WindowId,
)
    requires
        d.wf(),
        d.has(id),
        d.window(id).place is Some,
        n <= windows.len(),
        forall|i: int| 0 <= i < windows.len() ==> d.has((#[trigger] windows[i]).id),
    ensures
        d.tile_first(windows, area, n).window(id).place is Some,
    decreases n,
{
    if n > 0 {
        lemma_tile_places(d, windows, area, (n - 1) as nat, id);
        let before = d.tile_first(windows, area, (n - 1) as nat);
        invariants::lemma_tile_first(d, windows, area, (n - 1) as nat);
        invariants::lemma_rearranged_window(d, before, id);
        let other = windows[n - 1].id;
        invariants::lemma_rearranged_window(d, before, other);
        let rect = crate::layout::client_box(
            d.tile_of(area, windows.len() as int, n - 1),
            d.insets(other),
        ).rect();
        if other == id {
            let effect = Effect::Configure {
                id,
                size: Some(crate::geometry::Size { w: rect.width, h: rect.height }),
            };
            invariants::lemma_emit(before, effect);
            let told = before.emit(effect);
            invariants::lemma_rearranged_window(before, told, id);
            invariants::lemma_move_window(
                told,
                id,
                crate::geometry::Location { x: rect.x, y: rect.y },
            );
        } else {
            super::lemma_others_stay(before, other, rect, id);
        }
    }
}

/// Focusing a mapped window of the workspace on the focused output gives it
/// the keyboard, brings it back if it was minimized, and puts it on top where
/// focusing raises windows.
pub proof fn a_focused_window_gets_the_keyboard(d: DesktopModel, id: WindowId, now: u64, o: usize)
    requires
        d.wf(),
        d.has(id),
        d.window(id).mapped,
        nobody_takes_all(d),
        d.focused_output == Some(o),
        d.outputs[o as int].workspace == d.window(id).workspace,
    ensures
        ({
            let (next, done) = d.focus_by_id(id, now);
            &&& done
            &&& next.keyboard == FocusTarget::Window(id)
            &&& next.window(id).minimized is None
            &&& d.settings.raise_on_focus && (d.window(id).place is Some || d.window(
                id,
            ).minimized is Some) ==> next.stack.len() > 0 && next.stack.last() == id
        }),
{
    lemma_focus_here_gives(d, id);
}

/// Focusing a window of another workspace shows that workspace on the focused
/// output and gives the window the keyboard.
pub proof fn focusing_a_window_shows_its_workspace(
    d: DesktopModel,
    id: WindowId,
    now: u64,
    o: usize,
    k: int,
)
    requires
        d.wf(),
        d.has(id),
        d.window(id).mapped,
        nobody_takes_all(d),
        d.focused_output == Some(o),
        d.outputs[o as int].workspace != d.window(id).workspace,
        0 <= k < d.workspaces.len(),
        d.workspaces[k].id == d.window(id).workspace,
    ensures
        ({
            let (next, done) = d.focus_by_id(id, now);
            &&& done
            &&& next.focused_output == Some(o)
            &&& next.outputs[o as int].workspace == d.window(id).workspace
            &&& next.keyboard == FocusTarget::Window(id)
        }),
{
    let workspace = d.window(id).workspace;
    invariants::lemma_workspace_from(d, workspace, 0);
    let place = d.workspace_place(workspace)->0;
    let ws = WorkspaceModel { focused_window: Some(id), ..d.workspaces[place] };
    assert forall|x: WindowId| #[trigger] ws.focus_history.contains(x) implies d.has(x) by {
        assert(d.workspaces[place].focus_history.contains(x));
    }
    invariants::lemma_with_workspace(d, place, ws);
    let noted = d.with_workspace(place, ws);
    lemma_shown_gives(noted, workspace, now, o, place, id);
}

proof fn lemma_shown_gives(
    d: DesktopModel,
    workspace: u64,
    now: u64,
    o: usize,
    place: int,
    id: WindowId,
)
    requires
        d.wf(),
        nobody_takes_all(d),
        d.focused_output == Some(o),
        d.outputs[o as int].workspace != workspace,
        0 <= place < d.workspaces.len(),
        d.workspaces[place].id == workspace,
        d.workspaces[place].focused_window == Some(id),
        d.has(id),
        d.window(id).mapped,
    ensures
        ({
            let (next, done) = d.switch_workspace(workspace, now);
            &&& done
            &&& next.focused_output == Some(o)
            &&& next.outputs[o as int].workspace == workspace
            &&& next.keyboard == FocusTarget::Window(id)
        }),
{
    invariants::lemma_workspace_from(d, workspace, 0);
    assert(d.workspace_place(workspace) is Some);
    let found = d.workspace_place(workspace)->0;
    assert(found == place) by {
        if found < place {
            assert(d.workspaces[found].id != d.workspaces[place].id);
        } else if place < found {
            assert(d.workspaces[place].id != d.workspaces[found].id);
        }
    }
    assert(d.workspace_target(workspace) == Some(workspace));
    let output = o as int;
    let current = d.outputs[output].workspace;
    invariants::lemma_output_showing(d, workspace, 0);
    let swapped = match model::output_showing(d.outputs, workspace, 0) {
        Some(other) => {
            invariants::lemma_show(d, other, current, now);
            d.show(other, current, now)
        },
        None => d,
    };
    invariants::lemma_show(swapped, output, workspace, now);
    let shown = swapped.show(output, workspace, now);
    assert(shown.workspaces == d.workspaces);
    assert(shown.workspace_focus(workspace) == Some(id));
    assert(shown.has(id) && shown.window(id).mapped);
    assert(shown.layers == d.layers);
    lemma_focus_here_gives(shown, id);
}

/// Switching to a workspace that an output does not show yet gives the
/// keyboard to the window that had the focus there, if it is still mapped.
pub proof fn switching_returns_to_the_focused_window(
    d: DesktopModel,
    now: u64,
    o: usize,
    k: int,
    id: WindowId,
)
    requires
        d.wf(),
        nobody_takes_all(d),
        d.focused_output == Some(o),
        0 <= k < d.workspaces.len(),
        d.outputs[o as int].workspace != d.workspaces[k].id,
        d.workspaces[k].focused_window == Some(id),
        d.has(id),
        d.window(id).mapped,
    ensures
        ({
            let (next, done) = d.switch_workspace(d.workspaces[k].id, now);
            &&& done
            &&& next.outputs[o as int].workspace == d.workspaces[k].id
            &&& next.keyboard == FocusTarget::Window(id)
        }),
{
    lemma_shown_gives(d, d.workspaces[k].id, now, o, k, id);
}

/// A number that a workspace has selects that workspace. Another number
/// selects nothing, unless numbers wrap around: then it selects the one of
/// the configured workspaces that is a whole number of rounds away.
pub proof fn workspace_numbers_wrap_around(d: DesktopModel, id: u64)
    requires
        d.settings.wf(),
    ensures
        (exists|i: int| 0 <= i < d.workspaces.len() && (#[trigger] d.workspaces[i]).id == id)
            ==> d.workspace_target(id) == Some(id),
        (forall|i: int| 0 <= i < d.workspaces.len() ==> (#[trigger] d.workspaces[i]).id != id) ==> {
            let wraps = d.settings.wrap_workspaces && !d.settings.dynamic_workspaces;
            let count = d.settings.workspace_count as int;
            &&& !wraps ==> d.workspace_target(id) is None
            &&& wraps ==> d.workspace_target(id) is Some
            &&& wraps ==> 1 <= d.workspace_target(id)->0 <= count
            &&& wraps && id > 0 ==> (id - d.workspace_target(id)->0) % count == 0
            &&& wraps && id == 0 ==> d.workspace_target(id)->0 == count
        },
{
    invariants::lemma_workspace_from(d, id, 0);
    let count = d.settings.workspace_count as int;
    if id > 0 {
        let k = (id - 1) / count;
        let r = (id - 1) % count;
        assert(id - 1 == k * count + r && 0 <= r < count) by (nonlinear_arith)
            requires
                k == (id - 1) / count,
                r == (id - 1) % count,
                count >= 1,
        ;
        assert((k * count) % count == 0) by (nonlinear_arith)
            requires
                count >= 1,
        ;
        assert(id - (r + 1) == k * count);
    }
}

/// Moving a window to a workspace that exists takes it there, and leaves
/// every other window on its own workspace.
pub proof fn moving_changes_only_the_moved_window(
    d: DesktopModel,
    id: WindowId,
    workspace: u64,
    other: WindowId,
)
    requires
        d.wf(),
        d.has(id),
        d.has(other),
        other != id,
    ensures
        ({
            let (next, done) = d.move_to_workspace(id, workspace);
            &&& done <==> exists|i: int|
                0 <= i < d.workspaces.len() && (#[trigger] d.workspaces[i]).id == workspace
            &&& !done ==> next == d
            &&& done ==> next.window(id).workspace == workspace
            &&& next.window(other).workspace == d.window(other).workspace
            &&& next.window(other).mapped == d.window(other).mapped
            &&& next.outputs == d.outputs
        }),
{
    invariants::lemma_workspace_from(d, workspace, 0);
    invariants::lemma_move_to_workspace(d, id, workspace);
    let next = d.move_to_workspace(id, workspace).0;
    if d.workspace_place(workspace) is Some && d.window(id).workspace != workspace {
        super::lemma_moved(d, id, workspace, other);
        super::lemma_moved(d, id, workspace, id);
        invariants::lemma_moved_out(d, id);
        let out = match d.workspace_place(d.window(id).workspace) {
            Some(place) => d.with_workspace(place, d.workspaces[place].forget(id)),
            None => d,
        };
        invariants::lemma_listed(d, id);
        assert(out.windows == d.windows);
        let w = ManagedWindow { workspace, ..d.window(id) };
        invariants::lemma_with(out, w);
        let previous = d.window(id).workspace;
        invariants::lemma_retile(out.with(w), previous);
        let one = out.with(w).retile(previous);
        invariants::lemma_retile(one, workspace);
        let two = one.retile(workspace);
        invariants::lemma_focus_previous(two);
    }
}

proof fn lemma_last_focusable(d: DesktopModel, history: Seq<WindowId>, workspace: u64, n: nat)
    requires
        n <= history.len(),
    ensures
        match d.last_focusable(history, workspace, n) {
            Some(id) => exists|k: int|
                0 <= k < n && #[trigger] history[k] == id && d.focusable(id, workspace) && forall|
                    j: int,
                |
                    k < j < n ==> !d.focusable(#[trigger] history[j], workspace),
            None => forall|j: int| 0 <= j < n ==> !d.focusable(#[trigger] history[j], workspace),
        },
    decreases n,
{
    if n > 0 {
        if d.focusable(history[n - 1], workspace) {
            assert(history[n - 1] == d.last_focusable(history, workspace, n)->0);
        } else {
            lemma_last_focusable(d, history, workspace, (n - 1) as nat);
        }
    }
}

/// The window could take over the focus: it is on the screen with its
/// workspace, and does not have the focus.
pub open spec fn could_take_over(d: DesktopModel, id: WindowId, workspace: u64) -> bool {
    d.has(id) && d.window(id).mapped && d.window(id).minimized is None && d.window(id).workspace
        == workspace && d.focused_window != Some(id)
}

/// Giving the focus back gives it to the window of the focused workspace that
/// had it last, of those that could take over; if there is none, nobody gets
/// it.
pub proof fn the_focus_goes_back_to_the_latest(d: DesktopModel, o: usize, k: int, i: int)
    requires
        d.wf(),
        nobody_takes_all(d),
        d.focused_output == Some(o),
        0 <= k < d.workspaces.len(),
        d.workspaces[k].id == d.outputs[o as int].workspace,
    ensures
        ({
            let history = d.workspaces[k].focus_history;
            let workspace = d.workspaces[k].id;
            &&& 0 <= i < history.len() && could_take_over(d, history[i], workspace) && (forall|
                j: int,
            |
                i < j < history.len() ==> !could_take_over(d, #[trigger] history[j], workspace))
                ==> d.focus_previous().keyboard == FocusTarget::Window(history[i])
            &&& (forall|j: int|
                0 <= j < history.len() ==> !could_take_over(d, #[trigger] history[j], workspace))
                ==> d.focus_previous().keyboard == FocusTarget::Nobody
        }),
{
    let history = d.workspaces[k].focus_history;
    let workspace = d.workspaces[k].id;
    lemma_nobody(d.layers, 0);
    invariants::lemma_workspace_from(d, workspace, 0);
    let found = d.workspace_place(workspace)->0;
    assert(found == k) by {
        if found < k {
            assert(d.workspaces[found].id != d.workspaces[k].id);
        } else if k < found {
            assert(d.workspaces[k].id != d.workspaces[found].id);
        }
    }
    lemma_last_focusable(d, history, workspace, history.len());
    assert forall|id: WindowId| #[trigger]
        d.focusable(id, workspace) == could_take_over(d, id, workspace) by {}
    match d.previous_focus() {
        Some(id) => {
            let m = choose|m: int|
                0 <= m < history.len() && #[trigger] history[m] == id && d.focusable(id, workspace)
                    && forall|j: int|
                    m < j < history.len() ==> !d.focusable(#[trigger] history[j], workspace);
            assert(d.focusable(history[m], workspace));
            if 0 <= i < history.len() && could_take_over(d, history[i], workspace) && (forall|
                j: int,
            |
                i < j < history.len() ==> !could_take_over(d, #[trigger] history[j], workspace)) {
                assert(d.focusable(history[i], workspace));
                assert(m == i);
            }
            assert(could_take_over(d, history[m], workspace));
        },
        None => {
            if 0 <= i < history.len() {
                assert(!d.focusable(history[i], workspace));
            }
        },
    }
}

/// Once the focused window is gone, the focus goes back where that is set, and
/// else nobody gets it. The focus of another window stays.
pub proof fn closing_gives_the_focus_back(d: DesktopModel, id: WindowId)
    requires
        nobody_takes_all(d),
    ensures
        d.focused_window != Some(id) ==> d.refocus(id).keyboard == d.keyboard
            && d.refocus(id).focused_window == d.focused_window,
        d.focused_window == Some(id) && !d.settings.focus_previous_on_close ==> d.refocus(
            id,
        ).keyboard == FocusTarget::Nobody,
        d.focused_window == Some(id) && d.settings.focus_previous_on_close ==> d.refocus(
            id,
        ).keyboard == (DesktopModel { focused_window: None, ..d }).focus_previous().keyboard,
{
    lemma_nobody(d.layers, 0);
}

/// Once a window has the keyboard it is the focused one, its workspace
/// remembers it as such and last, and of the mapped windows it alone is told
/// that it is active.
pub proof fn the_window_with_the_keyboard_is_active(
    d: DesktopModel,
    target: FocusTarget,
    id: WindowId,
    k: int,
    w: int,
)
    requires
        d.wf(),
        d.has(id),
        d.focused_window != Some(id),
        0 <= k < d.workspaces.len(),
        d.workspaces[k].id == d.window(id).workspace,
        0 <= w < d.windows.len(),
    ensures
        ({
            let next = d.focus_changed(target, Some(id));
            &&& next.keyboard == target
            &&& next.focused_window == Some(id)
            &&& next.workspaces[k].focused_window == Some(id)
            &&& next.workspaces[k].focus_history.len() > 0
            &&& next.workspaces[k].focus_history.last() == id
            &&& next.effects.contains(Effect::WindowFocused { id })
            &&& d.windows[w].mapped ==> next.effects.contains(
                Effect::Activate { id: d.windows[w].id, on: d.windows[w].id == id },
            )
        }),
{
    let next = d.focus_changed(target, Some(id));
    invariants::lemma_workspace_from(d, d.workspaces[k].id, 0);
    let found = d.workspace_place(d.workspaces[k].id)->0;
    assert(found == k) by {
        if found < k {
            assert(d.workspaces[found].id != d.workspaces[k].id);
        } else if k < found {
            assert(d.workspaces[k].id != d.workspaces[found].id);
        }
    }
    assert(next.effects[next.effects.len() - 1] == Effect::WindowFocused { id });
    if d.windows[w].mapped {
        let keep = |w: ManagedWindow| w.mapped;
        let mapped = d.windows.filter(keep);
        assert(d.windows.contains(d.windows[w]));
        seqs::lemma_filter_contains(d.windows, keep, d.windows[w]);
        let i = choose|i: int| 0 <= i < mapped.len() && mapped[i] == d.windows[w];
        assert(d.activations(Some(id))[i] == Effect::Activate {
            id: d.windows[w].id,
            on: d.windows[w].id == id,
        });
        assert(next.effects[d.effects.len() + i] == d.activations(Some(id))[i]);
    }
}

/// A new window on the workspace of the focused output gets the keyboard where
/// new windows are focused; on another workspace it waits its turn.
pub proof fn new_windows_are_focused_as_the_settings_say(
    d: DesktopModel,
    id: WindowId,
    workspace: u64,
    named: Option<int>,
    position: Option<crate::geometry::Location>,
    now: u64,
    o: usize,
)
    requires
        d.wf(),
        d.has(id),
        !d.window(id).mapped,
        nobody_takes_all(d),
        d.focused_output == Some(o),
        d.outputs[o as int].workspace == workspace,
        d.settings.focus_new_windows,
    ensures
        d.map_window(id, workspace, named, position, now).keyboard == FocusTarget::Window(id),
{
    let location = d.initial_place(id, named, workspace, position);
    let told = d.emit(Effect::ListForeign { id });
    invariants::lemma_emit(d, Effect::ListForeign { id });
    invariants::lemma_listed(d, id);
    let w = ManagedWindow {
        mapped: true,
        workspace,
        opened_at: if d.settings.animations {
            Some(now)
        } else {
            None
        },
        ..d.window(id)
    };
    invariants::lemma_with(told, w);
    let set = told.with(w);
    assert(set.has(id));
    invariants::lemma_put(set, id, location);
    let put = set.put(id, location);
    invariants::lemma_emit(put, Effect::WindowOpened { id });
    let one = put.emit(Effect::WindowOpened { id });
    invariants::lemma_emit(one, Effect::WorkspacesChanged);
    let two = one.emit(Effect::WorkspacesChanged);
    invariants::lemma_retile(two, workspace);
    let mapped = two.retile(workspace);
    assert(mapped.layers == d.layers);
    lemma_nobody(mapped.layers, 0);
}

/// The pointer is taken to the middle of a focused window that it is not on,
/// where that is set, and stays otherwise.
pub proof fn the_pointer_is_taken_to_the_middle(d: DesktopModel, id: WindowId)
    requires
        d.window(id).place is Some,
        d.pointer is Some,
    ensures
        ({
            let place = d.window(id).place->0;
            let size = d.window(id).size;
            let window = crate::geometry::Rect {
                x: place.x,
                y: place.y,
                width: size.w,
                height: size.h,
            };
            let next = d.warp_pointer(id);
            &&& d.settings.warp_cursor && !super::frames::on(window, d.pointer->0) ==> {
                &&& next.effects.len() == d.effects.len() + 1
                &&& next.effects.last() matches Effect::WarpPointer { to }
                &&& to.x - 4 * place.x == 4 * (place.x + size.w) - to.x
                &&& to.y - 4 * place.y == 4 * (place.y + size.h) - to.y
            }
            &&& !d.settings.warp_cursor || super::frames::on(window, d.pointer->0) ==> next == d
        }),
{
    let place = d.window(id).place->0;
    let size = d.window(id).size;
    let to = crate::geometry::Point {
        x: (4 * place.x + 2 * size.w) as i64,
        y: (4 * place.y + 2 * size.h) as i64,
    };
    let next = d.warp_pointer(id);
    let window = crate::geometry::Rect { x: place.x, y: place.y, width: size.w, height: size.h };
    if d.settings.warp_cursor && !super::frames::on(window, d.pointer->0) {
        assert(next.effects == d.effects.push(Effect::WarpPointer { to }));
    }
}

/// A panel gets the keyboard if it wants it for itself and lies above the
/// windows, or if it takes it when nobody has it.
pub proof fn panels_get_the_keyboard_if_they_want_it(d: DesktopModel, l: LayerState)
    ensures
        ({
            let next = d.focus_layer(l);
            let above = l.layer == Layer::Top || l.layer == Layer::Overlay;
            &&& l.interactivity == KeyboardInteractivity::Exclusive && above ==> next.keyboard
                == FocusTarget::Layer(l.id)
            &&& l.interactivity == KeyboardInteractivity::Exclusive && !above ==> next == d
            &&& l.interactivity == KeyboardInteractivity::OnDemand ==> next.keyboard == (if
            d.keyboard == FocusTarget::Nobody {
                FocusTarget::Layer(l.id)
            } else {
                d.keyboard
            })
            &&& l.interactivity == KeyboardInteractivity::Never ==> next == d
        }),
{
}

/// When a panel goes that had the keyboard, the window that the focused
/// workspace remembers gets it, if that is on the screen. A panel that did
/// not have it takes nothing from whoever has it.
pub proof fn a_panel_that_goes_gives_the_keyboard_back(
    d: DesktopModel,
    layer: u64,
    o: usize,
    k: int,
    id: WindowId,
)
    requires
        d.wf(),
        d.focused_output == Some(o),
        0 <= k < d.workspaces.len(),
        d.workspaces[k].id == d.outputs[o as int].workspace,
        forall|i: int|
            0 <= i < d.layers.len() && (#[trigger] d.layers[i]).id != layer ==> !takes_all(
                d.layers[i],
            ),
    ensures
        d.keyboard == FocusTarget::Layer(layer) && d.workspaces[k].focused_window == Some(id)
            && d.has(id) && d.window(id).mapped && d.window(id).minimized is None
            ==> d.layer_removed(layer).keyboard == FocusTarget::Window(id),
        d.keyboard == FocusTarget::Layer(layer) && d.workspaces[k].focused_window is None
            ==> d.layer_removed(layer).keyboard == FocusTarget::Nobody,
        d.keyboard matches FocusTarget::Window(other) ==> d.layer_removed(layer).keyboard
            == d.keyboard,
{
    let keep = |l: LayerState| l.id != layer;
    let rest = d.layers.filter(keep);
    assert forall|i: int| 0 <= i < rest.len() implies !takes_all(#[trigger] rest[i]) by {
        assert(rest.contains(rest[i]));
        seqs::lemma_filter_contains(d.layers, keep, rest[i]);
        let j = choose|j: int| 0 <= j < d.layers.len() && d.layers[j] == rest[i];
        assert(d.layers[j].id != layer);
    }
    lemma_nobody(rest, 0);
    let workspace = d.workspaces[k].id;
    invariants::lemma_workspace_from(d, workspace, 0);
    let found = d.workspace_place(workspace)->0;
    assert(found == k) by {
        if found < k {
            assert(d.workspaces[found].id != d.workspaces[k].id);
        } else if k < found {
            assert(d.workspaces[k].id != d.workspaces[found].id);
        }
    }
}

/// Windows are drawn in four levels, the ordinary ones lowest, then those that
/// stay on top, then the fullscreen ones, and among those the ones that stay
/// on top.
pub open spec fn height(w: ManagedWindow) -> int {
    (if w.fullscreen {
        2int
    } else {
        0
    }) + (if w.always_on_top == Some(true) {
        1int
    } else {
        0
    })
}

/// A window that stays on top is drawn above those of its kind that do not,
/// and fullscreen ones above all others.
pub proof fn windows_are_drawn_by_height(d: DesktopModel, output: int, i: int, j: int)
    requires
        0 <= i < j < d.z_order(output).len(),
    ensures
        height(d.window(d.z_order(output)[i])) <= height(d.window(d.z_order(output)[j])),
{
    let a = d.level(output, false, false);
    let b = d.level(output, false, true);
    let c = d.level(output, true, false);
    let e = d.level(output, true, true);
    let z = d.z_order(output);
    lemma_height(d, output, i);
    lemma_height(d, output, j);
}

proof fn lemma_height(d: DesktopModel, output: int, i: int)
    requires
        0 <= i < d.z_order(output).len(),
    ensures
        ({
            let a = d.level(output, false, false).len();
            let b = d.level(output, false, true).len();
            let c = d.level(output, true, false).len();
            height(d.window(d.z_order(output)[i])) == (if i < a {
                0int
            } else if i < a + b {
                1
            } else if i < a + b + c {
                2
            } else {
                3
            })
        }),
{
    let a = d.level(output, false, false);
    let b = d.level(output, false, true);
    let c = d.level(output, true, false);
    let e = d.level(output, true, true);
    let z = d.z_order(output);
    super::lemma_level(d, output, false, false, z[i]);
    super::lemma_level(d, output, false, true, z[i]);
    super::lemma_level(d, output, true, false, z[i]);
    super::lemma_level(d, output, true, true, z[i]);
    if i < a.len() {
        assert(a[i] == z[i]);
    } else if i < a.len() + b.len() {
        assert(b[i - a.len()] == z[i]);
    } else if i < a.len() + b.len() + c.len() {
        assert(c[i - a.len() - b.len()] == z[i]);
    } else {
        assert(e[i - a.len() - b.len() - c.len()] == z[i]);
    }
}

/// A window is visible on an output exactly if it is mapped, not minimized,
/// and its workspace is the one that the output shows.
pub proof fn outputs_show_the_windows_of_their_workspace(d: DesktopModel, id: WindowId, output: int)
    requires
        d.has(id),
    ensures
        d.visible_on(id, output) <==> d.window(id).mapped && d.window(id).minimized is None
            && d.window(id).workspace == d.outputs[output].workspace,
{
}

} // verus!
