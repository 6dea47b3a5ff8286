//! What follows from changed settings, outputs and rules.

use vstd::prelude::*;

use crate::geometry::{Location, Rect};
use crate::geometry;
use crate::invariants;
use crate::laws::placing;
use crate::layout;
use crate::model::{
    DecorationModeConfig, DesktopModel, Effect, ManagedWindow, Settings, WindowId,
};
use crate::model;
use crate::rules::{ClientModel, NamedModel, RuleModel, RuleSetModel};
use crate::rules;

verus! {

proof fn lemma_moved_others(d: DesktopModel, id: WindowId, to: Location, other: WindowId)
    requires
        d.wf(),
        d.has(id),
        d.has(other),
        other != id,
    ensures
        d.move_window(id, to).wf(),
        d.move_window(id, to).has(other),
        d.move_window(id, to).window(other) == d.window(other),
{
    let next = d.move_window(id, to);
    invariants::lemma_move_window(d, id, to);
    invariants::lemma_rearranged_window(d, next, other);
    invariants::lemma_listed(d, id);
    invariants::lemma_listed(d, other);
    assert(model::place_in(d.windows, id) != model::place_in(d.windows, other));
}

proof fn lemma_refit_keeps(d: DesktopModel, id: WindowId, other: WindowId)
    requires
        d.wf(),
        d.has(id),
        d.has(other),
        other != id,
    ensures
        d.apply_fullscreen(id).window(other) == d.window(other),
        d.apply_maximized(id).window(other) == d.window(other),
{
    match d.output_for_workspace(d.window(id).workspace) {
        Some(output) => {
            let area = d.outputs[output].geometry;
            let ask = Effect::ConfigureFullscreen {
                id,
                area: geometry::Size { w: area.width, h: area.height },
            };
            invariants::lemma_emit(d, ask);
            let asked = d.emit(ask);
            assert(asked.window(other) == d.window(other));
            lemma_moved_others(asked, id, Location { x: area.x, y: area.y }, other);
            let rect = layout::client_box(d.work_area(output), d.insets(id)).rect();
            let fit = Effect::Configure {
                id,
                size: Some(geometry::Size { w: rect.width, h: rect.height }),
            };
            invariants::lemma_emit(d, fit);
            let told = d.emit(fit);
            assert(told.window(other) == d.window(other));
            lemma_moved_others(told, id, Location { x: rect.x, y: rect.y }, other);
        },
        None => {},
    }
}

/// When everything is arranged anew, fullscreen windows are put at the corner of
/// the output that they are on.
proof fn lemma_refitted(d: DesktopModel, n: nat, i: int, o: int)
    requires
        d.wf(),
        0 <= i < n <= d.windows.len(),
        d.windows[i].shown(),
        d.windows[i].fullscreen,
        placing::home(d, d.windows[i].workspace, o),
        d.outputs.len() <= usize::MAX,
    ensures
        d.refit_first(n).windows[i].place == Some(
            Location { x: d.outputs[o].geometry.x, y: d.outputs[o].geometry.y },
        ),
    decreases n,
{
    let before = d.refit_first((n - 1) as nat);
    let window = d.windows[n - 1];
    invariants::lemma_refit_first(d, (n - 1) as nat);
    invariants::lemma_refit_first(d, n);
    invariants::lemma_place_in(d, n - 1);
    invariants::lemma_place_in(d, i);
    invariants::lemma_rearranged_window(d, before, window.id);
    invariants::lemma_rearranged_window(d, before, d.windows[i].id);
    invariants::lemma_rearranged_window(d, d.refit_first(n), d.windows[i].id);
    let corner = Location { x: d.outputs[o].geometry.x, y: d.outputs[o].geometry.y };
    if i == n - 1 {
        placing::windows_go_where_their_workspace_is_shown(before, window.workspace, o);
        let area = d.outputs[o].geometry;
        let ask = Effect::ConfigureFullscreen {
            id: window.id,
            area: geometry::Size { w: area.width, h: area.height },
        };
        invariants::lemma_emit(before, ask);
        invariants::lemma_move_window(before.emit(ask), window.id, corner);
        assert(d.refit_first(n).window(window.id).place == Some(corner));
    } else {
        lemma_refitted(d, (n - 1) as nat, i, o);
        assert(window.id != d.windows[i].id);
        assert(before.window(d.windows[i].id).place == Some(corner));
        lemma_refit_keeps(before, window.id, d.windows[i].id);
    }
}

/// However everything is arranged anew, fullscreen windows end up at the corner
/// of the output that they are on.
pub proof fn fullscreen_windows_follow_their_output(d: DesktopModel, i: int, o: int)
    requires
        d.wf(),
        0 <= i < d.windows.len(),
        d.windows[i].shown(),
        d.windows[i].fullscreen,
        placing::home(d, d.windows[i].workspace, o),
        d.outputs.len() <= usize::MAX,
    ensures
        d.relayout().windows[i].id == d.windows[i].id,
        d.relayout().windows[i].place == Some(
            Location { x: d.outputs[o].geometry.x, y: d.outputs[o].geometry.y },
        ),
{
    let tiled = d.retile_first(d.workspaces.len());
    invariants::lemma_retile_first(d, d.workspaces.len());
    invariants::lemma_relayout(d);
    assert(tiled.windows[i] == (ManagedWindow { place: tiled.windows[i].place, ..d.windows[i] }));
    assert(d.relayout().windows[i] == (ManagedWindow {
        place: d.relayout().windows[i].place,
        ..d.windows[i]
    }));
    lemma_refitted(tiled, tiled.windows.len(), i, o);
}

/// A changed output has its new geometry and zone, the other outputs keep
/// theirs, and everything is drawn anew.
pub proof fn changed_outputs_are_where_they_were_put(
    d: DesktopModel,
    output: int,
    geometry: Rect,
    zone: Rect,
    arranged: bool,
    other: int,
)
    requires
        d.wf(),
        0 <= output < d.outputs.len(),
        0 <= other < d.outputs.len(),
        other != output,
        model::room(geometry, zone, d.windows.len()),
    ensures
        ({
            let next = d.output_changed(output, geometry, zone, arranged);
            &&& next.outputs.len() == d.outputs.len()
            &&& next.outputs[output].geometry == geometry
            &&& next.outputs[output].zone == zone
            &&& next.outputs[output].workspace == d.outputs[output].workspace
            &&& next.outputs[other] == d.outputs[other]
            &&& next.redraw && next.pointer_dirty
            &&& next.settings == d.settings
        }),
        model::room(d.outputs[output].geometry, zone, d.windows.len()) ==> {
            let next = d.layers_arranged(output, zone);
            &&& next.outputs[output].geometry == d.outputs[output].geometry
            &&& next.outputs[output].zone == zone
            &&& next.outputs[other] == d.outputs[other]
        },
{
    let changed = d.with_output(output, geometry, zone);
    invariants::lemma_with_output(d, output, geometry, zone);
    let effect = Effect::WorkAreaChanged { output: output as usize };
    invariants::lemma_emit(changed, effect);
    invariants::lemma_relayout(changed);
    invariants::lemma_relayout(changed.emit(effect));
    if model::room(d.outputs[output].geometry, zone, d.windows.len()) {
        let zoned = d.with_output(output, d.outputs[output].geometry, zone);
        invariants::lemma_with_output(d, output, d.outputs[output].geometry, zone);
        invariants::lemma_emit(zoned, effect);
        invariants::lemma_relayout(zoned.emit(effect));
    }
}

/// New settings are in force at once. Where frames are decided anew, each window
/// has one drawn for it if its rule says so, or, without a rule, if the settings
/// do.
pub proof fn new_settings_are_in_force(
    d: DesktopModel,
    settings: Settings,
    redecorate: bool,
    rearrange: bool,
    i: int,
)
    requires
        d.wf(),
        settings.wf(),
        (DesktopModel { settings, ..d }).wf(),
        0 <= i < d.windows.len(),
    ensures
        ({
            let next = d.reconfigured(settings, redecorate, rearrange);
            let wish = match settings.decoration_mode {
                DecorationModeConfig::Server => true,
                DecorationModeConfig::Auto => settings.server_side_decorations,
                _ => false,
            };
            &&& next.settings == settings
            &&& next.redraw
            &&& next.windows.len() == d.windows.len()
            &&& next.windows[i].id == d.windows[i].id
            &&& next.windows[i].wants_decoration == (if !redecorate {
                d.windows[i].wants_decoration
            } else if d.windows[i].decoration is Some {
                d.windows[i].decoration->0
            } else {
                wish
            })
            &&& !rearrange ==> next.windows[i].place == d.windows[i].place
        }),
{
    let set = DesktopModel { settings, ..d };
    invariants::lemma_redecorated(set);
    let decorated = if redecorate {
        set.redecorated()
    } else {
        set
    };
    invariants::lemma_relayout(decorated);
    assert(decorated.relayout().windows[i] == (ManagedWindow {
        place: decorated.relayout().windows[i].place,
        ..decorated.windows[i]
    }));
}

/// The clients of all windows are told who draws their frame.
pub proof fn clients_are_told_who_draws_frames(
    d: DesktopModel,
    settings: Settings,
    i: int,
)
    requires
        0 <= i < d.windows.len(),
    ensures
        ({
            let next = d.reconfigured(settings, true, false);
            let n = d.effects.len() as int;
            &&& next.effects.len() == n + d.windows.len()
            &&& next.effects[n + i] matches Effect::SetDecorationMode { id, server } && id
                == d.windows[i].id && server == next.windows[i].wants_decoration
        }),
{
}

/// When a window was resized, its resize is over and its geometry is reported.
pub proof fn finished_resizes_are_reported(d: DesktopModel, id: WindowId)
    requires
        d.wf(),
        d.has(id),
    ensures
        ({
            let next = d.finish_resize(id);
            &&& d.window(id).resize is Some ==> (next.window(id).resize matches Some(pending)
                && !pending.active && pending.anchor == d.window(id).resize->0.anchor)
            &&& d.window(id).resize is None ==> next.window(id) == d.window(id)
            &&& d.window(id).place matches Some(at) ==> (next.effects.last() matches
                Effect::WindowGeometryChanged { id: who, geometry } && who == id && geometry.x
                == at.x && geometry.y == at.y && geometry.width == d.window(id).size.w
                && geometry.height == d.window(id).size.h)
        }),
{
    match d.window(id).resize {
        Some(pending) => {
            let w = ManagedWindow {
                resize: Some(model::PendingResize { active: false, ..pending }),
                ..d.window(id)
            };
            invariants::lemma_listed(d, id);
            invariants::lemma_with(d, w);
        },
        None => {},
    }
}

/// An animation is over once as many milliseconds have passed as it lasts.
pub proof fn animations_last_as_long_as_configured(started: u64, duration: u64, now: u64)
    requires
        now >= started,
    ensures
        model::animation_over(started, duration, now) <==> now - started >= duration * 1_000_000,
{
}

proof fn lemma_client_at(clients: Seq<ClientModel>, client: Seq<char>, from: int)
    requires
        0 <= from <= clients.len(),
    ensures
        match rules::client_place(clients, client, from) {
            Some(k) => from <= k < clients.len() && clients[k].client == client,
            None => forall|j: int| from <= j < clients.len() ==> (#[trigger] clients[j]).client
                != client,
        },
    decreases clients.len() - from,
{
    if from < clients.len() {
        lemma_client_at(clients, client, from + 1);
    }
}

proof fn lemma_rule_at(all: Seq<NamedModel>, id: Seq<char>, from: int)
    requires
        0 <= from <= all.len(),
    ensures
        match rules::rule_place(all, id, from) {
            Some(k) => from <= k < all.len() && all[k].id == id,
            None => forall|j: int| from <= j < all.len() ==> (#[trigger] all[j]).id != id,
        },
    decreases all.len() - from,
{
    if from < all.len() {
        lemma_rule_at(all, id, from + 1);
    }
}

/// A rule that is registered is among those of its client, under its name;
/// rules of others and those of the settings stay. One that does not compile, or
/// one more than 256 of a client, changes nothing.
pub proof fn registered_rules_belong_to_their_client(
    set: RuleSetModel,
    client: Seq<char>,
    id: Seq<char>,
    rule: RuleModel,
    compiles: bool,
    other: int,
)
    requires
        0 <= other < set.temporary.len(),
        set.temporary[other].client != client,
    ensures
        ({
            let (next, done) = set.registered(client, id, rule, compiles);
            &&& next.configured == set.configured
            &&& next.temporary[other] == set.temporary[other]
            &&& !compiles ==> !done
            &&& !done ==> next == set
            &&& done ==> exists|k: int, i: int|
                0 <= k < next.temporary.len() && 0 <= i < next.temporary[k].rules.len() && (
                #[trigger] next.temporary[k].rules[i]) == (NamedModel { id, rule })
                    && next.temporary[k].client == client
            &&& compiles && !done ==> exists|k: int|
                0 <= k < set.temporary.len() && (#[trigger] set.temporary[k]).client == client
                    && set.temporary[k].rules.len() >= 256
        }),
{
    lemma_client_at(set.temporary, client, 0);
    let (next, done) = set.registered(client, id, rule, compiles);
    if compiles {
        match rules::client_place(set.temporary, client, 0) {
            None => {
                let k = set.temporary.len() as int;
                assert(next.temporary[k].rules[0] == (NamedModel { id, rule }));
            },
            Some(place) => {
                let all = set.temporary[place].rules;
                lemma_rule_at(all, id, 0);
                match rules::rule_place(all, id, 0) {
                    Some(i) => {
                        assert(next.temporary[place].rules[i] == (NamedModel { id, rule }));
                    },
                    None => {
                        if all.len() < 256 {
                            assert(next.temporary[place].rules[all.len() as int] == (NamedModel {
                                id,
                                rule,
                            }));
                        } else {
                            assert(set.temporary[place].client == client);
                        }
                    },
                }
            },
        }
    }
}

} // verus!
