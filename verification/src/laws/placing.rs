//! Where windows go, in plain numbers.

use vstd::prelude::*;

use crate::geometry::{Location, Point, Rect, Size};
use crate::grabs::ResizeEdges;
use crate::invariants;
use crate::layout;
use crate::model::{
    DecorationModeConfig, DesktopModel, Effect, ManagedWindow, OutputState, RuleOutcome, WindowId,
    WindowLayout,
};
use crate::model;
use crate::seqs;

verus! {

/// The output is the first that shows the workspace, or, if none does, the
/// focused one.
pub open spec fn home(d: DesktopModel, workspace: u64, o: int) -> bool {
    &&& 0 <= o < d.outputs.len()
    &&& {
        ||| d.outputs[o].workspace == workspace && forall|j: int|
            0 <= j < o ==> (#[trigger] d.outputs[j]).workspace != workspace
        ||| d.focused_output == Some(o as usize) && forall|j: int|
            0 <= j < d.outputs.len() ==> (#[trigger] d.outputs[j]).workspace != workspace
    }
}

proof fn lemma_first_showing(outputs: Seq<OutputState>, workspace: u64, o: int, from: int)
    requires
        0 <= from <= o < outputs.len(),
        outputs[o].workspace == workspace,
        forall|j: int| 0 <= j < o ==> (#[trigger] outputs[j]).workspace != workspace,
    ensures
        model::output_showing(outputs, workspace, from) == Some(o),
    decreases o - from,
{
    if from < o {
        lemma_first_showing(outputs, workspace, o, from + 1);
    }
}

/// Windows of a workspace go to the output that shows it, or else to the
/// focused one.
pub proof fn windows_go_where_their_workspace_is_shown(d: DesktopModel, workspace: u64, o: int)
    requires
        d.wf(),
        home(d, workspace, o),
        d.outputs.len() <= usize::MAX,
    ensures
        d.output_for_workspace(workspace) == Some(o),
{
    if d.outputs[o].workspace == workspace {
        lemma_first_showing(d.outputs, workspace, o, 0);
    } else {
        invariants::lemma_output_showing(d, workspace, 0);
    }
}

/// The work area of an output is what its panels leave of it.
pub proof fn the_work_area_is_the_zone_on_the_output(d: DesktopModel, o: int)
    requires
        d.wf(),
        0 <= o < d.outputs.len(),
    ensures
        ({
            let area = d.work_area(o);
            let output = d.outputs[o];
            &&& area.x == output.geometry.x + output.zone.x
            &&& area.y == output.geometry.y + output.zone.y
            &&& area.width == output.zone.width
            &&& area.height == output.zone.height
        }),
{
    let state = d.outputs[o];
    invariants::lemma_room(state.geometry, state.zone, d.windows.len(), 0);
}

proof fn lemma_marked(d: DesktopModel, w: ManagedWindow, effect: Effect)
    requires
        d.wf(),
        d.has(w.id),
        (w.place is Some) == (d.window(w.id).place is Some),
    ensures
        ({
            let marked = d.with(w).emit(effect);
            &&& marked.wf()
            &&& marked.has(w.id)
            &&& marked.window(w.id) == w
            &&& marked.outputs == d.outputs
            &&& marked.focused_output == d.focused_output
            &&& marked.settings == d.settings
        }),
{
    invariants::lemma_with(d, w);
    assert(d.with(w).has(w.id));
    invariants::lemma_emit(d.with(w), effect);
}

/// A window that becomes fullscreen covers its whole output, whatever the
/// panels reserve: it goes to the corner of the output, is asked for the
/// output's size, and comes to the top.
pub proof fn fullscreen_covers_the_output(d: DesktopModel, id: WindowId, o: int)
    requires
        d.wf(),
        d.has(id),
        !d.window(id).fullscreen,
        home(d, d.window(id).workspace, o),
        d.outputs.len() <= usize::MAX,
    ensures
        ({
            let full = d.set_fullscreen(id, true);
            let output = d.outputs[o].geometry;
            &&& full.has(id)
            &&& full.window(id).fullscreen
            &&& full.window(id).place == Some(Location { x: output.x, y: output.y })
            &&& full.effects.contains(
                Effect::ConfigureFullscreen {
                    id,
                    area: Size { w: output.width, h: output.height },
                },
            )
            &&& full.effects.contains(Effect::SetFullscreenState { id, on: true })
            &&& full.stack.len() > 0 && full.stack.last() == id
        }),
{
    let output = d.outputs[o].geometry;
    let workspace = d.window(id).workspace;
    invariants::lemma_listed(d, id);
    let w1 = ManagedWindow { restore: d.window(id).geometry(), ..d.window(id) };
    let noted = d.remember_restore(id);
    if d.window(id).restore is None {
        invariants::lemma_with(d, w1);
        assert(noted.has(id));
    }
    invariants::lemma_listed(noted, id);
    let w2 = ManagedWindow { fullscreen: true, ..noted.window(id) };
    let state = Effect::SetFullscreenState { id, on: true };
    lemma_marked(noted, w2, state);
    let marked = noted.with(w2).emit(state);
    assert(home(marked, workspace, o));
    windows_go_where_their_workspace_is_shown(marked, workspace, o);
    let ask = Effect::ConfigureFullscreen {
        id,
        area: Size { w: output.width, h: output.height },
    };
    let n = marked.effects.len() as int;
    assert(marked.effects[n - 1] == state);
    invariants::lemma_emit(marked, ask);
    let asked = marked.emit(ask);
    invariants::lemma_rearranged_window(marked, asked, id);
    let to = Location { x: output.x, y: output.y };
    invariants::lemma_move_window(asked, id, to);
    let moved = asked.move_window(id, to);
    invariants::lemma_rearranged_window(asked, moved, id);
    assert(moved.stack.contains(id) <==> moved.has(id) && moved.window(id).place is Some);
    invariants::lemma_raise(moved, id);
    let raised = moved.raise(id);
    let full = d.set_fullscreen(id, true);
    assert(full == raised.repaint());
    assert(full.effects[n] == ask);
    assert(full.effects[n - 1] == state);
}

/// Asking for a size and a place: the window goes there and is asked for
/// exactly that size.
proof fn lemma_configured(d: DesktopModel, id: WindowId, rect: Rect)
    requires
        d.wf(),
        d.has(id),
    ensures
        ({
            let next = d.configure_and_place(id, rect);
            &&& next.wf()
            &&& next.has(id)
            &&& next.window(id) == (ManagedWindow {
                place: Some(Location { x: rect.x, y: rect.y }),
                ..d.window(id)
            })
            &&& next.effects.len() > d.effects.len()
            &&& next.effects[d.effects.len() as int] == (Effect::Configure {
                id,
                size: Some(Size { w: rect.width, h: rect.height }),
            })
        }),
{
    invariants::lemma_configure_and_place(d, id, rect);
    let next = d.configure_and_place(id, rect);
    invariants::lemma_rearranged_window(d, next, id);
    let effect = Effect::Configure { id, size: Some(Size { w: rect.width, h: rect.height }) };
    invariants::lemma_emit(d, effect);
    let told = d.emit(effect);
    invariants::lemma_rearranged_window(d, told, id);
    invariants::lemma_move_window(told, id, Location { x: rect.x, y: rect.y });
}

/// A maximized window fills the work area of its output, its frame included.
pub proof fn maximizing_fills_the_work_area(d: DesktopModel, id: WindowId, o: int)
    requires
        d.wf(),
        d.has(id),
        !d.window(id).fullscreen,
        home(d, d.window(id).workspace, o),
        d.outputs.len() <= usize::MAX,
        d.outputs[o].zone.width > d.insets(id).horizontal,
        d.outputs[o].zone.height > d.insets(id).vertical,
    ensures
        ({
            let (big, done) = d.set_maximized(id, true);
            let output = d.outputs[o];
            let insets = d.insets(id);
            &&& done
            &&& big.has(id)
            &&& big.window(id).maximized
            &&& big.window(id).place is Some
            &&& big.window(id).place->0.x - insets.left == output.geometry.x + output.zone.x
            &&& big.window(id).place->0.y - insets.top == output.geometry.y + output.zone.y
            &&& big.effects.contains(
                Effect::Configure {
                    id,
                    size: Some(
                        Size {
                            w: (output.zone.width - insets.horizontal) as i32,
                            h: (output.zone.height - insets.vertical) as i32,
                        },
                    ),
                },
            )
            &&& big.effects.contains(Effect::WindowMaximized { id, maximized: true })
        }),
{
    let workspace = d.window(id).workspace;
    invariants::lemma_listed(d, id);
    let w1 = ManagedWindow { restore: d.window(id).geometry(), ..d.window(id) };
    let noted = d.remember_restore(id);
    if d.window(id).restore is None {
        invariants::lemma_with(d, w1);
        assert(noted.has(id));
    }
    invariants::lemma_listed(noted, id);
    let w2 = ManagedWindow { maximized: true, ..noted.window(id) };
    let state = Effect::SetMaximizedState { id, on: true };
    lemma_marked(noted, w2, state);
    let marked = noted.with(w2).emit(state);
    assert(home(marked, workspace, o));
    windows_go_where_their_workspace_is_shown(marked, workspace, o);
    the_work_area_is_the_zone_on_the_output(marked, o);
    assert(marked.insets(id) == d.insets(id));
    let out = d.outputs[o];
    invariants::lemma_room(out.geometry, out.zone, d.windows.len(), 0);
    let rect = layout::client_box(marked.work_area(o), marked.insets(id)).rect();
    lemma_configured(marked, id, rect);
    let placed = marked.configure_and_place(id, rect);
    let big = d.set_maximized(id, true).0;
    let last = Effect::WindowMaximized { id, maximized: true };
    assert(big == placed.emit(last));
    assert(big.effects[marked.effects.len() as int] == placed.effects[marked.effects.len() as int]);
    assert(big.effects[big.effects.len() - 1] == last);
    assert(big.windows == placed.windows);
}

/// A window is maximized or restored exactly if there is one and it is not
/// fullscreen.
pub proof fn fullscreen_windows_are_not_maximized(d: DesktopModel, id: WindowId, on: bool)
    ensures
        d.set_maximized(id, on).1 <==> d.has(id) && !d.window(id).fullscreen,
        !d.set_maximized(id, on).1 ==> d.set_maximized(id, on).0 == d,
{
}

/// Who draws a frame: nobody around a fullscreen window, the server or the
/// client where that is set, and otherwise the server where it may and the
/// window wants it to.
pub proof fn frames_are_drawn_as_the_settings_say(d: DesktopModel, id: WindowId)
    requires
        d.has(id),
    ensures
        d.window(id).fullscreen ==> !d.decorated(id),
        !d.window(id).fullscreen && d.settings.decoration_mode == DecorationModeConfig::Server
            ==> d.decorated(id),
        d.settings.decoration_mode == DecorationModeConfig::Client ==> !d.decorated(id),
        d.settings.decoration_mode == DecorationModeConfig::Off ==> !d.decorated(id),
        !d.window(id).fullscreen && d.settings.decoration_mode == DecorationModeConfig::Auto ==> (
        d.decorated(id) <==> d.settings.server_side_decorations && d.window(id).wants_decoration),
{
}

/// A frame takes the border on every side, and the titlebar on top where the
/// layout is not tiled.
pub proof fn frames_take_what_the_settings_say(d: DesktopModel, id: WindowId)
    requires
        d.settings.wf(),
    ensures
        ({
            let insets = d.insets(id);
            let border = d.settings.border_width;
            let bar = if d.settings.layout == WindowLayout::Tiling {
                0
            } else {
                d.settings.titlebar_height as int
            };
            &&& d.decorated(id) ==> insets.left == border && insets.top == border + bar
                && insets.horizontal == 2 * border && insets.vertical == 2 * border + bar
            &&& !d.decorated(id) ==> insets.left == 0 && insets.top == 0 && insets.horizontal == 0
                && insets.vertical == 0
        }),
{
}

/// A window floats if its rule says so, and does not if its rule says that;
/// without a rule the layout decides.
pub proof fn rules_decide_what_floats(d: DesktopModel, id: WindowId)
    requires
        d.has(id),
    ensures
        d.window(id).floating == Some(true) ==> d.floats(id),
        d.window(id).floating == Some(false) ==> !d.floats(id),
        d.window(id).floating is None ==> (d.floats(id) <==> d.settings.layout
            == WindowLayout::Floating),
{
}

/// The layout arranges the windows of a workspace that are on the screen,
/// neither fullscreen nor floating.
pub open spec fn arranged(d: DesktopModel, w: ManagedWindow, workspace: u64) -> bool {
    w.workspace == workspace && w.mapped && w.minimized is None && !w.fullscreen && !d.floats(w.id)
}

/// Exactly the windows that the layout arranges are tiled, the oldest of them
/// as the master.
pub proof fn the_oldest_window_is_the_master(d: DesktopModel, workspace: u64, k: int)
    requires
        0 <= k < d.windows.len(),
    ensures
        d.tiled_windows(workspace).contains(d.windows[k]) <==> arranged(d, d.windows[k], workspace),
        arranged(d, d.windows[k], workspace) && (forall|j: int|
            0 <= j < k ==> !arranged(d, #[trigger] d.windows[j], workspace))
            ==> d.tiled_windows(workspace).len() > 0 && d.tiled_windows(workspace)[0]
            == d.windows[k],
{
    let keep = |w: ManagedWindow| d.tiled(w, workspace);
    assert(d.windows.contains(d.windows[k]));
    seqs::lemma_filter_contains(d.windows, keep, d.windows[k]);
    if arranged(d, d.windows[k], workspace) && (forall|j: int|
        0 <= j < k ==> !arranged(d, #[trigger] d.windows[j], workspace)) {
        lemma_first_kept(d.windows, keep, k);
    }
}

proof fn lemma_first_kept<T>(s: Seq<T>, keep: spec_fn(T) -> bool, k: int)
    requires
        0 <= k < s.len(),
        keep(s[k]),
        forall|j: int| 0 <= j < k ==> !keep(#[trigger] s[j]),
    ensures
        s.filter(keep).len() > 0,
        s.filter(keep)[0] == s[k],
    decreases s.len(),
{
    reveal(Seq::filter);
    let rest = s.drop_last();
    if k < s.len() - 1 {
        lemma_first_kept(rest, keep, k);
    } else {
        lemma_nothing_kept(rest, keep);
    }
}

proof fn lemma_nothing_kept<T>(s: Seq<T>, keep: spec_fn(T) -> bool)
    requires
        forall|j: int| 0 <= j < s.len() ==> !keep(#[trigger] s[j]),
    ensures
        s.filter(keep).len() == 0,
    decreases s.len(),
{
    reveal(Seq::filter);
    if s.len() > 0 {
        lemma_nothing_kept(s.drop_last(), keep);
    }
}

/// Arranging a workspace puts the frame of every tiled window into its tile of
/// the padded work area.
pub proof fn tiled_frames_fill_their_tiles(d: DesktopModel, workspace: u64, o: int, i: int)
    requires
        d.wf(),
        home(d, workspace, o),
        d.outputs.len() <= usize::MAX,
        0 <= i < d.tiled_windows(workspace).len(),
    ensures
        ({
            let windows = d.tiled_windows(workspace);
            let id = windows[i].id;
            let output = d.outputs[o];
            let full = Rect {
                x: (output.geometry.x + output.zone.x) as i32,
                y: (output.geometry.y + output.zone.y) as i32,
                width: output.zone.width,
                height: output.zone.height,
            };
            let tile = layout::tile(
                layout::padded(full, d.settings.work_area_padding as int).rect(),
                windows.len() as int,
                layout::usable_gap(full, d.settings.gap as int),
                d.settings.master_ratio,
                i,
            );
            let place = d.retile(workspace).window(id).place;
            &&& place is Some
            &&& place->0.x - d.insets(id).left == tile.x
            &&& place->0.y - d.insets(id).top == tile.y
        }),
{
    windows_go_where_their_workspace_is_shown(d, workspace, o);
    the_work_area_is_the_zone_on_the_output(d, o);
    let windows = d.tiled_windows(workspace);
    seqs::lemma_filter_len(d.windows, |w: ManagedWindow| d.tiled(w, workspace));
    let state = d.outputs[o];
    invariants::lemma_room(state.geometry, state.zone, d.windows.len(), windows.len());
    let full = d.work_area(o);
    layout::lemma_tiles_fit(
        full,
        d.settings.work_area_padding as int,
        d.settings.gap as int,
        d.settings.master_ratio,
        windows.len() as int,
    );
    super::tiled_windows_get_their_tiles(d, workspace, i);
    let tile = layout::tile(
        layout::padded(full, d.settings.work_area_padding as int).rect(),
        windows.len() as int,
        layout::usable_gap(full, d.settings.gap as int),
        d.settings.master_ratio,
        i,
    );
    assert(layout::roomy_box(tile));
    assert(tile.fits());
}

/// A floating window whose rules give it a place opens there, on the workspace
/// that its rules give it.
pub proof fn floating_windows_open_where_their_rules_say(
    d: DesktopModel,
    id: WindowId,
    workspace: u64,
    named: Option<int>,
    location: Location,
    now: u64,
)
    requires
        d.wf(),
        d.has(id),
        d.floats(id),
        !d.window(id).mapped,
    ensures
        ({
            let opened = d.map_window(id, workspace, named, Some(location), now);
            &&& opened.has(id)
            &&& opened.window(id).mapped
            &&& opened.window(id).workspace == workspace
            &&& opened.window(id).place == Some(location)
        }),
{
    let told = d.emit(Effect::ListForeign { id });
    invariants::lemma_emit(d, Effect::ListForeign { id });
    invariants::lemma_listed(d, id);
    let w = ManagedWindow {
        mapped: true,
        workspace,
        opened_at: if d.settings.animations {
            Some(now)
        } else {
            None
        },
        ..d.window(id)
    };
    invariants::lemma_with(told, w);
    let set = told.with(w);
    assert(set.has(id));
    assert(set.floats(id));
    invariants::lemma_put(set, id, location);
    let put = set.put(id, location);
    invariants::lemma_rearranged_window(set, put, id);
    invariants::lemma_emit(put, Effect::WindowOpened { id });
    let one = put.emit(Effect::WindowOpened { id });
    invariants::lemma_emit(one, Effect::WorkspacesChanged);
    let two = one.emit(Effect::WorkspacesChanged);
    assert(two.floats(id));
    super::arranging_leaves_other_windows_alone(two, workspace, id);
    invariants::lemma_retile(two, workspace);
    let mapped = two.retile(workspace);
    let opened = d.map_window(id, workspace, named, Some(location), now);
    assert(opened.windows == mapped.windows);
}

/// A new window is told the size that its rules give it if it floats: as wide
/// and as high as they say. Without one it is told the default size, or keeps
/// its own where that is fixed.
pub proof fn new_floating_windows_are_told_their_size(
    d: DesktopModel,
    id: WindowId,
    rule: RuleOutcome,
    fixed_size: bool,
)
    requires
        d.wf(),
        d.has(id),
        rule.floating == Some(true) || (rule.floating is None && d.settings.layout
            == WindowLayout::Floating),
    ensures
        ({
            let told = d.configure_new(id, rule, fixed_size);
            &&& rule.size matches Some(size) ==> told.effects.contains(
                Effect::ProposeSize { id, size: Some(Size { w: size.w, h: size.h }) },
            )
            &&& rule.size is None && !fixed_size ==> told.effects.contains(
                Effect::ProposeSize { id, size: Some(d.settings.default_size) },
            )
            &&& rule.size is None && fixed_size ==> told.effects.contains(
                Effect::ProposeSize { id, size: None },
            )
            &&& told.effects.last() == Effect::SendConfigure { id }
        }),
{
    invariants::lemma_listed(d, id);
    invariants::lemma_with(d, d.ruled(id, rule));
    let decided = match rule.decoration {
        Some(server) => d.emit(Effect::SetDecorationMode { id, server }),
        None => d,
    };
    let known = decided.with(d.ruled(id, rule));
    assert(known.windows == d.with(d.ruled(id, rule)).windows);
    assert(d.with(d.ruled(id, rule)).has(id));
    assert(known.has(id));
    assert(known.window(id) == d.ruled(id, rule));
    assert(known.floats(id));
    let told = d.configure_new(id, rule, fixed_size);
    let n = known.effects.len() as int;
    let size = match rule.size {
        Some(size) => Some(size),
        None => if fixed_size {
            None
        } else {
            Some(d.settings.default_size)
        },
    };
    assert(told.effects[n] == Effect::ProposeSize { id, size });
}

/// A new window that is tiled is told what the padding and its frame leave of
/// the work area of the focused output.
pub proof fn new_tiled_windows_are_told_the_work_area(
    d: DesktopModel,
    id: WindowId,
    rule: RuleOutcome,
    fixed_size: bool,
    o: usize,
)
    requires
        d.wf(),
        d.has(id),
        rule.floating == Some(false) || (rule.floating is None && d.settings.layout
            == WindowLayout::Tiling),
        d.focused_output == Some(o),
    ensures
        ({
            let told = d.configure_new(id, rule, fixed_size);
            let insets = told.insets(id);
            let zone = d.outputs[o as int].zone;
            let padding = d.settings.work_area_padding;
            let w = zone.width - 2 * padding - insets.horizontal;
            let h = zone.height - 2 * padding - insets.vertical;
            &&& w >= 1 && h >= 1 ==> told.effects.contains(
                Effect::ProposeSize { id, size: Some(Size { w: w as i32, h: h as i32 }) },
            )
            &&& told.effects.contains(Effect::SetTiledState { id })
            &&& told.effects.last() == Effect::SendConfigure { id }
        }),
{
    invariants::lemma_listed(d, id);
    invariants::lemma_with(d, d.ruled(id, rule));
    let decided = match rule.decoration {
        Some(server) => d.emit(Effect::SetDecorationMode { id, server }),
        None => d,
    };
    let known = decided.with(d.ruled(id, rule));
    assert(known.windows == d.with(d.ruled(id, rule)).windows);
    assert(d.with(d.ruled(id, rule)).has(id));
    assert(known.has(id));
    assert(known.window(id) == d.ruled(id, rule));
    assert(!known.floats(id));
    let told = d.configure_new(id, rule, fixed_size);
    assert(told.windows == known.windows);
    assert(told.insets(id) == known.insets(id));
    let n = known.effects.len() as int;
    assert(told.effects[n] == Effect::ProposeSize {
        id,
        size: Some(known.tiled_size(id, o as int)),
    });
    assert(told.effects[n + 1] == Effect::SetTiledState { id });
}

/// A new window gets the settings that its rules give it, and keeps the rest.
pub proof fn rules_reach_the_window(
    d: DesktopModel,
    id: WindowId,
    rule: RuleOutcome,
    fixed_size: bool,
)
    requires
        d.wf(),
        d.has(id),
    ensures
        ({
            let told = d.configure_new(id, rule, fixed_size);
            let before = d.window(id);
            let after = told.window(id);
            &&& told.has(id)
            &&& after.floating == rule.floating
            &&& after.opacity == rule.opacity
            &&& after.always_on_top == rule.always_on_top
            &&& after.decoration == rule.decoration
            &&& rule.decoration matches Some(server) ==> after.wants_decoration == server
                && told.effects.contains(Effect::SetDecorationMode { id, server })
            &&& rule.decoration is None ==> after.wants_decoration == before.wants_decoration
            &&& after.workspace == before.workspace && after.mapped == before.mapped && after.size
                == before.size && after.place == before.place
        }),
{
    invariants::lemma_listed(d, id);
    invariants::lemma_with(d, d.ruled(id, rule));
    assert(d.with(d.ruled(id, rule)).has(id));
    let told = d.configure_new(id, rule, fixed_size);
    assert(told.windows == d.with(d.ruled(id, rule)).windows);
    if let Some(server) = rule.decoration {
        let n = d.effects.len() as int;
        assert(told.effects[n] == Effect::SetDecorationMode { id, server });
    }
}

/// A request to move and resize is met exactly if the size is one and the
/// window is on the screen: then it goes there and is asked for that size.
pub proof fn requested_geometry_is_taken_over(d: DesktopModel, id: WindowId, rect: Rect)
    requires
        d.wf(),
    ensures
        ({
            let (next, done) = d.move_resize(id, rect);
            &&& done <==> rect.width > 0 && rect.height > 0 && d.has(id) && d.window(id).mapped
            &&& !done ==> next == d
            &&& done ==> next.window(id).place == Some(Location { x: rect.x, y: rect.y })
                && next.effects.contains(
                Effect::Configure { id, size: Some(Size { w: rect.width, h: rect.height }) },
            )
        }),
{
    if d.move_resize(id, rect).1 {
        lemma_configured(d, id, rect);
        let next = d.move_resize(id, rect).0;
        assert(next.effects[d.effects.len() as int] == Effect::Configure {
            id,
            size: Some(Size { w: rect.width, h: rect.height }),
        });
    }
}

/// Only a floating window that is on the desktop and not fullscreen is moved
/// or resized with the pointer. Moving starts where it is, resizing from the
/// geometry that it has; a maximized window starts at the pointer.
pub proof fn pointers_move_floating_windows_only(
    d: DesktopModel,
    id: WindowId,
    x: i32,
    edges: ResizeEdges,
)
    requires
        d.has(id),
    ensures
        d.begin_move(id, x).1 is Some <==> d.window(id).place is Some && d.floats(id) && !d.window(
            id,
        ).fullscreen,
        d.begin_move(id, x).1 matches Some(start) ==> start.y == d.window(id).place->0.y && (if
        d.window(id).maximized {
            start.x == x
        } else {
            start.x == d.window(id).place->0.x
        }),
        d.begin_move(id, x).1 is None ==> d.begin_move(id, x).0 == d,
        d.begin_resize(id, edges).1 is Some <==> d.window(id).place is Some && d.floats(id)
            && !d.window(id).fullscreen && (edges.top || edges.bottom || edges.left || edges.right),
        d.begin_resize(id, edges).1 matches Some(anchor) ==> anchor.edges == edges
            && anchor.initial.x == d.window(id).place->0.x && anchor.initial.y == d.window(
            id,
        ).place->0.y && anchor.initial.width == d.window(id).size.w && anchor.initial.height
            == d.window(id).size.h,
        d.begin_resize(id, edges).1 is None ==> d.begin_resize(id, edges).0 == d,
{
}

/// While a window is resized, the edges that are not dragged stay where they
/// were, whatever size the client draws.
pub proof fn resizing_keeps_the_other_edges(d: DesktopModel, id: WindowId)
    requires
        d.wf(),
        d.has(id),
        d.window(id).resize is Some,
        d.window(id).resize->0.anchor.places(d.window(id).size),
    ensures
        ({
            let next = d.apply_resize(id);
            let anchor = d.window(id).resize->0.anchor;
            let size = d.window(id).size;
            let place = next.window(id).place;
            &&& place is Some
            &&& anchor.edges.left ==> place->0.x + size.w == anchor.initial.x + anchor.initial.width
            &&& !anchor.edges.left ==> place->0.x == anchor.initial.x
            &&& anchor.edges.top ==> place->0.y + size.h == anchor.initial.y + anchor.initial.height
            &&& !anchor.edges.top ==> place->0.y == anchor.initial.y
            &&& d.window(id).resize->0.active ==> next.window(id).resize == d.window(id).resize
            &&& !d.window(id).resize->0.active ==> next.window(id).resize is None
        }),
{
    let pending = d.window(id).resize->0;
    let location = pending.anchor.location(d.window(id).size);
    invariants::lemma_listed(d, id);
    if pending.active {
        invariants::lemma_put(d, id, location);
        invariants::lemma_rearranged_window(d, d.put(id, location), id);
    } else {
        let w = ManagedWindow { resize: None, ..d.window(id) };
        invariants::lemma_with(d, w);
        let settled = d.with(w);
        assert(settled.has(id));
        invariants::lemma_put(settled, id, location);
        let put = settled.put(id, location);
        invariants::lemma_rearranged_window(settled, put, id);
        invariants::lemma_report(put, id);
        invariants::lemma_rearranged_window(put, put.report_geometry(id), id);
        assert(d.apply_resize(id).windows == put.windows);
    }
}

/// A position is on the output that covers it; of several, on the one that was
/// added last. The output under the pointer gets the focus, by its name.
pub proof fn positions_are_on_the_latest_output(d: DesktopModel, p: Point, o: int)
    requires
        d.wf(),
        d.outputs.len() <= usize::MAX,
        0 <= o < d.outputs.len(),
        super::frames::on(d.outputs[o].geometry, p),
        forall|j: int|
            o < j < d.outputs.len() ==> !super::frames::on((#[trigger] d.outputs[j]).geometry, p),
    ensures
        d.output_at(p) == Some(o),
        d.focus_output_at(p).focused_output is Some,
        d.focus_output_at(p).focused_output->0 <= o,
        d.output_names[d.focus_output_at(p).focused_output->0 as int] == d.output_names[o],
{
    lemma_last_at(d, p, o, d.outputs.len());
    invariants::lemma_output_named(d.output_names, d.output_names[o], 0);
}

proof fn lemma_last_at(d: DesktopModel, p: Point, o: int, n: nat)
    requires
        0 <= o < n <= d.outputs.len(),
        super::frames::on(d.outputs[o].geometry, p),
        forall|j: int|
            o < j < d.outputs.len() ==> !super::frames::on((#[trigger] d.outputs[j]).geometry, p),
    ensures
        d.output_below(p, n) == Some(o),
    decreases n,
{
    if o < n - 1 {
        assert(!super::frames::on(d.outputs[n - 1].geometry, p));
        lemma_last_at(d, p, o, (n - 1) as nat);
    }
}

/// A position on no output leaves the focus alone.
pub proof fn positions_off_all_outputs_change_nothing(d: DesktopModel, p: Point)
    requires
        forall|j: int|
            0 <= j < d.outputs.len() ==> !super::frames::on((#[trigger] d.outputs[j]).geometry, p),
    ensures
        d.output_at(p) is None,
        d.focus_output_at(p) == d,
{
    lemma_none_at(d, p, d.outputs.len());
}

proof fn lemma_none_at(d: DesktopModel, p: Point, n: nat)
    requires
        n <= d.outputs.len(),
        forall|j: int|
            0 <= j < d.outputs.len() ==> !super::frames::on((#[trigger] d.outputs[j]).geometry, p),
    ensures
        d.output_below(p, n) is None,
    decreases n,
{
    if n > 0 {
        assert(!super::frames::on(d.outputs[n - 1].geometry, p));
        lemma_none_at(d, p, (n - 1) as nat);
    }
}

/// A new window gets a number that no window had, belongs to the workspace on
/// the focused output, and is not shown yet.
pub proof fn new_windows_join_the_focused_workspace(d: DesktopModel, o: usize)
    requires
        d.wf(),
        d.has_room(),
        d.focused_output == Some(o),
    ensures
        ({
            let (next, id) = d.new_toplevel();
            &&& !d.has(id)
            &&& next.has(id)
            &&& next.window(id).workspace == d.outputs[o as int].workspace
            &&& !next.window(id).mapped && next.window(id).place is None
            &&& forall|x: WindowId| d.has(x) ==> #[trigger] next.has(x)
        }),
{
    invariants::lemma_new_toplevel(d);
    let (next, id) = d.new_toplevel();
    invariants::lemma_listed(next, id);
    let k = model::place_in(next.windows, id);
    if k < d.windows.len() {
        assert(d.windows[k].id == id);
        assert(model::listed(d.windows, id));
    }
    assert forall|x: WindowId| d.has(x) implies #[trigger] next.has(x) by {
        invariants::lemma_listed(d, x);
        let i = model::place_in(d.windows, x);
        assert(next.windows[i].id == x);
    }
}

/// An opening or switching animation runs for its duration in milliseconds,
/// measured in nanoseconds, and not at all where animations are off.
pub proof fn animations_run_for_their_duration(d: DesktopModel, now: u64, k: int, o: int)
    requires
        0 <= k < d.windows.len(),
        0 <= o < d.outputs.len(),
    ensures
        ({
            let next = d.pruned(now);
            &&& next.windows.len() == d.windows.len()
            &&& next.windows[k].id == d.windows[k].id
            &&& next.windows[k].opened_at == (match d.windows[k].opened_at {
                Some(at) if d.settings.animations && d.settings.window_open_ms > 0 && now < at
                    + d.settings.window_open_ms * 1_000_000 => Some(at),
                _ => None,
            })
            &&& next.outputs[o].animation == (match d.outputs[o].animation {
                Some(at) if d.settings.animations && d.settings.workspace_ms > 0 && now < at
                    + d.settings.workspace_ms * 1_000_000 => Some(at),
                _ => None,
            })
        }),
{
}

/// A new window without a position of its own is centered on what the panels
/// leave free: of the output that its rules name, or else of the one that shows
/// its workspace. Room for the titlebar is left above it.
pub proof fn new_windows_are_centered_between_the_panels(
    d: DesktopModel,
    id: WindowId,
    workspace: u64,
    named: Option<int>,
    o: int,
)
    requires
        d.wf(),
        0 <= o < d.outputs.len(),
        d.outputs.len() <= usize::MAX,
        named == Some(o) || (named is None && home(d, workspace, o)),
    ensures
        ({
            let area = d.initial_area(named, workspace);
            let output = d.outputs[o];
            &&& area.x == output.geometry.x + output.zone.x
            &&& area.y == output.geometry.y + output.zone.y
            &&& area.width == output.zone.width
            &&& area.height == output.zone.height
        }),
        ({
            let place = d.initial_place(id, named, workspace, None);
            let output = d.outputs[o];
            let size = d.window(id).size;
            let left = place.x - (output.geometry.x + output.zone.x);
            let right = output.zone.width - size.w - left;
            0 < size.w <= output.zone.width ==> 0 <= right - left <= 1
        }),
{
    the_work_area_is_the_zone_on_the_output(d, o);
    if named is None {
        windows_go_where_their_workspace_is_shown(d, workspace, o);
    }
    let state = d.outputs[o];
    invariants::lemma_room(state.geometry, state.zone, d.windows.len(), 0);
}

} // verus!
