//! Window management: the executable desktop.
//!
//! The desktop decides; the program around it performs the collected effects
//! in order and reports back what the clients and the keyboard did.

use vstd::prelude::*;

use crate::geometry::{Location, Point, Rect, Size};
use crate::geometry;
use crate::grabs::{ResizeAnchor, ResizeEdges};
use crate::invariants;
use crate::layout::Insets;
use crate::layout;
use crate::model::{
    DecorationModeConfig, DesktopModel, Effect, FocusTarget, KeyboardInteractivity, Layer,
    LayerState, ManagedWindow, OutputState, PendingResize, Settings, WindowId, WindowLayout,
    RuleOutcome, WorkspaceModel,
};
use crate::model;
use crate::seqs;
use crate::text;

verus! {

/// A workspace and what had the focus on it, the most recent window last.
#[derive(Debug)]
pub struct Workspace {
    pub id: u64,
    pub name: String,
    /// The output that shows it first, by configuration.
    pub output: Option<String>,
    pub focused_window: Option<WindowId>,
    pub focus_history: Vec<WindowId>,
}

impl View for Workspace {
    type V = WorkspaceModel;

    open spec fn view(&self) -> WorkspaceModel {
        WorkspaceModel {
            id: self.id,
            name: self.name@,
            output: text::option(self.output),
            focused_window: self.focused_window,
            focus_history: self.focus_history@,
        }
    }
}

/// The workspaces as the contracts see them.
pub open spec fn workspace_models(workspaces: Seq<Workspace>) -> Seq<WorkspaceModel> {
    workspaces.map_values(|w: Workspace| w@)
}

/// Windows, workspaces, outputs and focus.
#[derive(Debug)]
pub struct Desktop {
    settings: Settings,
    windows: Vec<ManagedWindow>,
    stack: Vec<WindowId>,
    workspaces: Vec<Workspace>,
    outputs: Vec<OutputState>,
    output_names: Vec<String>,
    focused_output: Option<usize>,
    layers: Vec<LayerState>,
    focused_window: Option<WindowId>,
    keyboard: FocusTarget,
    pointer: Option<Point>,
    next_window_id: u64,
    next_workspace_id: u64,
    redraw: bool,
    pointer_dirty: bool,
    effects: Vec<Effect>,
}

impl View for Desktop {
    type V = DesktopModel;

    closed spec fn view(&self) -> DesktopModel {
        DesktopModel {
            settings: self.settings,
            windows: self.windows@,
            stack: self.stack@,
            workspaces: workspace_models(self.workspaces@),
            outputs: self.outputs@,
            output_names: text::strings(self.output_names@),
            focused_output: self.focused_output,
            layers: self.layers@,
            focused_window: self.focused_window,
            keyboard: self.keyboard,
            pointer: self.pointer,
            next_window_id: self.next_window_id,
            next_workspace_id: self.next_workspace_id,
            redraw: self.redraw,
            pointer_dirty: self.pointer_dirty,
            effects: self.effects@,
        }
    }
}

impl Desktop {
    fn position(&self, id: WindowId) -> (r: Option<usize>)
        requires
            self@.ids_ok(),
        ensures
            match r {
                Some(i) => self@.has(id) && i < self@.windows.len() && i == model::place_in(
                    self@.windows,
                    id,
                ) && self@.windows[i as int].id == id && self@.window(id)
                    == self@.windows[i as int],
                None => !self@.has(id),
            },
    {
        for i in 0..self.windows.len()
            invariant
                self@.ids_ok(),
                forall|j: int| 0 <= j < i ==> (#[trigger] self@.windows[j]).id != id,
        {
            if self.windows[i].id == id {
                proof {
                    invariants::lemma_place_in(self@, i as int);
                }
                return Some(i);
            }
        }
        None
    }

    /// What is known of a window.
    pub fn find(&self, id: WindowId) -> (r: Option<ManagedWindow>)
        requires
            self@.wf(),
        ensures
            r == (if self@.has(id) {
                Some(self@.window(id))
            } else {
                None
            }),
    {
        match self.position(id) {
            Some(i) => Some(self.windows[i]),
            None => None,
        }
    }

    fn known(&self, id: WindowId) -> (r: ManagedWindow)
        requires
            self@.ids_ok(),
            self@.has(id),
        ensures
            r == self@.window(id),
            r.id == id,
    {
        match self.position(id) {
            Some(i) => self.windows[i],
            None => ManagedWindow {
                id,
                workspace: 0,
                mapped: false,
                opened_at: None,
                minimized: None,
                restore: None,
                fullscreen: false,
                maximized: false,
                resize: None,
                place: None,
                size: Size { w: 0, h: 0 },
                floating: None,
                always_on_top: None,
                decoration: None,
                opacity: None,
                wants_decoration: true,
            },
        }
    }

    fn set(&mut self, window: ManagedWindow)
        requires
            old(self)@.ids_ok(),
            old(self)@.has(window.id),
        ensures
            final(self)@ == old(self)@.with(window),
    {
        if let Some(i) = self.position(window.id) {
            self.windows.set(i, window);
        }
    }

    fn emit(&mut self, effect: Effect)
        ensures
            final(self)@ == old(self)@.emit(effect),
    {
        self.effects.push(effect);
    }

    /// Asks for the next frame to be painted.
    pub fn request_redraw(&mut self)
        ensures
            final(self)@ == old(self)@.repaint(),
    {
        self.redraw = true;
    }

    fn repaint_all(&mut self)
        ensures
            final(self)@ == old(self)@.repaint_all(),
    {
        self.redraw = true;
        self.pointer_dirty = true;
    }

    fn stack_without(&self, id: WindowId) -> (r: Vec<WindowId>)
        ensures
            r@ == model::without(self@.stack, id),
    {
        let ghost keep = model::other_than(id);
        let mut r: Vec<WindowId> = Vec::new();
        for i in 0..self.stack.len()
            invariant
                keep == model::other_than(id),
                r@ == self@.stack.take(i as int).filter(keep),
        {
            proof {
                seqs::lemma_filter_take(self@.stack, i as int, keep);
            }
            let entry = self.stack[i];
            if entry != id {
                r.push(entry);
            }
        }
        proof {
            seqs::lemma_take_all(self@.stack);
        }
        r
    }

    fn put(&mut self, id: WindowId, location: Location)
        requires
            old(self)@.wf(),
            old(self)@.has(id),
        ensures
            final(self)@ == old(self)@.put(id, location),
            final(self)@.wf(),
            invariants::rearranged(old(self)@, final(self)@),
    {
        proof {
            invariants::lemma_put(self@, id, location);
        }
        let mut stack = self.stack_without(id);
        stack.push(id);
        let window = self.known(id);
        self.set(ManagedWindow { place: Some(location), ..window });
        self.stack = stack;
        self.emit(Effect::Place { id, location });
    }

    fn take_off(&mut self, id: WindowId)
        requires
            old(self)@.wf(),
            old(self)@.has(id),
        ensures
            final(self)@ == old(self)@.take_off(id),
            final(self)@.wf(),
            invariants::rearranged(old(self)@, final(self)@),
    {
        proof {
            invariants::lemma_take_off(self@, id);
        }
        let stack = self.stack_without(id);
        let window = self.known(id);
        self.set(ManagedWindow { place: None, ..window });
        self.stack = stack;
        self.emit(Effect::Unplace { id });
    }

    fn is_stacked(&self, id: WindowId) -> (r: bool)
        ensures
            r == self@.stack.contains(id),
    {
        for i in 0..self.stack.len()
            invariant
                forall|j: int| 0 <= j < i ==> self@.stack[j] != id,
        {
            if self.stack[i] == id {
                assert(self@.stack[i as int] == id);
                return true;
            }
        }
        false
    }

    fn raise(&mut self, id: WindowId)
        requires
            old(self)@.wf(),
        ensures
            final(self)@ == old(self)@.raise(id),
            final(self)@.wf(),
            invariants::rearranged(old(self)@, final(self)@),
    {
        proof {
            invariants::lemma_raise(self@, id);
        }
        if self.is_stacked(id) {
            let mut stack = self.stack_without(id);
            stack.push(id);
            self.stack = stack;
            self.emit(Effect::Raise { id });
        }
    }

    fn report_geometry(&mut self, id: WindowId)
        requires
            old(self)@.wf(),
            old(self)@.has(id),
        ensures
            final(self)@ == old(self)@.report_geometry(id),
            final(self)@.wf(),
            invariants::rearranged(old(self)@, final(self)@),
    {
        proof {
            invariants::lemma_report(self@, id);
        }
        let window = self.known(id);
        if let Some(place) = window.place {
            self.emit(
                Effect::WindowGeometryChanged {
                    id,
                    geometry: Rect {
                        x: place.x,
                        y: place.y,
                        width: window.size.w,
                        height: window.size.h,
                    },
                },
            );
        }
    }

    /// Moves a window, unless it is there already.
    pub fn move_window(&mut self, id: WindowId, location: Location)
        requires
            old(self)@.wf(),
            old(self)@.has(id),
        ensures
            final(self)@ == old(self)@.move_window(id, location),
            final(self)@.wf(),
            invariants::rearranged(old(self)@, final(self)@),
    {
        proof {
            invariants::lemma_move_window(self@, id, location);
        }
        if self.known(id).place == Some(location) {
            return ;
        }
        let ghost before = self@;
        self.put(id, location);
        proof {
            invariants::lemma_rearranged_window(before, self@, id);
        }
        self.report_geometry(id);
        self.repaint_all();
    }

    fn configure_and_place(&mut self, id: WindowId, rect: Rect)
        requires
            old(self)@.wf(),
            old(self)@.has(id),
        ensures
            final(self)@ == old(self)@.configure_and_place(id, rect),
            final(self)@.wf(),
            invariants::rearranged(old(self)@, final(self)@),
    {
        let effect = Effect::Configure { id, size: Some(Size { w: rect.width, h: rect.height }) };
        proof {
            invariants::lemma_configure_and_place(self@, id, rect);
            invariants::lemma_emit(self@, effect);
        }
        self.emit(effect);
        self.move_window(id, Location { x: rect.x, y: rect.y });
    }

    /// Whether a window is arranged by hand.
    pub fn window_floats(&self, id: WindowId) -> (r: bool)
        requires
            self@.wf(),
        ensures
            r == self@.floats(id),
    {
        let rule = match self.position(id) {
            Some(i) => self.windows[i].floating,
            None => None,
        };
        rule == Some(true) || (self.settings.layout != WindowLayout::Tiling && rule != Some(false))
    }

    /// Whether the compositor draws a frame around a window.
    pub fn window_has_server_decoration(&self, id: WindowId) -> (r: bool)
        requires
            self@.wf(),
        ensures
            r == self@.decorated(id),
    {
        let window = self.find(id);
        if let Some(window) = window {
            if window.fullscreen {
                return false;
            }
        }
        match self.settings.decoration_mode {
            DecorationModeConfig::Server => true,
            DecorationModeConfig::Client => false,
            DecorationModeConfig::Off => false,
            DecorationModeConfig::Auto => match window {
                Some(window) => self.settings.server_side_decorations && window.wants_decoration,
                None => false,
            },
        }
    }

    /// The space that a window's frame takes.
    pub fn frame_insets(&self, id: WindowId) -> (r: Insets)
        requires
            self@.wf(),
        ensures
            r == self@.insets(id),
    {
        if !self.window_has_server_decoration(id) {
            return Insets { horizontal: 0, vertical: 0, left: 0, top: 0 };
        }
        let titlebar: i32 = if self.settings.layout == WindowLayout::Tiling {
            0
        } else {
            self.settings.titlebar_height
        };
        let border: i32 = self.settings.border_width;
        Insets {
            horizontal: border * 2,
            vertical: border * 2 + titlebar,
            left: border,
            top: border + titlebar,
        }
    }

    /// The workspace on the focused output.
    pub fn focused_workspace_id(&self) -> (r: u64)
        requires
            self@.wf(),
        ensures
            r == self@.focused_workspace(),
    {
        match self.focused_output {
            Some(output) => self.outputs[output].workspace,
            None => 1,
        }
    }

    fn current_output(&self) -> (r: Option<usize>)
        requires
            self@.wf(),
        ensures
            match r {
                Some(output) => output < self@.outputs.len() && self@.current_output() == Some(
                    output as int,
                ),
                None => self@.current_output() is None,
            },
    {
        match self.focused_output {
            Some(output) => Some(output),
            None => None,
        }
    }

    fn output_showing(&self, workspace: u64) -> (r: Option<usize>)
        ensures
            match r {
                Some(output) => output < self@.outputs.len() && model::output_showing(
                    self@.outputs,
                    workspace,
                    0,
                ) == Some(output as int),
                None => model::output_showing(self@.outputs, workspace, 0) is None,
            },
    {
        let mut i: usize = 0;
        while i < self.outputs.len()
            invariant
                i <= self@.outputs.len(),
                model::output_showing(self@.outputs, workspace, 0) == model::output_showing(
                    self@.outputs,
                    workspace,
                    i as int,
                ),
            decreases self@.outputs.len() - i,
        {
            if self.outputs[i].workspace == workspace {
                return Some(i);
            }
            i = i + 1;
        }
        None
    }

    fn output_for_workspace(&self, workspace: u64) -> (r: Option<usize>)
        requires
            self@.wf(),
        ensures
            match r {
                Some(output) => output < self@.outputs.len() && self@.output_for_workspace(workspace)
                    == Some(output as int),
                None => self@.output_for_workspace(workspace) is None,
            },
    {
        match self.output_showing(workspace) {
            Some(output) => Some(output),
            None => self.current_output(),
        }
    }

    /// The part of an output that panels leave free.
    pub fn work_area_rect(&self, output: usize) -> (r: Rect)
        requires
            self@.wf(),
            output < self@.outputs.len(),
        ensures
            r == self@.work_area(output as int),
    {
        let state = self.outputs[output];
        proof {
            invariants::lemma_room(state.geometry, state.zone, self@.windows.len(), 0);
        }
        Rect {
            x: state.geometry.x + state.zone.x,
            y: state.geometry.y + state.zone.y,
            width: state.zone.width,
            height: state.zone.height,
        }
    }

    fn is_tiled(&self, window: ManagedWindow, workspace: u64) -> (r: bool)
        requires
            self@.wf(),
        ensures
            r == self@.tiled(window, workspace),
    {
        window.workspace == workspace && window.mapped && window.minimized.is_none()
            && !window.fullscreen && !self.window_floats(window.id)
    }

    fn tiled_windows(&self, workspace: u64) -> (r: Vec<ManagedWindow>)
        requires
            self@.wf(),
        ensures
            r@ == self@.tiled_windows(workspace),
    {
        let ghost keep = |w: ManagedWindow| self@.tiled(w, workspace);
        let mut r: Vec<ManagedWindow> = Vec::new();
        for i in 0..self.windows.len()
            invariant
                self@.wf(),
                keep == (|w: ManagedWindow| self@.tiled(w, workspace)),
                r@ == self@.windows.take(i as int).filter(keep),
        {
            proof {
                seqs::lemma_filter_take(self@.windows, i as int, keep);
            }
            let window = self.windows[i];
            if self.is_tiled(window, workspace) {
                r.push(window);
            }
        }
        proof {
            seqs::lemma_take_all(self@.windows);
        }
        r
    }

    /// Arranges a workspace: the first window is the master, the others are
    /// stacked beside it.
    pub fn retile(&mut self, workspace: u64)
        requires
            old(self)@.wf(),
        ensures
            final(self)@ == old(self)@.retile(workspace),
            final(self)@.wf(),
            invariants::rearranged(old(self)@, final(self)@),
    {
        proof {
            invariants::lemma_retile(self@, workspace);
        }
        let ghost start = self@;
        let windows = self.tiled_windows(workspace);
        if windows.len() == 0 {
            return ;
        }
        let output = match self.output_for_workspace(workspace) {
            Some(output) => output,
            None => {
                return ;
            },
        };
        let full = self.work_area_rect(output);
        let area = layout::tiled_area(full, self.settings.work_area_padding);
        let gap: i32 = layout::tile_gap(full, self.settings.gap);
        let ratio = self.settings.master_ratio;
        let ghost count = windows@.len() as int;
        proof {
            seqs::lemma_filter_len(start.windows, |w: ManagedWindow| start.tiled(w, workspace));
            let state = start.outputs[output as int];
            invariants::lemma_room(
                state.geometry,
                state.zone,
                start.windows.len(),
                count as nat,
            );
            layout::lemma_tiles_fit(
                full,
                start.settings.work_area_padding as int,
                start.settings.gap as int,
                ratio,
                count,
            );
        }
        let tiles = layout::master_stack(area, windows.len(), gap, ratio);
        for i in 0..windows.len()
            invariant
                start.wf(),
                self@.wf(),
                windows@ == start.tiled_windows(workspace),
                self@ == start.tile_first(windows@, full, i as nat),
                invariants::rearranged(start, self@),
                full == start.work_area(output as int),
                count == windows@.len(),
                tiles@.len() == count,
                layout::tiles_roomy(
                    layout::padded(full, start.settings.work_area_padding as int).rect(),
                    count,
                    layout::usable_gap(full, start.settings.gap as int),
                    start.settings.master_ratio,
                ),
                forall|k: int|
                    0 <= k < count ==> #[trigger] tiles@[k] == start.tile_of(full, count, k),
        {
            let id = windows[i].id;
            proof {
                invariants::lemma_tiled_listed(start, workspace, i as int);
                invariants::lemma_rearranged_window(start, self@, id);
            }
            let insets = self.frame_insets(id);
            assert(insets == start.insets(id));
            assert(tiles@[i as int] == start.tile_of(full, count, i as int));
            assert(layout::roomy_box(
                layout::tile(
                    layout::padded(full, start.settings.work_area_padding as int).rect(),
                    count,
                    layout::usable_gap(full, start.settings.gap as int),
                    start.settings.master_ratio,
                    i as int,
                ),
            ));
            let rect = layout::client_in_tile(tiles[i], insets);
            let ghost before = self@;
            self.configure_and_place(id, rect);
            proof {
                invariants::lemma_rearranged_trans(start, before, self@);
            }
        }
    }
}


/// The entries other than one.
fn entries_without(entries: &Vec<WindowId>, id: WindowId) -> (r: Vec<WindowId>)
    ensures
        r@ == model::without(entries@, id),
{
    let ghost keep = model::other_than(id);
    let mut r: Vec<WindowId> = Vec::new();
    for i in 0..entries.len()
        invariant
            keep == model::other_than(id),
            r@ == entries@.take(i as int).filter(keep),
    {
        proof {
            seqs::lemma_filter_take(entries@, i as int, keep);
        }
        let entry = entries[i];
        if entry != id {
            r.push(entry);
        }
    }
    proof {
        seqs::lemma_take_all(entries@);
    }
    r
}

/// The outputs with a name display a workspace.
fn switched(
    outputs: &Vec<OutputState>,
    names: &Vec<String>,
    name: &str,
    workspace: u64,
    now: Option<u64>,
) -> (r: Vec<OutputState>)
    requires
        outputs@.len() == names@.len(),
    ensures
        r@ == model::switched(outputs@, text::strings(names@), name@, workspace, now),
{
    let ghost wanted = model::switched(outputs@, text::strings(names@), name@, workspace, now);
    let mut r: Vec<OutputState> = Vec::new();
    for i in 0..outputs.len()
        invariant
            outputs@.len() == names@.len(),
            wanted == model::switched(outputs@, text::strings(names@), name@, workspace, now),
            r@ == wanted.take(i as int),
    {
        let state = outputs[i];
        assert(text::strings(names@)[i as int] == names@[i as int]@);
        if text::text_eq(names[i].as_str(), name) {
            let animation = if now.is_some() {
                now
            } else {
                state.animation
            };
            r.push(OutputState { workspace, animation, ..state });
        } else {
            r.push(state);
        }
        assert(r@ =~= wanted.take(i + 1));
    }
    proof {
        seqs::lemma_take_all(wanted);
    }
    r
}

/// Whether an output has room for so many windows.
fn room_for(geometry: Rect, zone: Rect, windows: usize) -> (r: bool)
    ensures
        r == model::room(geometry, zone, windows as nat),
{
    let x: i64 = geometry.x as i64 + zone.x as i64;
    let y: i64 = geometry.y as i64 + zone.y as i64;
    let least: i64 = i32::MIN as i64;
    let greatest: i64 = i32::MAX as i64;
    if geometry.width < 0 || geometry.height < 0 || zone.width < 0 || zone.height < 0 {
        return false;
    }
    if x - (model::HALF_WINDOW as i64) < least || y < least || y > greatest {
        return false;
    }
    if x + zone.width as i64 + model::FRAME_ROOM as i64 > greatest {
        return false;
    }
    if windows > 0x1000_0000 {
        assert(windows * (model::MAX_GAP + 1) > 0x10_0000_0000) by (nonlinear_arith)
            requires
                windows > 0x1000_0000,
                model::MAX_GAP == 512,
        ;
        return false;
    }
    let step: i64 = model::MAX_GAP as i64 + 1;
    assert(0 <= windows * step <= 0x1000_0000 * 513) by (nonlinear_arith)
        requires
            0 <= windows <= 0x1000_0000,
            step == 513,
    ;
    y + zone.height as i64 + windows as i64 * step + model::FRAME_ROOM as i64 <= greatest
}

impl Desktop {
    fn request_focus(&mut self, target: FocusTarget)
        requires
            old(self)@.wf(),
        ensures
            final(self)@ == old(self)@.request_focus(target),
            final(self)@.wf(),
            invariants::rearranged(old(self)@, final(self)@),
    {
        proof {
            invariants::lemma_request_focus(self@, target);
        }
        if self.keyboard != target {
            self.keyboard = target;
            self.emit(Effect::Focus { target });
        }
    }

    fn exclusive_layer(&self) -> (r: Option<u64>)
        ensures
            r == model::exclusive_layer(self@.layers, 0),
    {
        let mut i: usize = 0;
        while i < self.layers.len()
            invariant
                i <= self@.layers.len(),
                model::exclusive_layer(self@.layers, 0) == model::exclusive_layer(
                    self@.layers,
                    i as int,
                ),
            decreases self@.layers.len() - i,
        {
            let layer = self.layers[i];
            if (layer.layer == Layer::Top || layer.layer == Layer::Overlay) && layer.interactivity
                == KeyboardInteractivity::Exclusive && layer.configured {
                return Some(layer.id);
            }
            i = i + 1;
        }
        None
    }

    /// Moves the keyboard focus; a layer that takes the keyboard wins.
    pub fn set_keyboard_focus(&mut self, target: FocusTarget)
        requires
            old(self)@.wf(),
        ensures
            final(self)@ == old(self)@.set_keyboard_focus(target),
            final(self)@.wf(),
            invariants::rearranged(old(self)@, final(self)@),
    {
        match self.exclusive_layer() {
            Some(layer) => self.request_focus(FocusTarget::Layer(layer)),
            None => self.request_focus(target),
        }
    }

    /// Gives a window the focus.
    pub fn focus_window(&mut self, id: WindowId)
        requires
            old(self)@.wf(),
            old(self)@.has(id),
        ensures
            final(self)@ == old(self)@.focus_window(id),
            final(self)@.wf(),
            invariants::rearranged(old(self)@, final(self)@),
    {
        proof {
            invariants::lemma_focus_window(self@, id);
        }
        if self.settings.raise_on_focus || self.known(id).fullscreen {
            self.raise(id);
        }
        self.set_keyboard_focus(FocusTarget::Window(id));
        self.repaint_all();
    }

    fn find_workspace(&self, id: u64) -> (r: Option<usize>)
        ensures
            match r {
                Some(place) => place < self@.workspaces.len() && self@.workspace_place(id) == Some(
                    place as int,
                ) && self@.workspaces[place as int].id == id,
                None => self@.workspace_place(id) is None,
            },
    {
        let mut i: usize = 0;
        while i < self.workspaces.len()
            invariant
                i <= self@.workspaces.len(),
                self@.workspaces.len() == self.workspaces@.len(),
                self@.workspace_place(id) == model::workspace_from(
                    self@.workspaces,
                    id,
                    i as int,
                ),
            decreases self@.workspaces.len() - i,
        {
            assert(self@.workspaces[i as int] == self.workspaces@[i as int]@);
            if self.workspaces[i].id == id {
                return Some(i);
            }
            i = i + 1;
        }
        None
    }

    fn is_focusable(&self, id: WindowId, workspace: u64) -> (r: bool)
        requires
            self@.wf(),
        ensures
            r == self@.focusable(id, workspace),
    {
        if self.focused_window == Some(id) {
            return false;
        }
        match self.find(id) {
            Some(window) => window.mapped && window.minimized.is_none() && window.workspace
                == workspace,
            None => false,
        }
    }

    fn previous_focus(&self) -> (r: Option<WindowId>)
        requires
            self@.wf(),
        ensures
            r == self@.previous_focus(),
            r is Some ==> self@.has(r->0),
    {
        let workspace: u64 = self.focused_workspace_id();
        let place = match self.find_workspace(workspace) {
            Some(place) => place,
            None => {
                return None;
            },
        };
        let ghost history = self@.workspaces[place as int].focus_history;
        assert(self@.workspaces[place as int] == self.workspaces@[place as int]@);
        let mut n: usize = self.workspaces[place].focus_history.len();
        while n > 0
            invariant
                self@.wf(),
                place < self.workspaces@.len(),
                history == self.workspaces@[place as int].focus_history@,
                n <= history.len(),
                self@.previous_focus() == self@.last_focusable(history, workspace, n as nat),
            decreases n,
        {
            let id = self.workspaces[place].focus_history[n - 1];
            if self.is_focusable(id, workspace) {
                return Some(id);
            }
            n = n - 1;
        }
        None
    }

    fn focus_previous_window(&mut self)
        requires
            old(self)@.wf(),
        ensures
            final(self)@ == old(self)@.focus_previous(),
            final(self)@.wf(),
            invariants::rearranged(old(self)@, final(self)@),
    {
        match self.previous_focus() {
            Some(id) => self.focus_window(id),
            None => self.set_keyboard_focus(FocusTarget::Nobody),
        }
    }

    fn warp_pointer_to(&mut self, id: WindowId)
        requires
            old(self)@.wf(),
            old(self)@.has(id),
        ensures
            final(self)@ == old(self)@.warp_pointer(id),
            final(self)@.wf(),
            invariants::rearranged(old(self)@, final(self)@),
    {
        proof {
            invariants::lemma_warp_pointer(self@, id);
        }
        if !self.settings.warp_cursor {
            return ;
        }
        let window = self.known(id);
        if let Some(place) = window.place {
            if let Some(pointer) = self.pointer {
                let geometry = Rect {
                    x: place.x,
                    y: place.y,
                    width: window.size.w,
                    height: window.size.h,
                };
                if !geometry.contains(pointer) {
                    let x: i64 = 4 * geometry.x as i64 + 2 * geometry.width as i64;
                    let y: i64 = 4 * geometry.y as i64 + 2 * geometry.height as i64;
                    self.emit(Effect::WarpPointer { to: Point { x, y } });
                    self.request_redraw();
                }
            }
        }
    }

    fn focus_here(&mut self, id: WindowId)
        requires
            old(self)@.wf(),
            old(self)@.has(id),
        ensures
            final(self)@ == old(self)@.focus_here(id),
            final(self)@.wf(),
    {
        proof {
            invariants::lemma_focus_here(self@, id);
        }
        let window = self.known(id);
        if let Some(location) = window.minimized {
            let shown = ManagedWindow { minimized: None, ..window };
            proof {
                invariants::lemma_with(self@, shown);
            }
            let ghost before = self@;
            self.set(shown);
            assert(before.with(shown).has(id));
            let ghost set = self@;
            self.put(id, location);
            proof {
                invariants::lemma_rearranged_window(set, self@, id);
            }
            let ghost put = self@;
            self.retile(window.workspace);
            proof {
                invariants::lemma_rearranged_window(put, self@, id);
                invariants::lemma_emit(self@, Effect::WindowRestored { id });
            }
            self.emit(Effect::WindowRestored { id });
        }
        let ghost restored = self@;
        self.focus_window(id);
        proof {
            invariants::lemma_rearranged_window(restored, self@, id);
        }
        self.warp_pointer_to(id);
    }

    fn resolve_workspace_target(&self, id: u64) -> (r: Option<u64>)
        requires
            self@.wf(),
        ensures
            r == self@.workspace_target(id),
    {
        if self.find_workspace(id).is_some() {
            return Some(id);
        }
        if !self.settings.wrap_workspaces || self.settings.dynamic_workspaces {
            return None;
        }
        let count: u64 = self.settings.workspace_count;
        if id == 0 {
            Some(count)
        } else {
            Some((id - 1) % count + 1)
        }
    }

    fn topmost_window_on(&self, workspace: u64) -> (r: Option<WindowId>)
        requires
            self@.wf(),
        ensures
            r == self@.topmost(workspace),
            r is Some ==> self@.has(r->0),
    {
        let mut n: usize = self.stack.len();
        while n > 0
            invariant
                self@.wf(),
                n <= self@.stack.len(),
                self@.topmost(workspace) == self@.topmost_below(workspace, n as nat),
            decreases n,
        {
            let id = self.stack[n - 1];
            if let Some(window) = self.find(id) {
                if window.mapped && window.minimized.is_none() && window.workspace == workspace {
                    return Some(id);
                }
            }
            n = n - 1;
        }
        None
    }

    fn show(&mut self, output: usize, workspace: u64, now: u64)
        requires
            old(self)@.wf(),
            output < old(self)@.outputs.len(),
        ensures
            final(self)@ == old(self)@.show(output as int, workspace, now),
            final(self)@.wf(),
    {
        proof {
            invariants::lemma_show(self@, output as int, workspace, now);
        }
        self.outputs = switched(
            &self.outputs,
            &self.output_names,
            self.output_names[output].as_str(),
            workspace,
            Some(now),
        );
        self.emit(Effect::WorkspaceActivated { output, workspace });
    }

    fn workspace_focus(&self, workspace: u64) -> (r: Option<WindowId>)
        requires
            self@.wf(),
        ensures
            r == self@.workspace_focus(workspace),
    {
        if let Some(place) = self.find_workspace(workspace) {
            assert(self@.workspaces[place as int] == self.workspaces@[place as int]@);
            let focused = self.workspaces[place].focused_window;
            if focused.is_some() {
                return focused;
            }
        }
        self.topmost_window_on(workspace)
    }

    fn show_workspace(&mut self, output: usize, id: u64, now: u64)
        requires
            old(self)@.wf(),
            output < old(self)@.outputs.len(),
        ensures
            final(self)@ == old(self)@.show_workspace(output as int, id, now),
            final(self)@.wf(),
    {
        proof {
            invariants::lemma_show_workspace(self@, output as int, id, now);
        }
        let current: u64 = self.outputs[output].workspace;
        if let Some(other) = self.output_showing(id) {
            self.show(other, current, now);
        }
        self.show(output, id, now);
        let target = match self.workspace_focus(id) {
            Some(window) => match self.find(window) {
                Some(known) => if known.mapped {
                    Some(window)
                } else {
                    None
                },
                None => None,
            },
            None => None,
        };
        match target {
            Some(window) => self.focus_here(window),
            None => self.set_keyboard_focus(FocusTarget::Nobody),
        }
        self.repaint_all();
    }

    /// Switches the focused output to a workspace. An output that showed it
    /// gets the workspace that it replaces. `now` is the time in nanoseconds.
    pub fn switch_workspace(&mut self, id: u64, now: u64) -> (switched: bool)
        requires
            old(self)@.wf(),
        ensures
            (final(self)@, switched) == old(self)@.switch_workspace(id, now),
            final(self)@.wf(),
    {
        proof {
            invariants::lemma_switch_workspace(self@, id, now);
        }
        let target = match self.resolve_workspace_target(id) {
            Some(target) => target,
            None => {
                return false;
            },
        };
        let output = match self.current_output() {
            Some(output) => output,
            None => {
                return false;
            },
        };
        if target == self.outputs[output].workspace {
            return true;
        }
        self.show_workspace(output, target, now);
        true
    }

    fn note_focus(&mut self, place: usize, id: WindowId)
        requires
            place < old(self)@.workspaces.len(),
        ensures
            final(self)@ == old(self)@.with_workspace(
                place as int,
                WorkspaceModel {
                    focused_window: Some(id),
                    ..old(self)@.workspaces[place as int]
                },
            ),
    {
        let ghost before = self.workspaces@;
        assert(self@.workspaces[place as int] == before[place as int]@);
        self.workspaces[place].focused_window = Some(id);
        assert(workspace_models(self.workspaces@) =~= workspace_models(before).update(
            place as int,
            WorkspaceModel { focused_window: Some(id), ..before[place as int]@ },
        ));
    }

    /// Focuses a window, switching to its workspace if that is not shown.
    pub fn focus_window_by_id(&mut self, id: WindowId, now: u64) -> (focused: bool)
        requires
            old(self)@.wf(),
        ensures
            (final(self)@, focused) == old(self)@.focus_by_id(id, now),
            final(self)@.wf(),
    {
        proof {
            invariants::lemma_focus_by_id(self@, id, now);
        }
        let window = match self.find(id) {
            Some(window) => window,
            None => {
                return false;
            },
        };
        if !window.mapped {
            return false;
        }
        if window.workspace != self.focused_workspace_id() {
            if let Some(place) = self.find_workspace(window.workspace) {
                proof {
                    let ws = WorkspaceModel {
                        focused_window: Some(id),
                        ..self@.workspaces[place as int]
                    };
                    assert forall|x: WindowId| #[trigger]
                        ws.focus_history.contains(x) implies self@.has(x) by {
                        assert(self@.workspaces[place as int].focus_history.contains(x));
                    }
                    assert(self@.has(id));
                    invariants::lemma_with_workspace(self@, place as int, ws);
                }
                self.note_focus(place, id);
            }
            return self.switch_workspace(window.workspace, now);
        }
        self.focus_here(id);
        true
    }

    fn forget_in(&mut self, place: usize, id: WindowId)
        requires
            place < old(self)@.workspaces.len(),
        ensures
            final(self)@ == old(self)@.with_workspace(
                place as int,
                old(self)@.workspaces[place as int].forget(id),
            ),
    {
        let ghost before = self.workspaces@;
        assert(self@.workspaces[place as int] == before[place as int]@);
        let history = entries_without(&self.workspaces[place].focus_history, id);
        let last = if history.len() > 0 { Some(history[history.len() - 1]) } else { None };
        if self.workspaces[place].focused_window == Some(id) {
            self.workspaces[place].focused_window = last;
        }
        self.workspaces[place].focus_history = history;
        assert(workspace_models(self.workspaces@) =~= workspace_models(before).update(
            place as int,
            before[place as int]@.forget(id),
        ));
    }

    /// Moves a window to another workspace.
    pub fn move_window_to_workspace(&mut self, id: WindowId, workspace: u64) -> (moved: bool)
        requires
            old(self)@.wf(),
        ensures
            (final(self)@, moved) == old(self)@.move_to_workspace(id, workspace),
            final(self)@.wf(),
    {
        proof {
            invariants::lemma_move_to_workspace(self@, id, workspace);
        }
        if self.find_workspace(workspace).is_none() {
            return false;
        }
        let window = match self.find(id) {
            Some(window) => window,
            None => {
                return false;
            },
        };
        if window.workspace == workspace {
            return true;
        }
        let ghost start = self@;
        let previous: u64 = window.workspace;
        proof {
            invariants::lemma_listed(start, id);
        }
        if let Some(place) = self.find_workspace(previous) {
            self.forget_in(place, id);
        }
        proof {
            invariants::lemma_moved_out(start, id);
            let w = ManagedWindow { workspace, ..start.window(id) };
            invariants::lemma_with(self@, w);
        }
        self.set(ManagedWindow { workspace, ..window });
        self.retile(previous);
        self.retile(workspace);
        if self.focused_window == Some(id) {
            self.focus_previous_window();
        }
        self.repaint_all();
        self.emit(Effect::WorkspacesChanged);
        true
    }

    /// Takes a window off the desktop until it is focused again.
    pub fn minimize_window(&mut self, id: WindowId) -> (minimized: bool)
        requires
            old(self)@.wf(),
        ensures
            (final(self)@, minimized) == old(self)@.minimize(id),
            final(self)@.wf(),
    {
        proof {
            invariants::lemma_minimize(self@, id);
        }
        let window = match self.find(id) {
            Some(window) => window,
            None => {
                return false;
            },
        };
        let location = match window.place {
            Some(location) => location,
            None => {
                return window.minimized.is_some();
            },
        };
        let gone = ManagedWindow { minimized: Some(location), ..window };
        proof {
            invariants::lemma_listed(self@, id);
            invariants::lemma_with(self@, gone);
        }
        let ghost start = self@;
        self.set(gone);
        assert(start.with(gone).has(id));
        self.take_off(id);
        self.retile(window.workspace);
        if self.focused_window == Some(id) {
            self.focus_previous_window();
        }
        self.repaint_all();
        self.emit(Effect::WindowMinimized { id });
        true
    }

    fn remember_restore_geometry(&mut self, id: WindowId)
        requires
            old(self)@.wf(),
            old(self)@.has(id),
        ensures
            final(self)@ == old(self)@.remember_restore(id),
            final(self)@.wf(),
            final(self)@.has(id),
    {
        proof {
            invariants::lemma_remember_restore(self@, id);
        }
        let window = self.known(id);
        if window.restore.is_none() {
            let geometry = match window.place {
                Some(place) => Some(
                    Rect { x: place.x, y: place.y, width: window.size.w, height: window.size.h },
                ),
                None => None,
            };
            self.set(ManagedWindow { restore: geometry, ..window });
        }
    }

    fn restore_geometry(&mut self, id: WindowId)
        requires
            old(self)@.wf(),
            old(self)@.has(id),
        ensures
            final(self)@ == old(self)@.restore_geometry(id),
            final(self)@.wf(),
            final(self)@.has(id),
    {
        proof {
            invariants::lemma_restore_geometry(self@, id);
            invariants::lemma_listed(self@, id);
        }
        let window = self.known(id);
        let floats = self.window_floats(id);
        let taken = ManagedWindow { restore: None, ..window };
        proof {
            invariants::lemma_with(self@, taken);
        }
        let ghost start = self@;
        self.set(taken);
        assert(start.with(taken).has(id));
        match window.restore {
            Some(rect) if floats => self.configure_and_place(id, rect),
            _ => {
                proof {
                    invariants::lemma_emit(self@, Effect::Configure { id, size: None });
                }
                self.emit(Effect::Configure { id, size: None });
                self.retile(window.workspace);
            },
        }
    }

    fn apply_maximized_geometry(&mut self, id: WindowId)
        requires
            old(self)@.wf(),
            old(self)@.has(id),
        ensures
            final(self)@ == old(self)@.apply_maximized(id),
            final(self)@.wf(),
            invariants::rearranged(old(self)@, final(self)@),
    {
        proof {
            invariants::lemma_apply_maximized(self@, id);
        }
        let window = self.known(id);
        if let Some(output) = self.output_for_workspace(window.workspace) {
            proof {
                let state = self@.outputs[output as int];
                invariants::lemma_room(state.geometry, state.zone, self@.windows.len(), 0);
            }
            let area = self.work_area_rect(output);
            let insets = self.frame_insets(id);
            let rect = layout::client_in_tile(area, insets);
            self.configure_and_place(id, rect);
        }
    }

    fn apply_fullscreen_geometry(&mut self, id: WindowId)
        requires
            old(self)@.wf(),
            old(self)@.has(id),
        ensures
            final(self)@ == old(self)@.apply_fullscreen(id),
            final(self)@.wf(),
            invariants::rearranged(old(self)@, final(self)@),
    {
        proof {
            invariants::lemma_apply_fullscreen(self@, id);
        }
        let window = self.known(id);
        if let Some(output) = self.output_for_workspace(window.workspace) {
            let area = self.outputs[output].geometry;
            let effect = Effect::ConfigureFullscreen {
                id,
                area: Size { w: area.width, h: area.height },
            };
            proof {
                invariants::lemma_emit(self@, effect);
            }
            self.emit(effect);
            self.move_window(id, Location { x: area.x, y: area.y });
        }
    }

    /// Maximizes a window or takes that back. A fullscreen window stays as
    /// it is.
    pub fn set_maximized(&mut self, id: WindowId, maximized: bool) -> (done: bool)
        requires
            old(self)@.wf(),
        ensures
            (final(self)@, done) == old(self)@.set_maximized(id, maximized),
            final(self)@.wf(),
            old(self)@.has(id) ==> final(self)@.has(id),
    {
        proof {
            invariants::lemma_set_maximized(self@, id, maximized);
        }
        match self.find(id) {
            Some(window) => if window.fullscreen {
                return false;
            },
            None => {
                return false;
            },
        }
        if maximized {
            self.remember_restore_geometry(id);
        }
        let window = self.known(id);
        let marked = ManagedWindow { maximized, ..window };
        proof {
            invariants::lemma_with(self@, marked);
        }
        let ghost before = self@;
        self.set(marked);
        assert(before.with(marked).has(id));
        proof {
            invariants::lemma_emit(self@, Effect::SetMaximizedState { id, on: maximized });
        }
        self.emit(Effect::SetMaximizedState { id, on: maximized });
        if maximized {
            self.apply_maximized_geometry(id);
        } else {
            self.restore_geometry(id);
        }
        self.emit(Effect::WindowMaximized { id, maximized });
        true
    }

    /// Maximizes a window, or takes that back if it is maximized.
    pub fn toggle_maximize_window(&mut self, id: WindowId) -> (done: bool)
        requires
            old(self)@.wf(),
        ensures
            (final(self)@, done) == old(self)@.set_maximized(
                id,
                !(old(self)@.has(id) && old(self)@.window(id).maximized),
            ),
            final(self)@.wf(),
    {
        let maximized = match self.find(id) {
            Some(window) => window.maximized,
            None => false,
        };
        self.set_maximized(id, !maximized)
    }

    /// Makes a window cover its output or takes that back.
    pub fn set_fullscreen(&mut self, id: WindowId, fullscreen: bool)
        requires
            old(self)@.wf(),
        ensures
            final(self)@ == old(self)@.set_fullscreen(id, fullscreen),
            final(self)@.wf(),
    {
        proof {
            invariants::lemma_set_fullscreen(self@, id, fullscreen);
        }
        match self.find(id) {
            Some(window) => if window.fullscreen == fullscreen {
                self.emit(Effect::SendConfigure { id });
                return ;
            },
            None => {
                return ;
            },
        }
        if fullscreen {
            self.remember_restore_geometry(id);
        }
        let window = self.known(id);
        let marked = ManagedWindow { fullscreen, ..window };
        proof {
            invariants::lemma_with(self@, marked);
        }
        let ghost before = self@;
        self.set(marked);
        assert(before.with(marked).has(id));
        proof {
            invariants::lemma_emit(self@, Effect::SetFullscreenState { id, on: fullscreen });
        }
        self.emit(Effect::SetFullscreenState { id, on: fullscreen });
        if fullscreen {
            self.apply_fullscreen_geometry(id);
            self.raise(id);
        } else if window.maximized {
            self.apply_maximized_geometry(id);
        } else {
            self.restore_geometry(id);
        }
        self.request_redraw();
    }

    /// Moves and resizes a mapped window on request.
    pub fn move_resize_window(&mut self, id: WindowId, geometry: Rect) -> (done: bool)
        requires
            old(self)@.wf(),
        ensures
            (final(self)@, done) == old(self)@.move_resize(id, geometry),
            final(self)@.wf(),
    {
        if geometry.width <= 0 || geometry.height <= 0 {
            return false;
        }
        match self.find(id) {
            Some(window) => if !window.mapped {
                return false;
            },
            None => {
                return false;
            },
        }
        self.configure_and_place(id, geometry);
        true
    }

    /// Asks a mapped window to close.
    pub fn close_window_by_id(&mut self, id: WindowId) -> (asked: bool)
        requires
            old(self)@.wf(),
        ensures
            asked == (old(self)@.has(id) && old(self)@.window(id).mapped),
            final(self)@ == (if asked {
                old(self)@.emit(Effect::SendClose { id })
            } else {
                old(self)@
            }),
            final(self)@.wf(),
    {
        proof {
            invariants::lemma_emit(self@, Effect::SendClose { id });
        }
        match self.find(id) {
            Some(window) => {
                if window.mapped {
                    self.emit(Effect::SendClose { id });
                }
                window.mapped
            },
            None => false,
        }
    }

    /// Minimizes a mapped window.
    pub fn minimize_window_by_id(&mut self, id: WindowId) -> (minimized: bool)
        requires
            old(self)@.wf(),
        ensures
            (final(self)@, minimized) == (if old(self)@.has(id) && old(self)@.window(id).mapped {
                old(self)@.minimize(id)
            } else {
                (old(self)@, false)
            }),
            final(self)@.wf(),
    {
        match self.find(id) {
            Some(window) => if window.mapped {
                self.minimize_window(id)
            } else {
                false
            },
            None => false,
        }
    }

    /// Maximizes a mapped window, or takes that back.
    pub fn toggle_maximize_window_by_id(&mut self, id: WindowId) -> (done: bool)
        requires
            old(self)@.wf(),
        ensures
            (final(self)@, done) == (if old(self)@.has(id) && old(self)@.window(id).mapped {
                old(self)@.set_maximized(id, !old(self)@.window(id).maximized)
            } else {
                (old(self)@, false)
            }),
            final(self)@.wf(),
    {
        match self.find(id) {
            Some(window) => if window.mapped {
                self.set_maximized(id, !window.maximized)
            } else {
                false
            },
            None => false,
        }
    }

    /// Begins to move a window with the pointer. A maximized window goes back
    /// to its own size first, with its left edge at `x`. Returns where the
    /// window starts.
    pub fn begin_move(&mut self, id: WindowId, x: i32) -> (start: Option<Location>)
        requires
            old(self)@.wf(),
        ensures
            (final(self)@, start) == old(self)@.begin_move(id, x),
            final(self)@.wf(),
    {
        proof {
            invariants::lemma_begin_move(self@, id, x);
        }
        let window = match self.find(id) {
            Some(window) => window,
            None => {
                return None;
            },
        };
        if !self.window_floats(id) || window.fullscreen {
            return None;
        }
        match window.place {
            None => None,
            Some(place) => {
                if !window.maximized {
                    self.focus_window(id);
                    return Some(place);
                }
                let start = Location { x, y: place.y };
                self.set_maximized(id, false);
                let ghost before = self@;
                self.move_window(id, start);
                proof {
                    invariants::lemma_rearranged_window(before, self@, id);
                }
                self.focus_window(id);
                Some(start)
            },
        }
    }

    /// Begins to resize a window with the pointer.
    pub fn begin_resize(&mut self, id: WindowId, edges: ResizeEdges) -> (anchor: Option<
        ResizeAnchor,
    >)
        requires
            old(self)@.wf(),
        ensures
            (final(self)@, anchor) == old(self)@.begin_resize(id, edges),
            final(self)@.wf(),
    {
        proof {
            invariants::lemma_begin_resize(self@, id, edges);
        }
        let window = match self.find(id) {
            Some(window) => window,
            None => {
                return None;
            },
        };
        if edges.is_empty() || !self.window_floats(id) || window.fullscreen {
            return None;
        }
        match window.place {
            None => None,
            Some(place) => {
                let initial = Rect {
                    x: place.x,
                    y: place.y,
                    width: window.size.w,
                    height: window.size.h,
                };
                let anchor = ResizeAnchor { edges, initial };
                let resizing = ManagedWindow {
                    resize: Some(PendingResize { anchor, active: true }),
                    ..window
                };
                proof {
                    invariants::lemma_listed(self@, id);
                    invariants::lemma_with(self@, resizing);
                }
                let ghost before = self@;
                self.set(resizing);
                assert(before.with(resizing).has(id));
                self.focus_window(id);
                Some(anchor)
            },
        }
    }

    /// Ends a resize; the client may still catch up.
    pub fn finish_resize(&mut self, id: WindowId)
        requires
            old(self)@.wf(),
        ensures
            final(self)@ == old(self)@.finish_resize(id),
            final(self)@.wf(),
    {
        proof {
            invariants::lemma_finish_resize(self@, id);
        }
        let window = match self.find(id) {
            Some(window) => window,
            None => {
                return ;
            },
        };
        if let Some(pending) = window.resize {
            let ended = ManagedWindow {
                resize: Some(PendingResize { active: false, ..pending }),
                ..window
            };
            proof {
                invariants::lemma_listed(self@, id);
                invariants::lemma_with(self@, ended);
            }
            let ghost before = self@;
            self.set(ended);
            assert(before.with(ended).has(id));
        }
        self.report_geometry(id);
    }

    /// Keeps the anchored edges in place after the client drew a new size.
    pub fn apply_resize_anchor(&mut self, id: WindowId)
        requires
            old(self)@.wf(),
            old(self)@.has(id) && old(self)@.window(id).resize is Some ==> old(self)@.window(
                id,
            ).resize->0.anchor.places(old(self)@.window(id).size),
        ensures
            final(self)@ == old(self)@.apply_resize(id),
            final(self)@.wf(),
    {
        proof {
            invariants::lemma_apply_resize(self@, id);
        }
        let window = match self.find(id) {
            Some(window) => window,
            None => {
                return ;
            },
        };
        if let Some(pending) = window.resize {
            let location = pending.anchor.location_for(window.size);
            if pending.active {
                self.put(id, location);
            } else {
                let settled = ManagedWindow { resize: None, ..window };
                proof {
                    invariants::lemma_listed(self@, id);
                    invariants::lemma_with(self@, settled);
                }
                let ghost before = self@;
                self.set(settled);
                assert(before.with(settled).has(id));
                let ghost set = self@;
                self.put(id, location);
                proof {
                    invariants::lemma_rearranged_window(set, self@, id);
                }
                self.report_geometry(id);
            }
        }
    }
}


impl Desktop {
    /// A desktop without windows and outputs.
    pub fn new(settings: Settings, workspaces: Vec<Workspace>, next_workspace_id: u64) -> (r: Self)
        requires
            settings.wf(),
            forall|i: int, j: int|
                0 <= i < j < workspaces@.len() ==> (#[trigger] workspaces@[i]).id
                    != (#[trigger] workspaces@[j]).id,
            forall|i: int|
                0 <= i < workspaces@.len() ==> {
                    &&& (#[trigger] workspaces@[i]).id < next_workspace_id
                    &&& workspaces@[i].focused_window is None
                    &&& workspaces@[i].focus_history@.len() == 0
                },
        ensures
            r@ == (DesktopModel {
                settings,
                windows: Seq::empty(),
                stack: Seq::empty(),
                workspaces: workspace_models(workspaces@),
                outputs: Seq::empty(),
                output_names: Seq::empty(),
                focused_output: None,
                layers: Seq::empty(),
                focused_window: None,
                keyboard: FocusTarget::Nobody,
                pointer: None,
                next_window_id: 1,
                next_workspace_id,
                redraw: true,
                pointer_dirty: false,
                effects: Seq::empty(),
            }),
            r@.wf(),
    {
        let desktop = Desktop {
            settings,
            windows: Vec::new(),
            stack: Vec::new(),
            workspaces,
            outputs: Vec::new(),
            output_names: Vec::new(),
            focused_output: None,
            layers: Vec::new(),
            focused_window: None,
            keyboard: FocusTarget::Nobody,
            pointer: None,
            next_window_id: 1,
            next_workspace_id,
            redraw: true,
            pointer_dirty: false,
            effects: Vec::new(),
        };
        proof {
            let d = desktop@;
            assert(d.output_names =~= Seq::<Seq<char>>::empty());
            assert forall|i: int| 0 <= i < d.workspaces.len() implies #[trigger] d.workspaces[i]
                == workspaces@[i]@ by {}
            assert forall|i: int, j: int| 0 <= i < j < d.workspaces.len() implies (
            #[trigger] d.workspaces[i]).id != (#[trigger] d.workspaces[j]).id by {
                assert(workspaces@[i].id != workspaces@[j].id);
            }
            assert forall|i: int, x: WindowId|
                0 <= i < d.workspaces.len() && (
                #[trigger] d.workspaces[i]).focus_history.contains(x) implies #[trigger] d.has(x) by {
                assert(workspaces@[i].focus_history@.len() == 0);
            }
        }
        desktop
    }

    /// Hands out what is to be done.
    pub fn take_effects(&mut self) -> (effects: Vec<Effect>)
        ensures
            effects@ == old(self)@.effects,
            final(self)@ == (DesktopModel { effects: Seq::empty(), ..old(self)@ }),
            old(self)@.wf() ==> final(self)@.wf(),
    {
        proof {
            if self@.wf() {
                let next = DesktopModel { effects: Seq::empty(), ..self@ };
                invariants::lemma_same_but_focus(self@, next);
            }
        }
        let mut effects: Vec<Effect> = Vec::new();
        std::mem::swap(&mut effects, &mut self.effects);
        effects
    }

    /// Whether a frame was asked for; asks no more.
    pub fn take_redraw_request(&mut self) -> (r: bool)
        ensures
            r == old(self)@.redraw,
            final(self)@ == (DesktopModel { redraw: false, ..old(self)@ }),
            old(self)@.wf() ==> final(self)@.wf(),
    {
        proof {
            if self@.wf() {
                let next = DesktopModel { redraw: false, ..self@ };
                invariants::lemma_same_but_focus(self@, next);
            }
        }
        let r = self.redraw;
        self.redraw = false;
        r
    }

    /// Whether the pointer may be over another surface now; asks no more.
    pub fn take_pointer_dirty(&mut self) -> (r: bool)
        ensures
            r == old(self)@.pointer_dirty,
            final(self)@ == (DesktopModel { pointer_dirty: false, ..old(self)@ }),
            old(self)@.wf() ==> final(self)@.wf(),
    {
        proof {
            if self@.wf() {
                let next = DesktopModel { pointer_dirty: false, ..self@ };
                invariants::lemma_same_but_focus(self@, next);
            }
        }
        let r = self.pointer_dirty;
        self.pointer_dirty = false;
        r
    }

    /// Notes where the pointer is.
    pub fn pointer_moved(&mut self, pointer: Option<Point>)
        ensures
            final(self)@ == (DesktopModel { pointer, ..old(self)@ }),
            old(self)@.wf() ==> final(self)@.wf(),
    {
        proof {
            if self@.wf() {
                let next = DesktopModel { pointer, ..self@ };
                invariants::lemma_same_but_focus(self@, next);
            }
        }
        self.pointer = pointer;
    }

    /// The settings in force.
    pub fn settings(&self) -> (r: Settings)
        ensures
            r == self@.settings,
    {
        self.settings
    }

    /// Puts other settings in force, without arranging anything yet.
    pub fn set_settings(&mut self, settings: Settings)
        requires
            old(self)@.wf(),
            settings.wf(),
        ensures
            final(self)@ == (DesktopModel { settings, ..old(self)@ }),
            final(self)@.wf(),
    {
        proof {
            let next = DesktopModel { settings, ..self@ };
            invariants::lemma_same_homes(self@, next);
        }
        self.settings = settings;
    }

    /// The window that has the focus.
    pub fn focused_window(&self) -> (r: Option<WindowId>)
        ensures
            r == self@.focused_window,
    {
        self.focused_window
    }

    fn forget_everywhere(&mut self, id: WindowId)
        requires
            old(self)@.wf(),
        ensures
            final(self)@ == old(self)@.forgotten(id),
            final(self)@.wf(),
            invariants::unremembered(final(self)@, id),
    {
        proof {
            invariants::lemma_forgotten(self@, id);
        }
        let ghost start = self@;
        let count: usize = self.workspaces.len();
        for place in 0..count
            invariant
                count == start.workspaces.len(),
                start.workspaces.len() == self@.workspaces.len(),
                self@.workspaces.len() == self.workspaces@.len(),
                self@ == (DesktopModel { workspaces: self@.workspaces, ..start }),
                forall|i: int|
                    0 <= i < place ==> #[trigger] self@.workspaces[i]
                        == start.workspaces[i].forget(id),
                forall|i: int|
                    place <= i < start.workspaces.len() ==> #[trigger] self@.workspaces[i]
                        == start.workspaces[i],
        {
            self.forget_in(place, id);
        }
        assert(self@.workspaces =~= start.forgotten(id).workspaces);
    }

    fn refocus(&mut self, id: WindowId)
        requires
            old(self)@.wf(),
        ensures
            final(self)@ == old(self)@.refocus(id),
            final(self)@.wf(),
    {
        proof {
            invariants::lemma_refocus(self@, id);
        }
        if self.focused_window == Some(id) {
            proof {
                let cleared = DesktopModel { focused_window: None, ..self@ };
                invariants::lemma_same_but_focus(self@, cleared);
            }
            self.focused_window = None;
            if self.settings.focus_previous_on_close {
                self.focus_previous_window();
            } else {
                self.set_keyboard_focus(FocusTarget::Nobody);
            }
        }
        self.repaint_all();
    }

    /// Takes note of who has the keyboard now.
    pub fn keyboard_focus_changed(&mut self, target: FocusTarget, id: Option<WindowId>)
        requires
            old(self)@.wf(),
        ensures
            final(self)@ == old(self)@.focus_changed(target, id),
            final(self)@.wf(),
    {
        proof {
            invariants::lemma_focus_changed(self@, target, id);
        }
        let ghost start = self@;
        self.keyboard = target;
        if id == self.focused_window {
            return ;
        }
        self.focused_window = id;
        let ghost mapped = |w: ManagedWindow| w.mapped;
        let ghost told = |w: ManagedWindow| Effect::Activate { id: w.id, on: Some(w.id) == id };
        let count: usize = self.windows.len();
        for i in 0..count
            invariant
                count == start.windows.len(),
                mapped == (|w: ManagedWindow| w.mapped),
                told == (|w: ManagedWindow| Effect::Activate { id: w.id, on: Some(w.id) == id }),
                self@ == (DesktopModel {
                    keyboard: target,
                    focused_window: id,
                    effects: self@.effects,
                    ..start
                }),
                self@.effects == start.effects + start.windows.take(i as int).filter(
                    mapped,
                ).map_values(told),
        {
            let window = self.windows[i];
            proof {
                seqs::lemma_filter_take(start.windows, i as int, mapped);
            }
            if window.mapped {
                let ghost before = start.windows.take(i as int).filter(mapped);
                let effect = Effect::Activate { id: window.id, on: Some(window.id) == id };
                self.emit(effect);
                assert(before.push(window).map_values(told) =~= before.map_values(told).push(
                    effect,
                ));
                assert(start.effects + before.map_values(told).push(effect) =~= (start.effects
                    + before.map_values(told)).push(effect));
            }
        }
        proof {
            seqs::lemma_take_all(start.windows);
        }
        match id {
            Some(window) => {
                if let Some(known) = self.find_in(window) {
                    if let Some(place) = self.find_workspace(known.workspace) {
                        self.remember_in(place, window);
                    }
                }
                self.emit(Effect::WindowFocused { id: window });
            },
            None => self.emit(Effect::FocusCleared),
        }
        self.request_redraw();
    }

    fn find_in(&self, id: WindowId) -> (r: Option<ManagedWindow>)
        requires
            self@.ids_ok(),
        ensures
            r == (if self@.has(id) {
                Some(self@.window(id))
            } else {
                None
            }),
    {
        match self.position(id) {
            Some(i) => Some(self.windows[i]),
            None => None,
        }
    }

    fn remember_in(&mut self, place: usize, id: WindowId)
        requires
            place < old(self)@.workspaces.len(),
        ensures
            final(self)@ == old(self)@.with_workspace(
                place as int,
                old(self)@.workspaces[place as int].remember(id),
            ),
    {
        let ghost before = self.workspaces@;
        assert(self@.workspaces[place as int] == before[place as int]@);
        let mut history = entries_without(&self.workspaces[place].focus_history, id);
        history.push(id);
        self.workspaces[place].focused_window = Some(id);
        self.workspaces[place].focus_history = history;
        assert(workspace_models(self.workspaces@) =~= workspace_models(before).update(
            place as int,
            before[place as int]@.remember(id),
        ));
    }

    /// Adds a window that is not on the desktop yet.
    pub fn new_toplevel(&mut self) -> (id: WindowId)
        requires
            old(self)@.wf(),
            old(self)@.has_room(),
        ensures
            (final(self)@, id) == old(self)@.new_toplevel(),
            final(self)@.wf(),
    {
        proof {
            invariants::lemma_new_toplevel(self@);
        }
        let id = WindowId(self.next_window_id);
        let workspace: u64 = self.focused_workspace_id();
        self.next_window_id = self.next_window_id + 1;
        self.windows.push(
            ManagedWindow {
                id,
                workspace,
                mapped: false,
                opened_at: None,
                minimized: None,
                restore: None,
                fullscreen: false,
                maximized: false,
                resize: None,
                place: None,
                size: Size { w: 0, h: 0 },
                floating: None,
                always_on_top: None,
                decoration: None,
                opacity: None,
                wants_decoration: true,
            },
        );
        id
    }

    /// Whether there is room for one window more.
    pub fn has_room(&self) -> (r: bool)
        requires
            self@.wf(),
        ensures
            r == self@.has_room(),
    {
        if self.next_window_id == u64::MAX {
            return false;
        }
        let windows: usize = self.windows.len();
        if windows == usize::MAX {
            proof {
                assert(self@.windows.len() == windows);
            }
            return self.outputs.len() == 0;
        }
        for i in 0..self.outputs.len()
            invariant
                self@.wf(),
                windows == self@.windows.len(),
                windows < usize::MAX,
                forall|k: int|
                    0 <= k < i ==> model::room(
                        (#[trigger] self@.outputs[k]).geometry,
                        self@.outputs[k].zone,
                        self@.windows.len() + 1,
                    ),
        {
            let state = self.outputs[i];
            assert(self@.outputs[i as int] == state);
            if !room_for(state.geometry, state.zone, windows + 1) {
                return false;
            }
        }
        true
    }

    /// Whether an output with this geometry has room for all windows.
    pub fn output_fits(&self, geometry: Rect, zone: Rect) -> (r: bool)
        ensures
            r == model::room(geometry, zone, self@.windows.len()),
    {
        room_for(geometry, zone, self.windows.len())
    }

    /// Removes a window whose client is gone.
    pub fn toplevel_destroyed(&mut self, id: WindowId)
        requires
            old(self)@.wf(),
        ensures
            final(self)@ == old(self)@.destroy(id),
            final(self)@.wf(),
            !final(self)@.has(id),
    {
        proof {
            invariants::lemma_destroy(self@, id);
        }
        let window = match self.find(id) {
            Some(window) => window,
            None => {
                return ;
            },
        };
        let ghost start = self@;
        self.forget_everywhere(id);
        let ghost forgotten = self@;
        assert(forgotten.windows == start.windows);
        assert(forgotten.has(id));
        self.take_off(id);
        proof {
            invariants::lemma_rearranged_window(forgotten, self@, id);
            assert(invariants::unremembered(self@, id));
            invariants::lemma_take_off(forgotten, id);
            invariants::lemma_removed(self@, id);
        }
        if let Some(i) = self.position(id) {
            self.windows.remove(i);
        }
        self.retile(window.workspace);
        if window.mapped {
            proof {
                invariants::lemma_emit(self@, Effect::UnlistForeign { id });
            }
            self.emit(Effect::UnlistForeign { id });
            self.refocus(id);
            self.emit(Effect::WindowClosed { id });
            self.emit(Effect::WorkspacesChanged);
        } else {
            self.refocus(id);
        }
    }

    /// Takes a window off the desktop whose client has nothing to show.
    pub fn unmap_window(&mut self, id: WindowId)
        requires
            old(self)@.wf(),
            old(self)@.has(id),
        ensures
            final(self)@ == old(self)@.unmap(id),
            final(self)@.wf(),
    {
        proof {
            invariants::lemma_unmap(self@, id);
        }
        let workspace: u64 = self.known(id).workspace;
        let ghost start = self@;
        self.forget_everywhere(id);
        let ghost forgotten = self@;
        assert(forgotten.windows == start.windows);
        assert(forgotten.has(id));
        self.take_off(id);
        proof {
            invariants::lemma_rearranged_window(forgotten, self@, id);
            assert(invariants::unremembered(self@, id));
        }
        let off = self.known(id);
        let gone = ManagedWindow { mapped: false, minimized: None, ..off };
        proof {
            invariants::lemma_with(self@, gone);
        }
        self.set(gone);
        proof {
            invariants::lemma_emit(self@, Effect::UnlistForeign { id });
        }
        self.emit(Effect::UnlistForeign { id });
        proof {
            invariants::lemma_emit(self@, Effect::ResetConfigure { id });
        }
        self.emit(Effect::ResetConfigure { id });
        self.retile(workspace);
        self.refocus(id);
        self.emit(Effect::WindowClosed { id });
        self.emit(Effect::WorkspacesChanged);
    }

    /// Notes the size a client drew.
    pub fn set_window_size(&mut self, id: WindowId, size: Size)
        requires
            old(self)@.wf(),
        ensures
            final(self)@ == (if old(self)@.has(id) {
                old(self)@.with(ManagedWindow { size, ..old(self)@.window(id) })
            } else {
                old(self)@
            }),
            final(self)@.wf(),
    {
        if let Some(window) = self.find(id) {
            let sized = ManagedWindow { size, ..window };
            proof {
                invariants::lemma_listed(self@, id);
                invariants::lemma_with(self@, sized);
            }
            self.set(sized);
        }
    }

    /// Notes who decorates a window after its client had its say.
    pub fn set_wants_decoration(&mut self, id: WindowId, wants: bool)
        requires
            old(self)@.wf(),
        ensures
            final(self)@ == (if old(self)@.has(id) {
                old(self)@.with(
                    ManagedWindow { wants_decoration: wants, ..old(self)@.window(id) },
                )
            } else {
                old(self)@
            }).repaint(),
            final(self)@.wf(),
    {
        if let Some(window) = self.find(id) {
            let decided = ManagedWindow { wants_decoration: wants, ..window };
            proof {
                invariants::lemma_listed(self@, id);
                invariants::lemma_with(self@, decided);
            }
            self.set(decided);
        }
        proof {
            invariants::lemma_emit(self@, Effect::FocusCleared);
        }
        self.request_redraw();
    }

    fn initial_place(
        &self,
        id: WindowId,
        workspace: u64,
        named: Option<usize>,
        position: Option<Location>,
    ) -> (r: Location)
        requires
            self@.wf(),
            self@.has(id),
            named is Some ==> named->0 < self@.outputs.len(),
            position is None ==> self@.window(id).size.w >= 0 && self@.window(id).size.h >= 0,
        ensures
            r == self@.initial_place(
                id,
                match named {
                    Some(output) => Some(output as int),
                    None => None,
                },
                workspace,
                position,
            ),
    {
        if let Some(location) = position {
            return location;
        }
        let output = match named {
            Some(output) => Some(output),
            None => self.output_for_workspace(workspace),
        };
        let area = match output {
            Some(output) => {
                proof {
                    let state = self@.outputs[output as int];
                    invariants::lemma_room(state.geometry, state.zone, self@.windows.len(), 0);
                }
                self.work_area_rect(output)
            },
            None => Rect { x: 0, y: 0, width: 1280, height: 720 },
        };
        let insets = self.frame_insets(id);
        layout::center_in(area, self.known(id).size, insets.top)
    }

    /// Puts a new window on the desktop. `named` is the output that its rules
    /// ask for, `position` the place; without one it is centered.
    pub fn map_window(
        &mut self,
        id: WindowId,
        workspace: u64,
        named: Option<usize>,
        position: Option<Location>,
        now: u64,
    )
        requires
            old(self)@.wf(),
            old(self)@.has(id),
            !old(self)@.window(id).mapped,
            named is Some ==> named->0 < old(self)@.outputs.len(),
            position is None ==> old(self)@.window(id).size.w >= 0 && old(self)@.window(id).size.h
                >= 0,
        ensures
            final(self)@ == old(self)@.map_window(
                id,
                workspace,
                match named {
                    Some(output) => Some(output as int),
                    None => None,
                },
                position,
                now,
            ),
            final(self)@.wf(),
    {
        let ghost start = self@;
        let ghost chosen: Option<int> = match named {
            Some(output) => Some(output as int),
            None => None,
        };
        proof {
            invariants::lemma_map_window(start, id, workspace, chosen, position, now);
        }
        let window = self.known(id);
        let location = self.initial_place(id, workspace, named, position);
        proof {
            invariants::lemma_emit(self@, Effect::ListForeign { id });
        }
        self.emit(Effect::ListForeign { id });
        let opened_at = if self.settings.animations { Some(now) } else { None };
        let mapped = ManagedWindow { mapped: true, workspace, opened_at, ..window };
        proof {
            invariants::lemma_with(self@, mapped);
        }
        let ghost told = self@;
        self.set(mapped);
        assert(told.with(mapped).has(id));
        let ghost set = self@;
        self.put(id, location);
        proof {
            invariants::lemma_rearranged_window(set, self@, id);
            invariants::lemma_emit(self@, Effect::WindowOpened { id });
        }
        self.emit(Effect::WindowOpened { id });
        proof {
            invariants::lemma_emit(self@, Effect::WorkspacesChanged);
        }
        self.emit(Effect::WorkspacesChanged);
        let ghost two = self@;
        self.retile(workspace);
        proof {
            invariants::lemma_rearranged_window(two, self@, id);
        }
        if workspace == self.focused_workspace_id() && self.settings.focus_new_windows {
            self.focus_window(id);
        } else if let Some(place) = self.find_workspace(workspace) {
            self.remember_first(place, id);
        }
        self.repaint_all();
    }

    fn remember_first(&mut self, place: usize, id: WindowId)
        requires
            place < old(self)@.workspaces.len(),
        ensures
            final(self)@ == old(self)@.with_workspace(
                place as int,
                WorkspaceModel {
                    focus_history: old(self)@.workspaces[place as int].focus_history.insert(0, id),
                    focused_window: match old(self)@.workspaces[place as int].focused_window {
                        Some(other) => Some(other),
                        None => Some(id),
                    },
                    ..old(self)@.workspaces[place as int]
                },
            ),
    {
        let ghost before = self.workspaces@;
        assert(self@.workspaces[place as int] == before[place as int]@);
        self.workspaces[place].focus_history.insert(0, id);
        if self.workspaces[place].focused_window.is_none() {
            self.workspaces[place].focused_window = Some(id);
        }
        assert(workspace_models(self.workspaces@) =~= workspace_models(before).update(
            place as int,
            WorkspaceModel {
                focus_history: before[place as int].focus_history@.insert(0, id),
                focused_window: match before[place as int].focused_window {
                    Some(other) => Some(other),
                    None => Some(id),
                },
                ..before[place as int]@
            },
        ));
    }

    /// Answers the first commit of a window.
    pub fn configure_new_window(&mut self, id: WindowId, rule: RuleOutcome, fixed_size: bool)
        requires
            old(self)@.wf(),
            old(self)@.has(id),
        ensures
            final(self)@ == old(self)@.configure_new(id, rule, fixed_size),
            final(self)@.wf(),
    {
        proof {
            invariants::lemma_configure_new(self@, id, rule, fixed_size);
            invariants::lemma_listed(self@, id);
        }
        let ghost start = self@;
        let window = self.known(id);
        if let Some(server) = rule.decoration {
            proof {
                invariants::lemma_emit(self@, Effect::SetDecorationMode { id, server });
            }
            self.emit(Effect::SetDecorationMode { id, server });
        }
        let ruled = ManagedWindow {
            floating: rule.floating,
            opacity: rule.opacity,
            always_on_top: rule.always_on_top,
            decoration: rule.decoration,
            wants_decoration: match rule.decoration {
                Some(server) => server,
                None => window.wants_decoration,
            },
            ..window
        };
        assert(ruled == start.ruled(id, rule));
        proof {
            invariants::lemma_with(self@, ruled);
        }
        self.set(ruled);
        let size = match rule.size {
            Some(size) => Some(size),
            None => if fixed_size {
                None
            } else {
                Some(self.settings.default_size)
            },
        };
        match self.current_output() {
            Some(output) => {
                if self.window_floats(id) {
                    self.emit(Effect::ProposeSize { id, size });
                } else {
                    proof {
                        let state = self@.outputs[output as int];
                        invariants::lemma_room(state.geometry, state.zone, self@.windows.len(), 0);
                    }
                    let area = self.work_area_rect(output);
                    let insets = self.frame_insets(id);
                    let padding: i32 = self.settings.work_area_padding;
                    let tiled = Size {
                        w: geometry::max_i32(area.width - padding * 2 - insets.horizontal, 1),
                        h: geometry::max_i32(area.height - padding * 2 - insets.vertical, 1),
                    };
                    self.emit(Effect::ProposeSize { id, size: Some(tiled) });
                    self.emit(Effect::SetTiledState { id });
                }
                self.emit(Effect::SendScale { id, output });
            },
            None => self.emit(Effect::ProposeSize { id, size }),
        }
        self.emit(Effect::SendConfigure { id });
    }

    /// Arranges everything again.
    pub fn relayout_all(&mut self)
        requires
            old(self)@.wf(),
        ensures
            final(self)@ == old(self)@.relayout(),
            final(self)@.wf(),
            invariants::rearranged(old(self)@, final(self)@),
    {
        proof {
            invariants::lemma_relayout(self@);
        }
        let ghost start = self@;
        let count: usize = self.workspaces.len();
        for place in 0..count
            invariant
                count == start.workspaces.len(),
                self@.wf(),
                start.wf(),
                invariants::rearranged(start, self@),
                self@ == start.retile_first(place as nat),
                self@.workspaces.len() == self.workspaces@.len(),
        {
            assert(self@.workspaces[place as int] == self.workspaces@[place as int]@);
            let id: u64 = self.workspaces[place].id;
            let ghost before = self@;
            self.retile(id);
            proof {
                invariants::lemma_rearranged_trans(start, before, self@);
            }
        }
        let ghost tiled = self@;
        let count: usize = self.windows.len();
        for i in 0..count
            invariant
                count == tiled.windows.len(),
                self@.wf(),
                tiled.wf(),
                invariants::rearranged(tiled, self@),
                self@ == tiled.refit_first(i as nat),
        {
            let window = self.windows[i];
            let id = window.id;
            let ghost before = self@;
            proof {
                invariants::lemma_place_in(before, i as int);
                assert(before.windows[i as int] == (ManagedWindow {
                    place: before.windows[i as int].place,
                    ..tiled.windows[i as int]
                }));
            }
            if window.mapped && window.minimized.is_none() {
                if window.fullscreen {
                    self.apply_fullscreen_geometry(id);
                    proof {
                        invariants::lemma_rearranged_trans(tiled, before, self@);
                    }
                } else if window.maximized {
                    self.apply_maximized_geometry(id);
                    proof {
                        invariants::lemma_rearranged_trans(tiled, before, self@);
                    }
                }
            }
        }
    }
}


/// A workspace for the clients of the desktop.
#[derive(Debug, Clone, PartialEq, Eq)]
pub struct WorkspaceInfo {
    pub id: u64,
    pub name: String,
    pub active: bool,
    /// The output that displays the workspace, if one does.
    pub output: Option<String>,
    pub window_count: usize,
}

/// A workspace is listed as it is: active where an output shows it, with the
/// number of its mapped windows.
pub open spec fn lists(d: DesktopModel, place: int, info: WorkspaceInfo) -> bool {
    let workspace = d.workspaces[place];
    let output = model::output_showing(d.outputs, workspace.id, 0);
    &&& info.id == workspace.id
    &&& info.name@ == workspace.name
    &&& info.active == (output is Some)
    &&& text::option(info.output) == (match output {
        Some(output) => Some(d.output_names[output]),
        None => None,
    })
    &&& info.window_count == d.windows.filter(
        |w: ManagedWindow| w.mapped && w.workspace == workspace.id,
    ).len()
}

impl Desktop {
    /// How many outputs there are.
    pub fn output_count(&self) -> (r: usize)
        ensures
            r == self@.outputs.len(),
    {
        self.outputs.len()
    }

    /// The output with a name.
    pub fn output_by_name(&self, name: &str) -> (r: Option<usize>)
        requires
            self@.wf(),
        ensures
            match r {
                Some(output) => output < self@.outputs.len() && model::output_named(
                    self@.output_names,
                    name@,
                    0,
                ) == Some(output as int),
                None => model::output_named(self@.output_names, name@, 0) is None,
            },
    {
        proof {
            invariants::lemma_output_named(self@.output_names, name@, 0);
        }
        for i in 0..self.output_names.len()
            invariant
                self@.wf(),
                self@.output_names.len() == self.output_names@.len(),
                forall|j: int| 0 <= j < i ==> #[trigger] self@.output_names[j] != name@,
        {
            assert(self@.output_names[i as int] == self.output_names@[i as int]@);
            if text::text_eq(self.output_names[i].as_str(), name) {
                proof {
                    invariants::lemma_output_named(self@.output_names, name@, 0);
                }
                return Some(i);
            }
        }
        None
    }

    /// The name of an output.
    pub fn output_name(&self, output: usize) -> (r: String)
        requires
            self@.wf(),
            output < self@.outputs.len(),
        ensures
            r@ == self@.output_names[output as int],
    {
        assert(self@.output_names[output as int] == self.output_names@[output as int]@);
        self.output_names[output].clone()
    }

    /// The names of all outputs.
    pub fn outputs(&self) -> (r: Vec<String>)
        ensures
            text::strings(r@) == self@.output_names,
    {
        let mut r: Vec<String> = Vec::new();
        for i in 0..self.output_names.len()
            invariant
                text::strings(r@) == self@.output_names.take(i as int),
        {
            let ghost before = r@;
            let name = self.output_names[i].clone();
            r.push(name);
            assert(text::strings(r@) =~= text::strings(before).push(name@));
            assert(self@.output_names.take(i as int).push(name@) =~= self@.output_names.take(
                i + 1,
            ));
        }
        proof {
            seqs::lemma_take_all(self@.output_names);
        }
        r
    }

    /// The focused output, or else the first one.
    pub fn focused_output(&self) -> (r: Option<usize>)
        requires
            self@.wf(),
        ensures
            match r {
                Some(output) => output < self@.outputs.len() && self@.current_output() == Some(
                    output as int,
                ),
                None => self@.current_output() is None,
            },
    {
        self.current_output()
    }

    /// The work area of the output with a name, or of the first one if the name
    /// is empty.
    pub fn work_area(&self, name: &str) -> (r: Rect)
        requires
            self@.wf(),
        ensures
            name@.len() == 0 ==> r == (if self@.outputs.len() > 0 {
                self@.work_area(0)
            } else {
                geometry::empty_rect()
            }),
            name@.len() > 0 ==> r == (match model::output_named(self@.output_names, name@, 0) {
                Some(output) => self@.work_area(output),
                None => geometry::empty_rect(),
            }),
    {
        let named: Option<usize> = if text::chars_of(name).len() == 0 {
            if self.outputs.len() > 0 {
                Some(0)
            } else {
                None
            }
        } else {
            self.output_by_name(name)
        };
        match named {
            Some(output) => self.work_area_rect(output),
            None => Rect { x: 0, y: 0, width: 0, height: 0 },
        }
    }

    fn free_workspace(&self, name: Option<&str>) -> (r: Option<u64>)
        requires
            self@.wf(),
        ensures
            r == self@.free_workspace(
                match name {
                    Some(name) => Some(name@),
                    None => None,
                },
                0,
            ),
    {
        let ghost wanted = match name {
            Some(name) => Some(name@),
            None => None,
        };
        let mut i: usize = 0;
        while i < self.workspaces.len()
            invariant
                i <= self@.workspaces.len(),
                self@.workspaces.len() == self.workspaces@.len(),
                wanted == (match name {
                    Some(name) => Some(name@),
                    None => None,
                }),
                self@.free_workspace(wanted, 0) == self@.free_workspace(wanted, i as int),
            decreases self@.workspaces.len() - i,
        {
            assert(self@.workspaces[i as int] == self.workspaces@[i as int]@);
            let id: u64 = self.workspaces[i].id;
            if self.output_showing(id).is_none() {
                let meant = match (name, &self.workspaces[i].output) {
                    (None, _) => true,
                    (Some(name), Some(output)) => text::text_eq(output.as_str(), name),
                    (Some(_), None) => false,
                };
                if meant {
                    return Some(id);
                }
            }
            i = i + 1;
        }
        None
    }

    /// Adds an output; the first one gets the focus. Others of its name follow
    /// it to its workspace.
    pub fn add_output(&mut self, name: &str, geometry: Rect, zone: Rect)
        requires
            old(self)@.wf(),
            old(self)@.outputs.len() < usize::MAX,
            model::room(geometry, zone, old(self)@.windows.len()),
        ensures
            final(self)@ == old(self)@.add_output(name@, geometry, zone),
            final(self)@.wf(),
    {
        proof {
            invariants::lemma_add_output(self@, name@, geometry, zone);
        }
        let workspace: u64 = match self.free_workspace(Some(name)) {
            Some(id) => id,
            None => match self.free_workspace(None) {
                Some(id) => id,
                None => 1,
            },
        };
        let output: usize = self.outputs.len();
        let ghost names = self.output_names@;
        let owned = name.to_owned();
        let animation = match self.output_by_name(name) {
            Some(other) => self.outputs[other].animation,
            None => None,
        };
        self.outputs = switched(&self.outputs, &self.output_names, name, workspace, None);
        self.outputs.push(OutputState { geometry, zone, workspace, animation });
        self.output_names.push(owned);
        assert(text::strings(self.output_names@) =~= text::strings(names).push(name@));
        if self.focused_output.is_none() {
            self.focused_output = Some(output);
        }
        self.emit(Effect::OutputAdded { output });
        self.emit(Effect::WorkspaceActivated { output, workspace });
    }

    fn set_output(&mut self, output: usize, geometry: Rect, zone: Rect)
        requires
            old(self)@.wf(),
            output < old(self)@.outputs.len(),
            model::room(geometry, zone, old(self)@.windows.len()),
        ensures
            final(self)@ == old(self)@.with_output(output as int, geometry, zone),
            final(self)@.wf(),
    {
        proof {
            invariants::lemma_with_output(self@, output as int, geometry, zone);
        }
        let state = self.outputs[output];
        self.outputs.set(output, OutputState { geometry, zone, ..state });
    }

    /// An output changed its mode or scale; `arranged` says whether its
    /// panels moved.
    pub fn output_changed(&mut self, output: usize, geometry: Rect, zone: Rect, arranged: bool)
        requires
            old(self)@.wf(),
            output < old(self)@.outputs.len(),
            model::room(geometry, zone, old(self)@.windows.len()),
        ensures
            final(self)@ == old(self)@.output_changed(output as int, geometry, zone, arranged),
            final(self)@.wf(),
    {
        self.set_output(output, geometry, zone);
        if arranged {
            proof {
                invariants::lemma_emit(self@, Effect::WorkAreaChanged { output });
            }
            self.emit(Effect::WorkAreaChanged { output });
        }
        self.relayout_all();
        proof {
            invariants::lemma_emit(self@, Effect::FocusCleared);
        }
        self.repaint_all();
    }

    /// The panels of an output changed what they leave free.
    pub fn layers_arranged(&mut self, output: usize, zone: Rect)
        requires
            old(self)@.wf(),
            output < old(self)@.outputs.len(),
            model::room(
                old(self)@.outputs[output as int].geometry,
                zone,
                old(self)@.windows.len(),
            ),
        ensures
            final(self)@ == old(self)@.layers_arranged(output as int, zone),
            final(self)@.wf(),
    {
        let geometry = self.outputs[output].geometry;
        self.set_output(output, geometry, zone);
        proof {
            invariants::lemma_emit(self@, Effect::WorkAreaChanged { output });
        }
        self.emit(Effect::WorkAreaChanged { output });
        self.relayout_all();
    }

    /// The output that a position is on; the one added last wins.
    pub fn output_at(&self, position: Point) -> (r: Option<usize>)
        ensures
            match r {
                Some(output) => output < self@.outputs.len() && self@.output_at(position) == Some(
                    output as int,
                ),
                None => self@.output_at(position) is None,
            },
    {
        let mut n: usize = self.outputs.len();
        while n > 0
            invariant
                n <= self@.outputs.len(),
                self@.output_at(position) == self@.output_below(position, n as nat),
            decreases n,
        {
            if self.outputs[n - 1].geometry.contains(position) {
                return Some(n - 1);
            }
            n = n - 1;
        }
        None
    }

    /// The output under the pointer gets the focus, or rather the first of its
    /// name.
    pub fn set_focused_output_at(&mut self, position: Point)
        requires
            old(self)@.wf(),
        ensures
            final(self)@ == old(self)@.focus_output_at(position),
            final(self)@.wf(),
    {
        proof {
            assert(self@.outputs.len() == self.outputs.len());
            invariants::lemma_focus_output_at(self@, position);
        }
        if let Some(output) = self.output_at(position) {
            assert(self@.output_names[output as int] == self.output_names@[output as int]@);
            self.focused_output = self.output_by_name(self.output_names[output].as_str());
        }
    }

    /// The rectangle that a pointer position off all outputs is moved into:
    /// the output that the pointer is on, or else the focused one. `None`
    /// leaves the position as it is.
    pub fn pointer_bounds(&self, position: Point, current: Point) -> (r: Option<Rect>)
        requires
            self@.wf(),
        ensures
            r == (if self@.output_at(position) is Some {
                None
            } else {
                match self@.output_at(current) {
                    Some(output) => Some(self@.outputs[output].geometry),
                    None => match self@.current_output() {
                        Some(output) => Some(self@.outputs[output].geometry),
                        None => None,
                    },
                }
            }),
    {
        if self.output_at(position).is_some() {
            return None;
        }
        let output = match self.output_at(current) {
            Some(output) => Some(output),
            None => self.current_output(),
        };
        match output {
            Some(output) => Some(self.outputs[output].geometry),
            None => None,
        }
    }

    /// The workspace that an output displays.
    pub fn workspace_for_output(&self, output: usize) -> (r: u64)
        requires
            output < self@.outputs.len(),
        ensures
            r == self@.outputs[output as int].workspace,
    {
        self.outputs[output].workspace
    }

    /// Where an output is.
    pub fn output_geometry(&self, output: usize) -> (r: Rect)
        requires
            output < self@.outputs.len(),
        ensures
            r == self@.outputs[output as int].geometry,
    {
        self.outputs[output].geometry
    }

    /// What the panels of an output leave free, relative to the output.
    pub fn output_zone(&self, output: usize) -> (r: Rect)
        requires
            output < self@.outputs.len(),
        ensures
            r == self@.outputs[output as int].zone,
    {
        self.outputs[output].zone
    }

    /// When the workspace of an output began to change.
    pub fn workspace_animation(&self, output: usize) -> (r: Option<u64>)
        requires
            output < self@.outputs.len(),
        ensures
            r == self@.outputs[output as int].animation,
    {
        self.outputs[output].animation
    }

    /// Whether a window is on the screen of an output.
    pub fn window_visible_on_output(&self, id: WindowId, output: usize) -> (r: bool)
        requires
            self@.wf(),
            output < self@.outputs.len(),
        ensures
            r == self@.visible_on(id, output as int),
    {
        match self.find(id) {
            Some(window) => window.mapped && window.minimized.is_none() && window.workspace
                == self.outputs[output].workspace,
            None => false,
        }
    }

    /// Whether a window stays above the others.
    pub fn window_always_on_top(&self, id: WindowId) -> (r: bool)
        requires
            self@.wf(),
        ensures
            r == (self@.has(id) && self@.window(id).always_on_top == Some(true)),
    {
        match self.find(id) {
            Some(window) => window.always_on_top == Some(true),
            None => false,
        }
    }

    /// Whether a window covers its output.
    pub fn window_is_fullscreen(&self, id: WindowId) -> (r: bool)
        requires
            self@.wf(),
        ensures
            r == (self@.has(id) && self@.window(id).fullscreen),
    {
        match self.find(id) {
            Some(window) => window.fullscreen,
            None => false,
        }
    }

    fn push_level(&self, windows: &mut Vec<WindowId>, output: usize, fullscreen: bool, on_top: bool)
        requires
            self@.wf(),
            output < self@.outputs.len(),
        ensures
            final(windows)@ == old(windows)@ + self@.level(output as int, fullscreen, on_top),
    {
        let ghost keep = |id: WindowId|
            self@.visible_on(id, output as int) && self@.window(id).fullscreen == fullscreen && (
            self@.window(id).always_on_top == Some(true)) == on_top;
        let ghost start = windows@;
        assert(start + self@.stack.take(0).filter(keep) =~= start) by {
            reveal(Seq::filter);
        }
        for i in 0..self.stack.len()
            invariant
                self@.wf(),
                output < self@.outputs.len(),
                keep == (|id: WindowId|
                    self@.visible_on(id, output as int) && self@.window(id).fullscreen == fullscreen
                        && (self@.window(id).always_on_top == Some(true)) == on_top),
                windows@ == start + self@.stack.take(i as int).filter(keep),
        {
            let id = self.stack[i];
            let ghost before = self@.stack.take(i as int).filter(keep);
            proof {
                seqs::lemma_filter_take(self@.stack, i as int, keep);
            }
            if let Some(window) = self.find(id) {
                if self.window_visible_on_output(id, output) && window.fullscreen == fullscreen && (
                window.always_on_top == Some(true)) == on_top {
                    windows.push(id);
                    assert((start + before).push(id) =~= start + before.push(id));
                }
            }
        }
        proof {
            seqs::lemma_take_all(self@.stack);
        }
    }

    /// The windows of an output, bottom to top: fullscreen windows above the
    /// others, and within both those that stay on top above the others.
    pub fn z_ordered_windows(&self, output: usize) -> (windows: Vec<WindowId>)
        requires
            self@.wf(),
            output < self@.outputs.len(),
        ensures
            windows@ == self@.z_order(output as int),
    {
        let mut windows: Vec<WindowId> = Vec::new();
        self.push_level(&mut windows, output, false, false);
        assert(windows@ =~= self@.level(output as int, false, false));
        self.push_level(&mut windows, output, false, true);
        self.push_level(&mut windows, output, true, false);
        self.push_level(&mut windows, output, true, true);
        windows
    }

    /// Adds or updates a layer.
    pub fn set_layer(&mut self, layer: LayerState)
        requires
            old(self)@.wf(),
        ensures
            final(self)@ == (DesktopModel {
                layers: old(self)@.layers.filter(|l: LayerState| l.id != layer.id).push(layer),
                ..old(self)@
            }),
            final(self)@.wf(),
    {
        let mut layers = self.layers_without(layer.id);
        layers.push(layer);
        proof {
            let next = DesktopModel { layers: layers@, ..self@ };
            invariants::lemma_same_but_focus(self@, next);
        }
        self.layers = layers;
    }

    fn layers_without(&self, id: u64) -> (r: Vec<LayerState>)
        ensures
            r@ == self@.layers.filter(|l: LayerState| l.id != id),
    {
        let ghost keep = |l: LayerState| l.id != id;
        let mut r: Vec<LayerState> = Vec::new();
        for i in 0..self.layers.len()
            invariant
                keep == (|l: LayerState| l.id != id),
                r@ == self@.layers.take(i as int).filter(keep),
        {
            proof {
                seqs::lemma_filter_take(self@.layers, i as int, keep);
            }
            let layer = self.layers[i];
            if layer.id != id {
                r.push(layer);
            }
        }
        proof {
            seqs::lemma_take_all(self@.layers);
        }
        r
    }

    /// A layer that was clicked gets the keyboard.
    pub fn focus_clicked_layer(&mut self, layer: u64)
        requires
            old(self)@.wf(),
        ensures
            final(self)@ == old(self)@.request_focus(FocusTarget::Layer(layer)),
            final(self)@.wf(),
    {
        self.request_focus(FocusTarget::Layer(layer));
    }

    /// A layer that wants the keyboard gets it.
    pub fn focus_interactive_layer_surface(&mut self, layer: LayerState)
        requires
            old(self)@.wf(),
        ensures
            final(self)@ == old(self)@.focus_layer(layer),
            final(self)@.wf(),
    {
        let wants = match layer.interactivity {
            KeyboardInteractivity::Exclusive => layer.layer == Layer::Top || layer.layer
                == Layer::Overlay,
            KeyboardInteractivity::OnDemand => self.keyboard == FocusTarget::Nobody,
            KeyboardInteractivity::Never => false,
        };
        if wants {
            self.request_focus(FocusTarget::Layer(layer.id));
        }
    }

    fn focused_workspace_window(&self) -> (r: Option<WindowId>)
        requires
            self@.wf(),
        ensures
            r == self@.focused_workspace_window(),
    {
        let place = match self.find_workspace(self.focused_workspace_id()) {
            Some(place) => place,
            None => {
                return None;
            },
        };
        assert(self@.workspaces[place as int] == self.workspaces@[place as int]@);
        match self.workspaces[place].focused_window {
            None => None,
            Some(id) => match self.find(id) {
                Some(window) => if window.mapped && window.minimized.is_none() {
                    Some(id)
                } else {
                    None
                },
                None => None,
            },
        }
    }

    /// A layer is gone; where it had the keyboard, or nobody had, the window
    /// that the workspace remembers gets it.
    pub fn layer_surface_removed(&mut self, layer: u64)
        requires
            old(self)@.wf(),
        ensures
            final(self)@ == old(self)@.layer_removed(layer),
            final(self)@.wf(),
    {
        proof {
            invariants::lemma_layer_removed(self@, layer);
        }
        let keyboard = self.keyboard;
        let layers = self.layers_without(layer);
        proof {
            let next = DesktopModel { layers: layers@, ..self@ };
            invariants::lemma_same_but_focus(self@, next);
        }
        self.layers = layers;
        if keyboard == FocusTarget::Layer(layer) || keyboard == FocusTarget::Nobody {
            let target = match self.focused_workspace_window() {
                Some(id) => FocusTarget::Window(id),
                None => FocusTarget::Nobody,
            };
            self.request_focus(FocusTarget::Nobody);
            self.set_keyboard_focus(target);
        }
        self.repaint_all();
    }

    fn create_workspace_unchecked(&mut self, name: &str) -> (id: u64)
        requires
            old(self)@.wf(),
            old(self)@.next_workspace_id < u64::MAX,
        ensures
            final(self)@ == old(self)@.with_new_workspace(name@),
            id == old(self)@.next_workspace_id,
            final(self)@.wf(),
    {
        proof {
            invariants::lemma_new_workspace(self@, name@);
        }
        let ghost before = self.workspaces@;
        let id: u64 = self.next_workspace_id;
        self.next_workspace_id = id + 1;
        let chosen = if text::is_blank(name) { text::u64_text(id) } else { name.to_owned() };
        let workspace = Workspace {
            id,
            name: chosen,
            output: None,
            focused_window: None,
            focus_history: Vec::new(),
        };
        self.workspaces.push(workspace);
        assert(workspace_models(self.workspaces@) =~= workspace_models(before).push(workspace@));
        self.emit(Effect::WorkspacesChanged);
        id
    }

    /// Creates a workspace if that is allowed, else returns 0. A blank name
    /// becomes the number of the workspace.
    pub fn create_workspace(&mut self, name: &str) -> (id: u64)
        requires
            old(self)@.wf(),
            old(self)@.next_workspace_id < u64::MAX,
        ensures
            final(self)@ == (if old(self)@.settings.dynamic_workspaces {
                old(self)@.with_new_workspace(name@)
            } else {
                old(self)@
            }),
            id == (if old(self)@.settings.dynamic_workspaces {
                old(self)@.next_workspace_id
            } else {
                0
            }),
            final(self)@.wf(),
    {
        if !self.settings.dynamic_workspaces {
            return 0;
        }
        self.create_workspace_unchecked(name)
    }

    /// Creates the workspaces up to a number, as far as they may be created.
    pub fn ensure_workspace(&mut self, id: u64)
        requires
            old(self)@.wf(),
            old(self)@.settings.dynamic_workspaces ==> id < u64::MAX,
        ensures
            final(self)@ == old(self)@.with_workspaces_up_to(id),
            final(self)@.wf(),
    {
        if id > self.settings.workspace_count && !self.settings.dynamic_workspaces {
            return ;
        }
        let ghost start = self@;
        let ghost mut n: nat = 0;
        assert(id < u64::MAX);
        while self.next_workspace_id <= id
            invariant
                self@.wf(),
                start.wf(),
                id < u64::MAX,
                self@ == start.with_numbered_workspaces(n),
                self@.next_workspace_id == start.next_workspace_id + n,
                n == 0 || self@.next_workspace_id <= id + 1,
            decreases id + 1 - self.next_workspace_id,
        {
            let name = text::u64_text(self.next_workspace_id);
            self.create_workspace_unchecked(name.as_str());
            proof {
                n = n + 1;
            }
        }
    }

    /// The workspaces for the clients of the desktop.
    pub fn list_workspaces(&self) -> (list: Vec<WorkspaceInfo>)
        requires
            self@.wf(),
        ensures
            list@.len() == self@.workspaces.len(),
            forall|i: int| 0 <= i < list@.len() ==> lists(self@, i, #[trigger] list@[i]),
    {
        let mut list: Vec<WorkspaceInfo> = Vec::new();
        for place in 0..self.workspaces.len()
            invariant
                self@.wf(),
                self@.workspaces.len() == self.workspaces@.len(),
                list@.len() == place,
                forall|i: int| 0 <= i < list@.len() ==> lists(self@, i, #[trigger] list@[i]),
        {
            assert(self@.workspaces[place as int] == self.workspaces@[place as int]@);
            let id: u64 = self.workspaces[place].id;
            let shown = self.output_showing(id);
            let output = match shown {
                Some(output) => Some(self.output_name(output)),
                None => None,
            };
            let info = WorkspaceInfo {
                id,
                name: self.workspaces[place].name.clone(),
                active: shown.is_some(),
                output,
                window_count: self.count_windows(id),
            };
            list.push(info);
        }
        list
    }

    /// The mapped windows of a workspace, in the order in which they were
    /// created.
    pub fn windows_on(&self, workspace: u64) -> (windows: Vec<ManagedWindow>)
        ensures
            windows@ == self@.windows.filter(
                |w: ManagedWindow| w.mapped && w.workspace == workspace,
            ),
    {
        let ghost keep = |w: ManagedWindow| w.mapped && w.workspace == workspace;
        let mut windows: Vec<ManagedWindow> = Vec::new();
        for i in 0..self.windows.len()
            invariant
                keep == (|w: ManagedWindow| w.mapped && w.workspace == workspace),
                windows@ == self@.windows.take(i as int).filter(keep),
        {
            proof {
                seqs::lemma_filter_take(self@.windows, i as int, keep);
            }
            let window = self.windows[i];
            if window.mapped && window.workspace == workspace {
                windows.push(window);
            }
        }
        proof {
            seqs::lemma_take_all(self@.windows);
        }
        windows
    }

    fn count_windows(&self, workspace: u64) -> (count: usize)
        ensures
            count == self@.windows.filter(
                |w: ManagedWindow| w.mapped && w.workspace == workspace,
            ).len(),
    {
        let ghost keep = |w: ManagedWindow| w.mapped && w.workspace == workspace;
        let mut count: usize = 0;
        for i in 0..self.windows.len()
            invariant
                keep == (|w: ManagedWindow| w.mapped && w.workspace == workspace),
                count == self@.windows.take(i as int).filter(keep).len(),
                count <= i,
        {
            proof {
                seqs::lemma_filter_take(self@.windows, i as int, keep);
            }
            let window = self.windows[i];
            if window.mapped && window.workspace == workspace {
                count = count + 1;
            }
        }
        proof {
            seqs::lemma_take_all(self@.windows);
        }
        count
    }

    /// The workspace that a rule names, by number or by name.
    pub fn workspace_id_by_selector(&self, selector: &str) -> (r: Option<u64>)
        requires
            self@.wf(),
        ensures
            match text::unsigned(selector@, u64::MAX as nat) {
                Some(n) if self@.workspace_place(n as u64) is Some => r == Some(n as u64),
                _ => match r {
                    Some(id) => exists|i: int|
                        0 <= i < self@.workspaces.len() && (#[trigger] self@.workspaces[i]).name
                            == selector@ && self@.workspaces[i].id == id && forall|j: int|
                            0 <= j < i ==> (#[trigger] self@.workspaces[j]).name != selector@,
                    None => forall|i: int|
                        0 <= i < self@.workspaces.len() ==> (#[trigger] self@.workspaces[i]).name
                            != selector@,
                },
            },
    {
        let chars = text::chars_of(selector);
        if let Some(id) = text::parse_unsigned(&chars, u64::MAX) {
            if self.find_workspace(id).is_some() {
                return Some(id);
            }
        }
        for i in 0..self.workspaces.len()
            invariant
                match text::unsigned(selector@, u64::MAX as nat) {
                    Some(n) => self@.workspace_place(n as u64) is None,
                    None => true,
                },
                self@.workspaces.len() == self.workspaces@.len(),
                forall|j: int| 0 <= j < i ==> (#[trigger] self@.workspaces[j]).name != selector@,
        {
            assert(self@.workspaces[i as int] == self.workspaces@[i as int]@);
            if text::text_eq(self.workspaces[i].name.as_str(), selector) {
                return Some(self.workspaces[i].id);
            }
        }
        None
    }

    /// Whether the server draws decorations unless a rule says otherwise.
    pub fn preferred_decoration_mode(&self) -> (server: bool)
        ensures
            server == self@.prefers_server(),
    {
        match self.settings.decoration_mode {
            DecorationModeConfig::Server => true,
            DecorationModeConfig::Client => false,
            DecorationModeConfig::Off => false,
            DecorationModeConfig::Auto => self.settings.server_side_decorations,
        }
    }

    /// Tells every window again who decorates it.
    pub fn refresh_decoration_modes(&mut self)
        requires
            old(self)@.wf(),
        ensures
            final(self)@ == old(self)@.redecorated(),
            final(self)@.wf(),
    {
        let ghost start = self@;
        proof {
            invariants::lemma_redecorated(start);
        }
        let ghost all = start.redecorated();
        let preferred = self.preferred_decoration_mode();
        let count: usize = self.windows.len();
        for i in 0..count
            invariant
                count == start.windows.len(),
                all == start.redecorated(),
                preferred == start.prefers_server(),
                self@ == (DesktopModel {
                    windows: self@.windows,
                    effects: self@.effects,
                    ..start
                }),
                self@.windows.len() == count,
                forall|k: int| 0 <= k < i ==> #[trigger] self@.windows[k] == all.windows[k],
                forall|k: int|
                    i <= k < count ==> #[trigger] self@.windows[k] == start.windows[k],
                self@.effects.len() == start.effects.len() + i,
                forall|k: int|
                    0 <= k < self@.effects.len() ==> #[trigger] self@.effects[k] == all.effects[k],
        {
            let window = self.windows[i];
            let server = match window.decoration {
                Some(server) => server,
                None => preferred,
            };
            self.windows.set(i, ManagedWindow { wants_decoration: server, ..window });
            self.emit(Effect::SetDecorationMode { id: window.id, server });
        }
        assert(self@.windows =~= all.windows);
        assert(self@.effects =~= all.effects);
    }

    /// Puts other settings in force. Windows are told again who decorates
    /// them, and arranged again, as far as that is needed.
    pub fn reconfigure(&mut self, settings: Settings, redecorate: bool, rearrange: bool)
        requires
            old(self)@.wf(),
            settings.wf(),
        ensures
            final(self)@ == old(self)@.reconfigured(settings, redecorate, rearrange),
            final(self)@.settings == settings,
            final(self)@.wf(),
    {
        self.set_settings(settings);
        if redecorate {
            self.refresh_decoration_modes();
        }
        if rearrange {
            proof {
                invariants::lemma_relayout(self@);
            }
            self.relayout_all();
        }
        proof {
            invariants::lemma_emit(self@, Effect::FocusCleared);
        }
        self.request_redraw();
    }

    /// Whether something is animating.
    pub fn animations_active(&self) -> (r: bool)
        ensures
            r == self@.animating(),
    {
        if !self.settings.animations {
            return false;
        }
        for i in 0..self.windows.len()
            invariant
                self@.settings.animations,
                forall|k: int| 0 <= k < i ==> (#[trigger] self@.windows[k]).opened_at is None,
        {
            if self.windows[i].opened_at.is_some() {
                assert(self@.windows[i as int].opened_at is Some);
                return true;
            }
        }
        for i in 0..self.outputs.len()
            invariant
                self@.settings.animations,
                forall|k: int| 0 <= k < i ==> (#[trigger] self@.outputs[k]).animation is None,
        {
            if self.outputs[i].animation.is_some() {
                assert(self@.outputs[i as int].animation is Some);
                return true;
            }
        }
        false
    }

    /// Ends the animations that are over, or all of them where animations
    /// are off.
    pub fn prune_finished_animations(&mut self, now: u64)
        requires
            old(self)@.wf(),
        ensures
            final(self)@ == old(self)@.pruned(now),
            final(self)@.wf(),
    {
        let ghost start = self@;
        proof {
            invariants::lemma_pruned(start, now);
        }
        let ghost all = start.pruned(now);
        let enabled = self.settings.animations;
        let window_open: u64 = self.settings.window_open_ms;
        let workspace: u64 = self.settings.workspace_ms;
        let count: usize = self.windows.len();
        for i in 0..count
            invariant
                count == start.windows.len(),
                all == start.pruned(now),
                enabled == start.settings.animations,
                window_open == start.settings.window_open_ms,
                self@ == (DesktopModel { windows: self@.windows, ..start }),
                self@.windows.len() == count,
                forall|k: int| 0 <= k < i ==> #[trigger] self@.windows[k] == all.windows[k],
                forall|k: int|
                    i <= k < count ==> #[trigger] self@.windows[k] == start.windows[k],
        {
            let window = self.windows[i];
            let opened_at = still_running(window.opened_at, window_open, enabled, now);
            self.windows.set(i, ManagedWindow { opened_at, ..window });
        }
        assert(self@.windows =~= all.windows);
        let count: usize = self.outputs.len();
        for i in 0..count
            invariant
                count == start.outputs.len(),
                all == start.pruned(now),
                enabled == start.settings.animations,
                workspace == start.settings.workspace_ms,
                self@ == (DesktopModel {
                    windows: all.windows,
                    outputs: self@.outputs,
                    ..start
                }),
                self@.outputs.len() == count,
                forall|k: int| 0 <= k < i ==> #[trigger] self@.outputs[k] == all.outputs[k],
                forall|k: int|
                    i <= k < count ==> #[trigger] self@.outputs[k] == start.outputs[k],
        {
            let output = self.outputs[i];
            let animation = still_running(output.animation, workspace, enabled, now);
            self.outputs.set(i, OutputState { animation, ..output });
        }
        assert(self@.outputs =~= all.outputs);
    }
}

/// Whether `duration` milliseconds have passed since an animation started.
pub fn animation_done(started: u64, duration: u64, now: u64) -> (r: bool)
    ensures
        r == model::animation_over(started, duration, now),
{
    let elapsed: u128 = if now >= started { (now - started) as u128 } else { 0 };
    elapsed >= duration as u128 * model::NANOS_PER_MILLI
}

fn still_running(started: Option<u64>, duration: u64, enabled: bool, now: u64) -> (r: Option<u64>)
    ensures
        r == model::running(started, duration, enabled, now),
{
    match started {
        Some(at) => if enabled && !animation_done(at, duration, now) {
            Some(at)
        } else {
            None
        },
        None => None,
    }
}

} // verus!
