//! The desktop as a mathematical value: windows, workspaces, outputs, focus,
//! and what every operation makes of them.

use vstd::prelude::*;

use crate::geometry::{Location, Point, Rect, Size};
use crate::geometry;
use crate::grabs::{ResizeAnchor, ResizeEdges};
use crate::layout::Insets;
use crate::layout;
use crate::reals::{Real32, Real64};
use crate::text;

verus! {

/// Names a window for as long as it exists.
#[derive(Debug, Clone, Copy, PartialEq, Eq, PartialOrd, Ord, Hash, Structural)]
pub struct WindowId(pub u64);

/// How windows are arranged.
#[derive(Debug, Clone, Copy, PartialEq, Eq, Structural)]
pub enum WindowLayout {
    Floating,
    Tiling,
}

/// Who decorates windows.
#[derive(Debug, Clone, Copy, PartialEq, Eq, Structural)]
pub enum DecorationModeConfig {
    Server,
    Client,
    Auto,
    Off,
}

/// The settings that window management reads.
#[derive(Debug, Clone, Copy, PartialEq, Eq, Structural)]
pub struct Settings {
    pub layout: WindowLayout,
    pub work_area_padding: i32,
    pub gap: i32,
    pub master_ratio: Real64,
    pub default_size: Size,
    pub server_side_decorations: bool,
    pub decoration_mode: DecorationModeConfig,
    pub titlebar_height: i32,
    pub border_width: i32,
    pub raise_on_focus: bool,
    pub focus_new_windows: bool,
    pub focus_previous_on_close: bool,
    pub warp_cursor: bool,
    pub workspace_count: u64,
    pub dynamic_workspaces: bool,
    pub wrap_workspaces: bool,
    pub animations: bool,
    pub window_open_ms: u64,
    pub workspace_ms: u64,
}

impl Settings {
    /// The ranges that configuration checks guarantee.
    pub open spec fn wf(self) -> bool {
        &&& 0 <= self.work_area_padding <= 512
        &&& 0 <= self.gap <= MAX_GAP
        &&& 0 <= self.titlebar_height <= 96
        &&& 0 <= self.border_width <= 16
        &&& 1 <= self.workspace_count <= 100
    }
}

/// A resize that the client still catches up with.
#[derive(Debug, Clone, Copy, PartialEq, Eq, Structural)]
pub struct PendingResize {
    pub anchor: ResizeAnchor,
    pub active: bool,
}

/// What is known of a window.
#[derive(Debug, Clone, Copy, PartialEq, Eq, Structural)]
pub struct ManagedWindow {
    pub id: WindowId,
    pub workspace: u64,
    pub mapped: bool,
    /// When the opening animation began.
    pub opened_at: Option<u64>,
    /// Where the window was when it was minimized.
    pub minimized: Option<Location>,
    /// The geometry to go back to.
    pub restore: Option<Rect>,
    pub fullscreen: bool,
    pub maximized: bool,
    pub resize: Option<PendingResize>,
    /// Where the window is on the desktop, while it is on it.
    pub place: Option<Location>,
    /// The size the client last drew.
    pub size: Size,
    pub floating: Option<bool>,
    pub always_on_top: Option<bool>,
    pub decoration: Option<bool>,
    pub opacity: Option<Real32>,
    /// The client leaves decorations to the compositor.
    pub wants_decoration: bool,
}

impl ManagedWindow {
    /// The window's place and size, while it is on the desktop.
    pub open spec fn geometry(self) -> Option<Rect> {
        match self.place {
            Some(place) => Some(
                Rect { x: place.x, y: place.y, width: self.size.w, height: self.size.h },
            ),
            None => None,
        }
    }

    /// On the screen when its workspace is.
    pub open spec fn shown(self) -> bool {
        self.mapped && self.minimized is None
    }
}

/// An output and the workspace it displays.
#[derive(Debug, Clone, Copy, PartialEq, Eq, Structural)]
pub struct OutputState {
    pub geometry: Rect,
    /// What panels leave free, relative to the output.
    pub zone: Rect,
    pub workspace: u64,
    /// When the last workspace change began to animate.
    pub animation: Option<u64>,
}

/// The widest gap that can be configured between tiles.
pub const MAX_GAP: i32 = 512;

/// The most that a frame takes in one direction: two borders and a titlebar.
pub const FRAME_ROOM: i32 = 128;

/// Half of the widest window there can be.
pub const HALF_WINDOW: i32 = 0x4000_0000;

/// Whatever is arranged on an output has machine coordinates: a window that is
/// centered there and hangs over its left edge, and so many windows that are
/// stacked with the widest gap and a pixel each, with a frame around them.
pub open spec fn room(geometry: Rect, zone: Rect, windows: nat) -> bool {
    let x = geometry.x + zone.x;
    let y = geometry.y + zone.y;
    &&& geometry.width >= 0 && geometry.height >= 0
    &&& zone.width >= 0 && zone.height >= 0
    &&& geometry::fits(x - HALF_WINDOW)
    &&& geometry::fits(y)
    &&& geometry::fits(x + zone.width + FRAME_ROOM)
    &&& geometry::fits(y + zone.height + windows * (MAX_GAP + 1) + FRAME_ROOM)
}

/// Where a panel or wallpaper surface is drawn.
#[derive(Debug, Clone, Copy, PartialEq, Eq, Structural)]
pub enum Layer {
    Background,
    Bottom,
    Top,
    Overlay,
}

/// Whether a panel takes the keyboard.
#[derive(Debug, Clone, Copy, PartialEq, Eq, Structural)]
pub enum KeyboardInteractivity {
    Never,
    OnDemand,
    Exclusive,
}

/// A panel, launcher or wallpaper surface.
#[derive(Debug, Clone, Copy, PartialEq, Eq, Structural)]
pub struct LayerState {
    pub id: u64,
    pub layer: Layer,
    pub interactivity: KeyboardInteractivity,
    /// The client was told its first size.
    pub configured: bool,
}

impl LayerState {
    /// Above the windows.
    pub open spec fn above(self) -> bool {
        self.layer is Top || self.layer is Overlay
    }

    /// Takes the keyboard from everyone else.
    pub open spec fn exclusive(self) -> bool {
        self.above() && self.interactivity is Exclusive && self.configured
    }
}

/// Who has the keyboard.
#[derive(Debug, Clone, Copy, PartialEq, Eq, Structural)]
pub enum FocusTarget {
    Nobody,
    Window(WindowId),
    Layer(u64),
    Other,
}

/// What the program has to do, in order.
#[derive(Debug, Clone, Copy, PartialEq, Eq, Structural)]
pub enum Effect {
    /// Ask the client for a size, or leave the size to it.
    Configure { id: WindowId, size: Option<Size> },
    /// Note the size to ask for with the next configuration.
    ProposeSize { id: WindowId, size: Option<Size> },
    /// Tell the client the scale of an output.
    SendScale { id: WindowId, output: usize },
    /// Ask the client to cover the output.
    ConfigureFullscreen { id: WindowId, area: Size },
    /// Repeat the last configuration.
    SendConfigure { id: WindowId },
    SetMaximizedState { id: WindowId, on: bool },
    SetFullscreenState { id: WindowId, on: bool },
    SetTiledState { id: WindowId },
    SetDecorationMode { id: WindowId, server: bool },
    /// Put the window at a location, on top of the others.
    Place { id: WindowId, location: Location },
    /// Take the window off the desktop.
    Unplace { id: WindowId },
    Raise { id: WindowId },
    SendClose { id: WindowId },
    Focus { target: FocusTarget },
    Activate { id: WindowId, on: bool },
    WarpPointer { to: Point },
    ListForeign { id: WindowId },
    UnlistForeign { id: WindowId },
    /// The next commit of the client is answered like a first one.
    ResetConfigure { id: WindowId },
    WindowOpened { id: WindowId },
    WindowClosed { id: WindowId },
    WindowFocused { id: WindowId },
    FocusCleared,
    WindowGeometryChanged { id: WindowId, geometry: Rect },
    WindowMinimized { id: WindowId },
    WindowRestored { id: WindowId },
    WindowMaximized { id: WindowId, maximized: bool },
    OutputAdded { output: usize },
    WorkAreaChanged { output: usize },
    WorkspaceActivated { output: usize, workspace: u64 },
    WorkspacesChanged,
}

/// The entries other than one.
pub open spec fn without(entries: Seq<WindowId>, id: WindowId) -> Seq<WindowId> {
    entries.filter(other_than(id))
}

/// Anything but one entry.
pub open spec fn other_than(id: WindowId) -> spec_fn(WindowId) -> bool {
    |entry: WindowId| entry != id
}

/// A workspace and what had the focus on it, the most recent window last.
#[verifier::ext_equal]
pub struct WorkspaceModel {
    pub id: u64,
    pub name: Seq<char>,
    pub output: Option<Seq<char>>,
    pub focused_window: Option<WindowId>,
    pub focus_history: Seq<WindowId>,
}

impl WorkspaceModel {
    /// The window has or had the focus of the workspace.
    pub open spec fn remembers(self, id: WindowId) -> bool {
        self.focus_history.contains(id) || self.focused_window == Some(id)
    }

    /// The workspace without any memory of a window: where it had the focus,
    /// the one focused before it follows.
    pub open spec fn forget(self, id: WindowId) -> WorkspaceModel {
        let history = without(self.focus_history, id);
        WorkspaceModel {
            focus_history: history,
            focused_window: if self.focused_window == Some(id) {
                if history.len() > 0 {
                    Some(history.last())
                } else {
                    None
                }
            } else {
                self.focused_window
            },
            ..self
        }
    }

    /// The workspace once a window on it got the focus.
    pub open spec fn remember(self, id: WindowId) -> WorkspaceModel {
        WorkspaceModel {
            focused_window: Some(id),
            focus_history: without(self.focus_history, id).push(id),
            ..self
        }
    }
}

/// The whole desktop.
#[verifier::ext_equal]
pub struct DesktopModel {
    pub settings: Settings,
    /// In the order in which they were created.
    pub windows: Seq<ManagedWindow>,
    /// The windows on the desktop, the topmost last.
    pub stack: Seq<WindowId>,
    pub workspaces: Seq<WorkspaceModel>,
    pub outputs: Seq<OutputState>,
    pub output_names: Seq<Seq<char>>,
    pub focused_output: Option<usize>,
    pub layers: Seq<LayerState>,
    pub focused_window: Option<WindowId>,
    pub keyboard: FocusTarget,
    pub pointer: Option<Point>,
    pub next_window_id: u64,
    pub next_workspace_id: u64,
    pub redraw: bool,
    pub pointer_dirty: bool,
    pub effects: Seq<Effect>,
}

/// The place of a window in the list.
pub open spec fn listed(windows: Seq<ManagedWindow>, id: WindowId) -> bool {
    exists|i: int| 0 <= i < windows.len() && (#[trigger] windows[i]).id == id
}

pub open spec fn place_in(windows: Seq<ManagedWindow>, id: WindowId) -> int {
    choose|i: int| 0 <= i < windows.len() && (#[trigger] windows[i]).id == id
}

/// The first output from `from` on that shows the workspace.
pub open spec fn output_showing(outputs: Seq<OutputState>, workspace: u64, from: int) -> Option<
    int,
>
    decreases outputs.len() - from,
{
    if from < 0 || from >= outputs.len() {
        None
    } else if outputs[from].workspace == workspace {
        Some(from)
    } else {
        output_showing(outputs, workspace, from + 1)
    }
}

/// The first output from `from` on with a name.
pub open spec fn output_named(names: Seq<Seq<char>>, name: Seq<char>, from: int) -> Option<int>
    decreases names.len() - from,
{
    if from < 0 || from >= names.len() {
        None
    } else if names[from] == name {
        Some(from)
    } else {
        output_named(names, name, from + 1)
    }
}

/// The outputs with a name display a workspace; an animation from `now` on
/// shows the switch.
pub open spec fn switched(
    outputs: Seq<OutputState>,
    names: Seq<Seq<char>>,
    name: Seq<char>,
    workspace: u64,
    now: Option<u64>,
) -> Seq<OutputState> {
    Seq::new(
        outputs.len(),
        |i: int|
            if names[i] == name {
                OutputState {
                    workspace,
                    animation: if now is Some {
                        now
                    } else {
                        outputs[i].animation
                    },
                    ..outputs[i]
                }
            } else {
                outputs[i]
            },
    )
}

/// The place of the first workspace with the id from `from` on.
pub open spec fn workspace_from(workspaces: Seq<WorkspaceModel>, id: u64, from: int) -> Option<int>
    decreases workspaces.len() - from,
{
    if from < 0 || from >= workspaces.len() {
        None
    } else if workspaces[from].id == id {
        Some(from)
    } else {
        workspace_from(workspaces, id, from + 1)
    }
}

impl DesktopModel {
    /// Window ids are unique and grow with age, and none is used twice.
    pub open spec fn ids_ok(self) -> bool {
        &&& forall|i: int, j: int|
            0 <= i < j < self.windows.len() ==> (#[trigger] self.windows[i]).id.0
                < (#[trigger] self.windows[j]).id.0
        &&& forall|i: int|
            0 <= i < self.windows.len() ==> (#[trigger] self.windows[i]).id.0 < self.next_window_id
    }

    /// Every window that has a place is on the stack, once.
    pub open spec fn stack_ok(self) -> bool {
        &&& self.stack.no_duplicates()
        &&& forall|id: WindowId| #[trigger]
            self.stack.contains(id) <==> self.has(id) && self.window(id).place is Some
    }

    /// Outputs have room for all windows. Those of one name show one
    /// workspace, and the first of a name has the focus.
    pub open spec fn outputs_ok(self) -> bool {
        &&& self.outputs.len() == self.output_names.len()
        &&& forall|i: int|
            0 <= i < self.outputs.len() ==> room(
                (#[trigger] self.outputs[i]).geometry,
                self.outputs[i].zone,
                self.windows.len(),
            )
        &&& forall|i: int, j: int|
            0 <= i < self.outputs.len() && 0 <= j < self.outputs.len()
                && #[trigger] self.output_names[i] == #[trigger] self.output_names[j]
                ==> self.outputs[i].workspace == self.outputs[j].workspace
                && self.outputs[i].animation == self.outputs[j].animation
        &&& match self.focused_output {
            Some(output) => output < self.outputs.len() && output_named(
                self.output_names,
                self.output_names[output as int],
                0,
            ) == Some(output as int),
            None => self.outputs.len() == 0,
        }
    }

    /// There is room for one window more.
    pub open spec fn has_room(self) -> bool {
        self.next_window_id < u64::MAX && forall|i: int|
            0 <= i < self.outputs.len() ==> room(
                (#[trigger] self.outputs[i]).geometry,
                self.outputs[i].zone,
                self.windows.len() + 1,
            )
    }

    /// Workspace ids are unique and below the next one.
    pub open spec fn workspaces_ok(self) -> bool {
        &&& forall|i: int, j: int|
            0 <= i < j < self.workspaces.len() ==> (#[trigger] self.workspaces[i]).id
                != (#[trigger] self.workspaces[j]).id
        &&& forall|i: int|
            0 <= i < self.workspaces.len() ==> (#[trigger] self.workspaces[i]).id
                < self.next_workspace_id
    }

    /// A workspace remembers only windows that there are.
    pub open spec fn focus_ok(self) -> bool {
        &&& forall|i: int, id: WindowId|
            0 <= i < self.workspaces.len() && (#[trigger] self.workspaces[i]).focus_history.contains(
                id,
            ) ==> #[trigger] self.has(id)
        &&& forall|i: int|
            0 <= i < self.workspaces.len() && (
            #[trigger] self.workspaces[i]).focused_window is Some ==> self.has(
                self.workspaces[i].focused_window->0,
            )
    }

    /// A workspace remembers only mapped windows of its own.
    pub open spec fn homed(self) -> bool {
        forall|i: int, id: WindowId|
            0 <= i < self.workspaces.len() && #[trigger] self.workspaces[i].remembers(id)
                ==> self.has(id) && self.window(id).mapped && self.window(id).workspace
                == self.workspaces[i].id
    }

    pub open spec fn wf(self) -> bool {
        &&& self.settings.wf()
        &&& self.ids_ok()
        &&& self.stack_ok()
        &&& self.outputs_ok()
        &&& self.workspaces_ok()
        &&& self.focus_ok()
    }

    pub open spec fn has(self, id: WindowId) -> bool {
        listed(self.windows, id)
    }

    pub open spec fn window(self, id: WindowId) -> ManagedWindow {
        self.windows[place_in(self.windows, id)]
    }

    /// Replaces what is known of a window.
    pub open spec fn with(self, window: ManagedWindow) -> DesktopModel {
        DesktopModel {
            windows: self.windows.update(place_in(self.windows, window.id), window),
            ..self
        }
    }

    pub open spec fn emit(self, effect: Effect) -> DesktopModel {
        DesktopModel { effects: self.effects.push(effect), ..self }
    }

    pub open spec fn repaint(self) -> DesktopModel {
        DesktopModel { redraw: true, ..self }
    }

    pub open spec fn repaint_all(self) -> DesktopModel {
        DesktopModel { redraw: true, pointer_dirty: true, ..self }
    }

    /// The workspace on the focused output.
    pub open spec fn focused_workspace(self) -> u64 {
        match self.focused_output {
            Some(output) => self.outputs[output as int].workspace,
            None => 1,
        }
    }

    /// The focused output, or else the first one.
    pub open spec fn current_output(self) -> Option<int> {
        match self.focused_output {
            Some(output) => Some(output as int),
            None => if self.outputs.len() > 0 {
                Some(0)
            } else {
                None
            },
        }
    }

    /// The output that shows a workspace, or else the focused one.
    pub open spec fn output_for_workspace(self, workspace: u64) -> Option<int> {
        match output_showing(self.outputs, workspace, 0) {
            Some(output) => Some(output),
            None => self.current_output(),
        }
    }

    /// The part of an output that panels leave free.
    pub open spec fn work_area(self, output: int) -> Rect {
        let o = self.outputs[output];
        Rect {
            x: (o.geometry.x + o.zone.x) as i32,
            y: (o.geometry.y + o.zone.y) as i32,
            width: o.zone.width,
            height: o.zone.height,
        }
    }

    pub open spec fn workspace_place(self, id: u64) -> Option<int> {
        workspace_from(self.workspaces, id, 0)
    }

    pub open spec fn with_workspace(self, place: int, workspace: WorkspaceModel) -> DesktopModel {
        DesktopModel { workspaces: self.workspaces.update(place, workspace), ..self }
    }

    /// The window is arranged by hand and not by the layout.
    pub open spec fn floats(self, id: WindowId) -> bool {
        let rule = if self.has(id) {
            self.window(id).floating
        } else {
            None
        };
        rule == Some(true) || (self.settings.layout != WindowLayout::Tiling && rule != Some(false))
    }

    /// The compositor draws a frame around the window.
    pub open spec fn decorated(self, id: WindowId) -> bool {
        if self.has(id) && self.window(id).fullscreen {
            false
        } else {
            match self.settings.decoration_mode {
                DecorationModeConfig::Server => true,
                DecorationModeConfig::Client => false,
                DecorationModeConfig::Off => false,
                DecorationModeConfig::Auto => self.settings.server_side_decorations && self.has(id)
                    && self.window(id).wants_decoration,
            }
        }
    }

    pub open spec fn insets(self, id: WindowId) -> Insets {
        layout::insets_of(
            self.decorated(id),
            self.settings.layout == WindowLayout::Tiling,
            self.settings.titlebar_height,
            self.settings.border_width,
        )
    }

    /// Puts a window on the desktop, on top of the others.
    pub open spec fn put(self, id: WindowId, location: Location) -> DesktopModel {
        let stack = without(self.stack, id).push(id);
        DesktopModel { stack, ..self.with(
            ManagedWindow { place: Some(location), ..self.window(id) },
        ) }.emit(Effect::Place { id, location })
    }

    /// Takes a window off the desktop.
    pub open spec fn take_off(self, id: WindowId) -> DesktopModel {
        let stack = without(self.stack, id);
        DesktopModel { stack, ..self.with(ManagedWindow { place: None, ..self.window(id) }) }.emit(
            Effect::Unplace { id },
        )
    }

    /// Brings a window to the top, if it is on the desktop.
    pub open spec fn raise(self, id: WindowId) -> DesktopModel {
        if self.stack.contains(id) {
            DesktopModel {
                stack: without(self.stack, id).push(id),
                ..self
            }.emit(Effect::Raise { id })
        } else {
            self
        }
    }

    /// Tells where a window is.
    pub open spec fn report_geometry(self, id: WindowId) -> DesktopModel {
        match self.window(id).geometry() {
            Some(geometry) if self.has(id) => self.emit(
                Effect::WindowGeometryChanged { id, geometry },
            ),
            _ => self,
        }
    }

    /// Moves a window, unless it is there already.
    pub open spec fn move_window(self, id: WindowId, location: Location) -> DesktopModel {
        if self.window(id).place == Some(location) {
            self
        } else {
            self.put(id, location).report_geometry(id).repaint_all()
        }
    }

    /// Asks a window for a size and moves it.
    pub open spec fn configure_and_place(self, id: WindowId, rect: Rect) -> DesktopModel {
        self.emit(
            Effect::Configure { id, size: Some(Size { w: rect.width, h: rect.height }) },
        ).move_window(id, Location { x: rect.x, y: rect.y })
    }

    /// The layout arranges the window.
    pub open spec fn tiled(self, window: ManagedWindow, workspace: u64) -> bool {
        &&& window.workspace == workspace
        &&& window.shown()
        &&& !window.fullscreen
        &&& !self.floats(window.id)
    }

    /// The windows that the layout arranges on a workspace.
    pub open spec fn tiled_windows(self, workspace: u64) -> Seq<ManagedWindow> {
        self.windows.filter(|w: ManagedWindow| self.tiled(w, workspace))
    }

    /// The tile of a window within the work area.
    pub open spec fn tile_of(self, area: Rect, count: int, index: int) -> Rect {
        layout::tile(
            layout::padded(area, self.settings.work_area_padding as int).rect(),
            count,
            layout::usable_gap(area, self.settings.gap as int),
            self.settings.master_ratio,
            index,
        ).rect()
    }

    /// Puts the first `n` of the given windows into their tiles.
    pub open spec fn tile_first(self, windows: Seq<ManagedWindow>, area: Rect, n: nat) -> DesktopModel
        decreases n,
    {
        if n == 0 {
            self
        } else {
            let before = self.tile_first(windows, area, (n - 1) as nat);
            let id = windows[n - 1].id;
            before.configure_and_place(
                id,
                layout::client_box(
                    self.tile_of(area, windows.len() as int, n - 1),
                    self.insets(id),
                ).rect(),
            )
        }
    }

    /// Arranges a workspace: the first window is the master, the others are
    /// stacked beside it.
    pub open spec fn retile(self, workspace: u64) -> DesktopModel {
        let windows = self.tiled_windows(workspace);
        match self.output_for_workspace(workspace) {
            Some(output) if windows.len() > 0 => self.tile_first(
                windows,
                self.work_area(output),
                windows.len(),
            ),
            _ => self,
        }
    }
}


/// The first layer from `from` on that takes the keyboard from everyone.
pub open spec fn exclusive_layer(layers: Seq<LayerState>, from: int) -> Option<u64>
    decreases layers.len() - from,
{
    if from < 0 || from >= layers.len() {
        None
    } else if layers[from].exclusive() {
        Some(layers[from].id)
    } else {
        exclusive_layer(layers, from + 1)
    }
}

impl DesktopModel {
    /// Asks for the keyboard focus to move, unless it is there already.
    pub open spec fn request_focus(self, target: FocusTarget) -> DesktopModel {
        if self.keyboard == target {
            self
        } else {
            DesktopModel { keyboard: target, ..self }.emit(Effect::Focus { target })
        }
    }

    /// Moves the keyboard focus; a layer that takes the keyboard wins.
    pub open spec fn set_keyboard_focus(self, target: FocusTarget) -> DesktopModel {
        self.request_focus(
            match exclusive_layer(self.layers, 0) {
                Some(layer) => FocusTarget::Layer(layer),
                None => target,
            },
        )
    }

    /// Gives a window the focus.
    pub open spec fn focus_window(self, id: WindowId) -> DesktopModel {
        let raised = if self.settings.raise_on_focus || self.window(id).fullscreen {
            self.raise(id)
        } else {
            self
        };
        raised.set_keyboard_focus(FocusTarget::Window(id)).repaint_all()
    }

    /// The window could get the focus on the workspace instead of the one
    /// that has it.
    pub open spec fn focusable(self, id: WindowId, workspace: u64) -> bool {
        &&& Some(id) != self.focused_window
        &&& self.has(id)
        &&& self.window(id).shown()
        &&& self.window(id).workspace == workspace
    }

    /// The last of the first `n` entries of a history that could get the focus.
    pub open spec fn last_focusable(
        self,
        history: Seq<WindowId>,
        workspace: u64,
        n: nat,
    ) -> Option<WindowId>
        decreases n,
    {
        if n == 0 {
            None
        } else if self.focusable(history[n - 1], workspace) {
            Some(history[n - 1])
        } else {
            self.last_focusable(history, workspace, (n - 1) as nat)
        }
    }

    /// The window that was focused before on the focused workspace.
    pub open spec fn previous_focus(self) -> Option<WindowId> {
        let workspace = self.focused_workspace();
        match self.workspace_place(workspace) {
            Some(place) => self.last_focusable(
                self.workspaces[place].focus_history,
                workspace,
                self.workspaces[place].focus_history.len(),
            ),
            None => None,
        }
    }

    /// Gives the focus back to the window that had it before.
    pub open spec fn focus_previous(self) -> DesktopModel {
        match self.previous_focus() {
            Some(id) => self.focus_window(id),
            None => self.set_keyboard_focus(FocusTarget::Nobody),
        }
    }

    /// Takes the pointer to the middle of a window, if it is elsewhere.
    pub open spec fn warp_pointer(self, id: WindowId) -> DesktopModel {
        match (self.window(id).geometry(), self.pointer) {
            (Some(geometry), Some(pointer)) => if self.settings.warp_cursor && !geometry.covers(
                pointer,
            ) {
                self.emit(
                    Effect::WarpPointer {
                        to: Point {
                            x: (4 * geometry.x + 2 * geometry.width) as i64,
                            y: (4 * geometry.y + 2 * geometry.height) as i64,
                        },
                    },
                ).repaint()
            } else {
                self
            },
            _ => self,
        }
    }

    /// Focuses a window of the focused workspace, bringing it back if it was
    /// minimized.
    pub open spec fn focus_here(self, id: WindowId) -> DesktopModel {
        let window = self.window(id);
        let restored = match window.minimized {
            Some(location) => self.with(ManagedWindow { minimized: None, ..window }).put(
                id,
                location,
            ).retile(window.workspace).emit(Effect::WindowRestored { id }),
            None => self,
        };
        restored.focus_window(id).warp_pointer(id)
    }

    /// The workspace that a number selects: itself, or, where numbers wrap
    /// around, its remainder.
    pub open spec fn workspace_target(self, id: u64) -> Option<u64> {
        let count = self.settings.workspace_count;
        if self.workspace_place(id) is Some {
            Some(id)
        } else if !self.settings.wrap_workspaces || self.settings.dynamic_workspaces {
            None
        } else if id == 0 {
            Some(count)
        } else {
            Some(((id - 1) % count as int + 1) as u64)
        }
    }

    /// The topmost of the `n` lowest windows that is shown on the workspace.
    pub open spec fn topmost_below(self, workspace: u64, n: nat) -> Option<WindowId>
        decreases n,
    {
        if n == 0 {
            None
        } else {
            let id = self.stack[n - 1];
            if self.has(id) && self.window(id).shown() && self.window(id).workspace == workspace {
                Some(id)
            } else {
                self.topmost_below(workspace, (n - 1) as nat)
            }
        }
    }

    /// The topmost window that is shown on the workspace.
    pub open spec fn topmost(self, workspace: u64) -> Option<WindowId> {
        self.topmost_below(workspace, self.stack.len())
    }

    /// Lets an output, and all others of its name, display a workspace.
    pub open spec fn show(self, output: int, workspace: u64, now: u64) -> DesktopModel {
        DesktopModel {
            outputs: switched(
                self.outputs,
                self.output_names,
                self.output_names[output],
                workspace,
                Some(now),
            ),
            ..self
        }.emit(Effect::WorkspaceActivated { output: output as usize, workspace })
    }

    /// The window that gets the focus when a workspace is shown.
    pub open spec fn workspace_focus(self, workspace: u64) -> Option<WindowId> {
        match self.workspace_place(workspace) {
            Some(place) if self.workspaces[place].focused_window is Some => {
                self.workspaces[place].focused_window
            },
            _ => self.topmost(workspace),
        }
    }

    /// Shows a workspace on the focused output. An output that showed it gets
    /// the workspace that it replaces.
    pub open spec fn show_workspace(self, output: int, id: u64, now: u64) -> DesktopModel {
        let current = self.outputs[output].workspace;
        let swapped = match output_showing(self.outputs, id, 0) {
            Some(other) => self.show(other, current, now),
            None => self,
        };
        let shown = swapped.show(output, id, now);
        let focused = match shown.workspace_focus(id) {
            Some(window) if shown.has(window) && shown.window(window).mapped => {
                shown.focus_here(window)
            },
            _ => shown.set_keyboard_focus(FocusTarget::Nobody),
        };
        focused.repaint_all()
    }

    /// Switches the focused output to a workspace.
    pub open spec fn switch_workspace(self, id: u64, now: u64) -> (DesktopModel, bool) {
        match (self.workspace_target(id), self.current_output()) {
            (Some(target), Some(output)) => if target == self.outputs[output].workspace {
                (self, true)
            } else {
                (self.show_workspace(output, target, now), true)
            },
            _ => (self, false),
        }
    }

    /// Focuses a window, switching to its workspace if that is not shown.
    pub open spec fn focus_by_id(self, id: WindowId, now: u64) -> (DesktopModel, bool) {
        if !self.has(id) || !self.window(id).mapped {
            (self, false)
        } else if self.window(id).workspace != self.focused_workspace() {
            let workspace = self.window(id).workspace;
            let noted = match self.workspace_place(workspace) {
                Some(place) => self.with_workspace(
                    place,
                    WorkspaceModel { focused_window: Some(id), ..self.workspaces[place] },
                ),
                None => self,
            };
            noted.switch_workspace(workspace, now)
        } else {
            (self.focus_here(id), true)
        }
    }

    /// Moves a window to another workspace.
    pub open spec fn move_to_workspace(self, id: WindowId, workspace: u64) -> (DesktopModel, bool) {
        if self.workspace_place(workspace) is None || !self.has(id) {
            (self, false)
        } else if self.window(id).workspace == workspace {
            (self, true)
        } else {
            let previous = self.window(id).workspace;
            let forgotten = match self.workspace_place(previous) {
                Some(place) => self.with_workspace(place, self.workspaces[place].forget(id)),
                None => self,
            };
            let moved = forgotten.with(ManagedWindow { workspace, ..self.window(id) }).retile(
                previous,
            ).retile(workspace);
            let focused = if moved.focused_window == Some(id) {
                moved.focus_previous()
            } else {
                moved
            };
            (focused.repaint_all().emit(Effect::WorkspacesChanged), true)
        }
    }

    /// Takes a window off the desktop until it is focused again.
    pub open spec fn minimize(self, id: WindowId) -> (DesktopModel, bool) {
        if !self.has(id) {
            (self, false)
        } else {
            match self.window(id).place {
                None => (self, self.window(id).minimized is Some),
                Some(location) => {
                    let workspace = self.window(id).workspace;
                    let gone = self.with(
                        ManagedWindow { minimized: Some(location), ..self.window(id) },
                    ).take_off(id).retile(workspace);
                    let focused = if gone.focused_window == Some(id) {
                        gone.focus_previous()
                    } else {
                        gone
                    };
                    (focused.repaint_all().emit(Effect::WindowMinimized { id }), true)
                },
            }
        }
    }

    /// Notes the geometry to go back to, unless one is noted already.
    pub open spec fn remember_restore(self, id: WindowId) -> DesktopModel {
        if self.window(id).restore is None {
            self.with(
                ManagedWindow { restore: self.window(id).geometry(), ..self.window(id) },
            )
        } else {
            self
        }
    }

    /// Goes back to the noted geometry, or to the layout.
    pub open spec fn restore_geometry(self, id: WindowId) -> DesktopModel {
        let taken = self.with(ManagedWindow { restore: None, ..self.window(id) });
        match self.window(id).restore {
            Some(rect) if self.floats(id) => taken.configure_and_place(id, rect),
            _ => taken.emit(Effect::Configure { id, size: None }).retile(
                self.window(id).workspace,
            ),
        }
    }

    /// Lets a window fill the work area.
    pub open spec fn apply_maximized(self, id: WindowId) -> DesktopModel {
        match self.output_for_workspace(self.window(id).workspace) {
            Some(output) => self.configure_and_place(
                id,
                layout::client_box(self.work_area(output), self.insets(id)).rect(),
            ),
            None => self,
        }
    }

    /// Lets a window cover its output.
    pub open spec fn apply_fullscreen(self, id: WindowId) -> DesktopModel {
        match self.output_for_workspace(self.window(id).workspace) {
            Some(output) => {
                let area = self.outputs[output].geometry;
                self.emit(
                    Effect::ConfigureFullscreen { id, area: Size { w: area.width, h: area.height } },
                ).move_window(id, Location { x: area.x, y: area.y })
            },
            None => self,
        }
    }

    /// Maximizes a window or takes that back. A fullscreen window stays as
    /// it is.
    pub open spec fn set_maximized(self, id: WindowId, on: bool) -> (DesktopModel, bool) {
        if !self.has(id) || self.window(id).fullscreen {
            (self, false)
        } else {
            let noted = if on {
                self.remember_restore(id)
            } else {
                self
            };
            let marked = noted.with(ManagedWindow { maximized: on, ..noted.window(id) }).emit(
                Effect::SetMaximizedState { id, on },
            );
            let placed = if on {
                marked.apply_maximized(id)
            } else {
                marked.restore_geometry(id)
            };
            (placed.emit(Effect::WindowMaximized { id, maximized: on }), true)
        }
    }

    /// Makes a window cover its output or takes that back.
    pub open spec fn set_fullscreen(self, id: WindowId, on: bool) -> DesktopModel {
        if !self.has(id) {
            self
        } else if self.window(id).fullscreen == on {
            self.emit(Effect::SendConfigure { id })
        } else {
            let noted = if on {
                self.remember_restore(id)
            } else {
                self
            };
            let marked = noted.with(ManagedWindow { fullscreen: on, ..noted.window(id) }).emit(
                Effect::SetFullscreenState { id, on },
            );
            let placed = if on {
                marked.apply_fullscreen(id).raise(id)
            } else if marked.window(id).maximized {
                marked.apply_maximized(id)
            } else {
                marked.restore_geometry(id)
            };
            placed.repaint()
        }
    }

    /// Moves and resizes a mapped window on request.
    pub open spec fn move_resize(self, id: WindowId, rect: Rect) -> (DesktopModel, bool) {
        if rect.width <= 0 || rect.height <= 0 || !self.has(id) || !self.window(id).mapped {
            (self, false)
        } else {
            (self.configure_and_place(id, rect), true)
        }
    }

    /// Begins to move a window with the pointer. A maximized window goes back
    /// to its own size first, with its left edge at `x`.
    pub open spec fn begin_move(self, id: WindowId, x: i32) -> (DesktopModel, Option<Location>) {
        match self.window(id).place {
            Some(place) if self.has(id) && self.floats(id) && !self.window(id).fullscreen => {
                if self.window(id).maximized {
                    let start = Location { x, y: place.y };
                    (
                        self.set_maximized(id, false).0.move_window(id, start).focus_window(id),
                        Some(start),
                    )
                } else {
                    (self.focus_window(id), Some(place))
                }
            },
            _ => (self, None),
        }
    }

    /// Begins to resize a window with the pointer.
    pub open spec fn begin_resize(self, id: WindowId, edges: ResizeEdges) -> (
        DesktopModel,
        Option<ResizeAnchor>,
    ) {
        match self.window(id).geometry() {
            Some(initial) if self.has(id) && !edges.none() && self.floats(id) && !self.window(
                id,
            ).fullscreen => {
                let anchor = ResizeAnchor { edges, initial };
                (
                    self.with(
                        ManagedWindow {
                            resize: Some(PendingResize { anchor, active: true }),
                            ..self.window(id)
                        },
                    ).focus_window(id),
                    Some(anchor),
                )
            },
            _ => (self, None),
        }
    }

    /// Ends a resize; the client may still catch up.
    pub open spec fn finish_resize(self, id: WindowId) -> DesktopModel {
        if !self.has(id) {
            self
        } else {
            match self.window(id).resize {
                Some(pending) => self.with(
                    ManagedWindow {
                        resize: Some(PendingResize { active: false, ..pending }),
                        ..self.window(id)
                    },
                ),
                None => self,
            }.report_geometry(id)
        }
    }

    /// Keeps the anchored edges in place after the client drew a new size.
    pub open spec fn apply_resize(self, id: WindowId) -> DesktopModel {
        match self.window(id).resize {
            Some(pending) if self.has(id) => {
                let location = pending.anchor.location(self.window(id).size);
                if pending.active {
                    self.put(id, location)
                } else {
                    self.with(ManagedWindow { resize: None, ..self.window(id) }).put(
                        id,
                        location,
                    ).report_geometry(id)
                }
            },
            _ => self,
        }
    }

    /// No workspace remembers the window any more.
    pub open spec fn forgotten(self, id: WindowId) -> DesktopModel {
        DesktopModel {
            workspaces: self.workspaces.map_values(|w: WorkspaceModel| w.forget(id)),
            ..self
        }
    }

    /// Gives the focus away if the window had it.
    pub open spec fn refocus(self, id: WindowId) -> DesktopModel {
        if self.focused_window == Some(id) {
            let cleared = DesktopModel { focused_window: None, ..self };
            if self.settings.focus_previous_on_close {
                cleared.focus_previous()
            } else {
                cleared.set_keyboard_focus(FocusTarget::Nobody)
            }
        } else {
            self
        }.repaint_all()
    }

    /// Activates the focused one of the mapped windows and deactivates the
    /// others.
    pub open spec fn activations(self, focused: Option<WindowId>) -> Seq<Effect> {
        self.windows.filter(|w: ManagedWindow| w.mapped).map_values(
            |w: ManagedWindow| Effect::Activate { id: w.id, on: Some(w.id) == focused },
        )
    }

    /// Takes note of who has the keyboard now.
    pub open spec fn focus_changed(self, target: FocusTarget, id: Option<WindowId>) -> DesktopModel {
        let noted = DesktopModel { keyboard: target, ..self };
        if id == self.focused_window {
            noted
        } else {
            let activated = DesktopModel {
                focused_window: id,
                effects: self.effects + self.activations(id),
                ..noted
            };
            match id {
                Some(window) => {
                    let remembered = if self.has(window) {
                        match self.workspace_place(self.window(window).workspace) {
                            Some(place) => activated.with_workspace(
                                place,
                                self.workspaces[place].remember(window),
                            ),
                            None => activated,
                        }
                    } else {
                        activated
                    };
                    remembered.emit(Effect::WindowFocused { id: window })
                },
                None => activated.emit(Effect::FocusCleared),
            }.repaint()
        }
    }

    /// Adds a window that is not on the desktop yet.
    pub open spec fn new_toplevel(self) -> (DesktopModel, WindowId) {
        let id = WindowId(self.next_window_id);
        (
            DesktopModel {
                windows: self.windows.push(fresh_window(id, self.focused_workspace())),
                next_window_id: (self.next_window_id + 1) as u64,
                ..self
            },
            id,
        )
    }

    /// Removes a window.
    pub open spec fn destroy(self, id: WindowId) -> DesktopModel {
        if !self.has(id) {
            self
        } else {
            let window = self.window(id);
            let off = self.forgotten(id).take_off(id);
            let removed = DesktopModel {
                windows: off.windows.remove(place_in(off.windows, id)),
                ..off
            }.retile(window.workspace);
            if window.mapped {
                removed.emit(Effect::UnlistForeign { id }).refocus(id).emit(
                    Effect::WindowClosed { id },
                ).emit(Effect::WorkspacesChanged)
            } else {
                removed.refocus(id)
            }
        }
    }

    /// Takes a window off the desktop whose client has nothing to show.
    pub open spec fn unmap(self, id: WindowId) -> DesktopModel {
        let off = self.forgotten(id).take_off(id);
        off.with(ManagedWindow { mapped: false, minimized: None, ..off.window(id) }).emit(
            Effect::UnlistForeign { id },
        ).emit(Effect::ResetConfigure { id }).retile(self.window(id).workspace).refocus(id).emit(
            Effect::WindowClosed { id },
        ).emit(Effect::WorkspacesChanged)
    }

    /// The output a new window belongs on: the one its rules name, the one
    /// that shows its workspace, or the focused one.
    pub open spec fn output_for_new(self, named: Option<int>, workspace: u64) -> Option<int> {
        match named {
            Some(output) => Some(output),
            None => self.output_for_workspace(workspace),
        }
    }

    /// Where a new window goes, if its rules do not say.
    pub open spec fn initial_area(self, named: Option<int>, workspace: u64) -> Rect {
        match self.output_for_new(named, workspace) {
            Some(output) => self.work_area(output),
            None => Rect { x: 0, y: 0, width: 1280, height: 720 },
        }
    }

    /// Where a new window goes.
    pub open spec fn initial_place(
        self,
        id: WindowId,
        named: Option<int>,
        workspace: u64,
        position: Option<Location>,
    ) -> Location {
        match position {
            Some(location) => location,
            None => {
                let (x, y) = layout::centered(
                    self.initial_area(named, workspace),
                    self.window(id).size,
                    self.insets(id).top as int,
                );
                Location { x: x as i32, y: y as i32 }
            },
        }
    }

    /// Puts a new window on the desktop.
    pub open spec fn map_window(
        self,
        id: WindowId,
        workspace: u64,
        named: Option<int>,
        position: Option<Location>,
        now: u64,
    ) -> DesktopModel {
        let location = self.initial_place(id, named, workspace, position);
        let mapped = self.emit(Effect::ListForeign { id }).with(
            ManagedWindow {
                mapped: true,
                workspace,
                opened_at: if self.settings.animations {
                    Some(now)
                } else {
                    None
                },
                ..self.window(id)
            },
        ).put(id, location).emit(Effect::WindowOpened { id }).emit(
            Effect::WorkspacesChanged,
        ).retile(workspace);
        let focused = if workspace == mapped.focused_workspace()
            && mapped.settings.focus_new_windows {
            mapped.focus_window(id)
        } else {
            match mapped.workspace_place(workspace) {
                Some(place) => mapped.with_workspace(
                    place,
                    WorkspaceModel {
                        focus_history: mapped.workspaces[place].focus_history.insert(0, id),
                        focused_window: match mapped.workspaces[place].focused_window {
                            Some(other) => Some(other),
                            None => Some(id),
                        },
                        ..mapped.workspaces[place]
                    },
                ),
                None => mapped,
            }
        };
        focused.repaint_all()
    }

    /// Arranges the first `n` workspaces.
    pub open spec fn retile_first(self, n: nat) -> DesktopModel
        decreases n,
    {
        if n == 0 {
            self
        } else {
            self.retile_first((n - 1) as nat).retile(self.workspaces[n - 1].id)
        }
    }

    /// Fits the first `n` windows to their output again.
    pub open spec fn refit_first(self, n: nat) -> DesktopModel
        decreases n,
    {
        if n == 0 {
            self
        } else {
            let before = self.refit_first((n - 1) as nat);
            let window = self.windows[n - 1];
            if !window.shown() {
                before
            } else if window.fullscreen {
                before.apply_fullscreen(window.id)
            } else if window.maximized {
                before.apply_maximized(window.id)
            } else {
                before
            }
        }
    }

    /// Arranges everything again.
    pub open spec fn relayout(self) -> DesktopModel {
        let tiled = self.retile_first(self.workspaces.len());
        tiled.refit_first(tiled.windows.len())
    }
}

/// What the rules say about a new window.
#[derive(Debug, Clone, Copy, PartialEq, Eq, Structural)]
pub struct RuleOutcome {
    pub floating: Option<bool>,
    pub size: Option<Size>,
    pub opacity: Option<Real32>,
    pub always_on_top: Option<bool>,
    pub decoration: Option<bool>,
}

impl DesktopModel {
    /// The window with what the rules say about it.
    pub open spec fn ruled(self, id: WindowId, rule: RuleOutcome) -> ManagedWindow {
        ManagedWindow {
            floating: rule.floating,
            opacity: rule.opacity,
            always_on_top: rule.always_on_top,
            decoration: rule.decoration,
            wants_decoration: match rule.decoration {
                Some(server) => server,
                None => self.window(id).wants_decoration,
            },
            ..self.window(id)
        }
    }

    /// The size a new tiled window is asked for: the work area without the
    /// padding and the frame.
    pub open spec fn tiled_size(self, id: WindowId, output: int) -> Size {
        let area = self.work_area(output);
        let insets = self.insets(id);
        let padding = self.settings.work_area_padding;
        Size {
            w: geometry::greatest(area.width - 2 * padding - insets.horizontal, 1) as i32,
            h: geometry::greatest(area.height - 2 * padding - insets.vertical, 1) as i32,
        }
    }

    /// Answers the first commit of a window.
    pub open spec fn configure_new(
        self,
        id: WindowId,
        rule: RuleOutcome,
        fixed_size: bool,
    ) -> DesktopModel {
        let decided = match rule.decoration {
            Some(server) => self.emit(Effect::SetDecorationMode { id, server }),
            None => self,
        };
        let known = decided.with(self.ruled(id, rule));
        let size = match rule.size {
            Some(size) => Some(size),
            None => if fixed_size {
                None
            } else {
                Some(self.settings.default_size)
            },
        };
        match known.current_output() {
            Some(output) => if known.floats(id) {
                known.emit(Effect::ProposeSize { id, size })
            } else {
                known.emit(
                    Effect::ProposeSize { id, size: Some(known.tiled_size(id, output)) },
                ).emit(Effect::SetTiledState { id })
            }.emit(Effect::SendScale { id, output: output as usize }),
            None => known.emit(Effect::ProposeSize { id, size }),
        }.emit(Effect::SendConfigure { id })
    }

    /// No output shows the workspace.
    pub open spec fn unassigned(self, workspace: WorkspaceModel) -> bool {
        output_showing(self.outputs, workspace.id, 0) is None
    }

    /// The first workspace from `from` on that no output shows and, if a name
    /// is given, that is meant for the output of that name.
    pub open spec fn free_workspace(self, name: Option<Seq<char>>, from: int) -> Option<u64>
        decreases self.workspaces.len() - from,
    {
        if from < 0 || from >= self.workspaces.len() {
            None
        } else if self.unassigned(self.workspaces[from]) && (name is None
            || self.workspaces[from].output == name) {
            Some(self.workspaces[from].id)
        } else {
            self.free_workspace(name, from + 1)
        }
    }

    /// The workspace for a new output: one meant for it, any free one, or
    /// the first.
    pub open spec fn workspace_for_new_output(self, name: Seq<char>) -> u64 {
        match self.free_workspace(Some(name), 0) {
            Some(id) => id,
            None => match self.free_workspace(None, 0) {
                Some(id) => id,
                None => 1,
            },
        }
    }

    /// Adds an output; the first one gets the focus. Others of its name follow
    /// it to its workspace.
    pub open spec fn add_output(self, name: Seq<char>, geometry: Rect, zone: Rect) -> DesktopModel {
        let workspace = self.workspace_for_new_output(name);
        let output = self.outputs.len() as usize;
        let animation = match output_named(self.output_names, name, 0) {
            Some(other) => self.outputs[other].animation,
            None => None,
        };
        DesktopModel {
            outputs: switched(self.outputs, self.output_names, name, workspace, None).push(
                OutputState { geometry, zone, workspace, animation },
            ),
            output_names: self.output_names.push(name),
            focused_output: match self.focused_output {
                Some(focused) => Some(focused),
                None => Some(output),
            },
            ..self
        }.emit(Effect::OutputAdded { output }).emit(
            Effect::WorkspaceActivated { output, workspace },
        )
    }

    /// An output with another geometry or other panels.
    pub open spec fn with_output(self, output: int, geometry: Rect, zone: Rect) -> DesktopModel {
        DesktopModel {
            outputs: self.outputs.update(
                output,
                OutputState { geometry, zone, ..self.outputs[output] },
            ),
            ..self
        }
    }

    /// An output changed its mode or scale.
    pub open spec fn output_changed(
        self,
        output: int,
        geometry: Rect,
        zone: Rect,
        arranged: bool,
    ) -> DesktopModel {
        let changed = self.with_output(output, geometry, zone);
        let told = if arranged {
            changed.emit(Effect::WorkAreaChanged { output: output as usize })
        } else {
            changed
        };
        told.relayout().repaint_all()
    }

    /// The panels of an output changed.
    pub open spec fn layers_arranged(self, output: int, zone: Rect) -> DesktopModel {
        self.with_output(output, self.outputs[output].geometry, zone).emit(
            Effect::WorkAreaChanged { output: output as usize },
        ).relayout()
    }

    /// The last of the first `n` outputs that a position is on.
    pub open spec fn output_below(self, p: Point, n: nat) -> Option<int>
        decreases n,
    {
        if n == 0 {
            None
        } else if self.outputs[n - 1].geometry.covers(p) {
            Some(n - 1)
        } else {
            self.output_below(p, (n - 1) as nat)
        }
    }

    /// The output that a position is on; the one added last wins.
    pub open spec fn output_at(self, p: Point) -> Option<int> {
        self.output_below(p, self.outputs.len())
    }

    /// The output at a position gets the focus, or rather the first of its
    /// name.
    pub open spec fn focus_output_at(self, p: Point) -> DesktopModel {
        match self.output_at(p) {
            Some(output) => DesktopModel {
                focused_output: match output_named(
                    self.output_names,
                    self.output_names[output],
                    0,
                ) {
                    Some(first) => Some(first as usize),
                    None => None,
                },
                ..self
            },
            None => self,
        }
    }

    /// The window is on the screen of an output.
    pub open spec fn visible_on(self, id: WindowId, output: int) -> bool {
        self.has(id) && self.window(id).shown() && self.window(id).workspace
            == self.outputs[output].workspace
    }

    /// The windows of an output in one of the four levels, bottom to top.
    pub open spec fn level(self, output: int, fullscreen: bool, on_top: bool) -> Seq<WindowId> {
        self.stack.filter(
            |id: WindowId|
                self.visible_on(id, output) && self.window(id).fullscreen == fullscreen && (
                self.window(id).always_on_top == Some(true)) == on_top,
        )
    }

    /// The windows of an output, bottom to top: fullscreen windows above the
    /// others, and within both those that stay on top above the others.
    pub open spec fn z_order(self, output: int) -> Seq<WindowId> {
        self.level(output, false, false) + self.level(output, false, true) + self.level(
            output,
            true,
            false,
        ) + self.level(output, true, true)
    }

    /// A layer that wants the keyboard gets it.
    pub open spec fn focus_layer(self, layer: LayerState) -> DesktopModel {
        let wants = match layer.interactivity {
            KeyboardInteractivity::Exclusive => layer.above(),
            KeyboardInteractivity::OnDemand => self.keyboard == FocusTarget::Nobody,
            KeyboardInteractivity::Never => false,
        };
        if wants {
            self.request_focus(FocusTarget::Layer(layer.id))
        } else {
            self
        }
    }

    /// The window that the focused workspace remembers, if it is shown.
    pub open spec fn focused_workspace_window(self) -> Option<WindowId> {
        match self.workspace_place(self.focused_workspace()) {
            Some(place) => match self.workspaces[place].focused_window {
                Some(id) if self.has(id) && self.window(id).shown() => Some(id),
                _ => None,
            },
            None => None,
        }
    }

    /// A layer is gone; where it had the keyboard, or nobody had, the
    /// remembered window gets it.
    pub open spec fn layer_removed(self, layer: u64) -> DesktopModel {
        let removed = DesktopModel {
            layers: self.layers.filter(|l: LayerState| l.id != layer),
            ..self
        };
        if self.keyboard == FocusTarget::Layer(layer) || self.keyboard == FocusTarget::Nobody {
            removed.request_focus(FocusTarget::Nobody).set_keyboard_focus(
                match removed.focused_workspace_window() {
                    Some(id) => FocusTarget::Window(id),
                    None => FocusTarget::Nobody,
                },
            )
        } else {
            removed
        }.repaint_all()
    }

    /// A workspace that nobody configured.
    pub open spec fn with_new_workspace(self, name: Seq<char>) -> DesktopModel {
        let id = self.next_workspace_id;
        DesktopModel {
            workspaces: self.workspaces.push(
                WorkspaceModel {
                    id,
                    name: if text::blank(name) {
                        text::decimal(id as nat)
                    } else {
                        name
                    },
                    output: None,
                    focused_window: None,
                    focus_history: Seq::empty(),
                },
            ),
            next_workspace_id: (id + 1) as u64,
            ..self
        }.emit(Effect::WorkspacesChanged)
    }

    /// `n` more workspaces, named by their numbers.
    pub open spec fn with_numbered_workspaces(self, n: nat) -> DesktopModel
        decreases n,
    {
        if n == 0 {
            self
        } else {
            let before = self.with_numbered_workspaces((n - 1) as nat);
            before.with_new_workspace(text::decimal(before.next_workspace_id as nat))
        }
    }

    /// All workspaces up to a number exist, as far as they may be created.
    pub open spec fn with_workspaces_up_to(self, id: u64) -> DesktopModel {
        if (id > self.settings.workspace_count && !self.settings.dynamic_workspaces) || id
            < self.next_workspace_id {
            self
        } else {
            self.with_numbered_workspaces((id - self.next_workspace_id + 1) as nat)
        }
    }

    /// The server draws decorations unless a rule says otherwise.
    pub open spec fn prefers_server(self) -> bool {
        self.settings.decoration_mode is Server || (self.settings.decoration_mode is Auto
            && self.settings.server_side_decorations)
    }

    /// Tells every window again who decorates it.
    pub open spec fn redecorated(self) -> DesktopModel {
        let server = |w: ManagedWindow|
            match w.decoration {
                Some(server) => server,
                None => self.prefers_server(),
            };
        DesktopModel {
            windows: self.windows.map_values(
                |w: ManagedWindow| ManagedWindow { wants_decoration: server(w), ..w },
            ),
            effects: self.effects + self.windows.map_values(
                |w: ManagedWindow| Effect::SetDecorationMode { id: w.id, server: server(w) },
            ),
            ..self
        }
    }

    /// Other settings are in force: windows are told again who decorates
    /// them, and arranged again, as far as that is needed.
    pub open spec fn reconfigured(
        self,
        settings: Settings,
        redecorate: bool,
        rearrange: bool,
    ) -> DesktopModel {
        let set = DesktopModel { settings, ..self };
        let decorated = if redecorate {
            set.redecorated()
        } else {
            set
        };
        let arranged = if rearrange {
            decorated.relayout()
        } else {
            decorated
        };
        arranged.repaint()
    }

    /// Ends the animations that are over at the given time, or all of them
    /// where animations are off.
    pub open spec fn pruned(self, now: u64) -> DesktopModel {
        let enabled = self.settings.animations;
        DesktopModel {
            windows: self.windows.map_values(
                |w: ManagedWindow|
                    ManagedWindow {
                        opened_at: running(w.opened_at, self.settings.window_open_ms, enabled, now),
                        ..w
                    },
            ),
            outputs: self.outputs.map_values(
                |o: OutputState|
                    OutputState {
                        animation: running(o.animation, self.settings.workspace_ms, enabled, now),
                        ..o
                    },
            ),
            ..self
        }
    }

    /// Something is animating.
    pub open spec fn animating(self) -> bool {
        self.settings.animations && ((exists|i: int|
            0 <= i < self.windows.len() && (#[trigger] self.windows[i]).opened_at is Some) || (
        exists|i: int| 0 <= i < self.outputs.len() && (
        #[trigger] self.outputs[i]).animation is Some))
    }
}

/// Nanoseconds in a millisecond.
pub const NANOS_PER_MILLI: u128 = 1_000_000;

/// An animation is over: `duration` milliseconds have passed since its start.
pub open spec fn animation_over(started: u64, duration: u64, now: u64) -> bool {
    (if now >= started {
        now - started
    } else {
        0
    }) >= duration * NANOS_PER_MILLI
}

/// The start of an animation that still runs.
pub open spec fn running(started: Option<u64>, duration: u64, enabled: bool, now: u64) -> Option<
    u64,
> {
    match started {
        Some(at) if enabled && !animation_over(at, duration, now) => Some(at),
        _ => None,
    }
}

/// A window before its client has drawn anything.
pub open spec fn fresh_window(id: WindowId, workspace: u64) -> ManagedWindow {
    ManagedWindow {
        id,
        workspace,
        mapped: false,
        opened_at: None,
        minimized: None,
        restore: None,
        fullscreen: false,
        maximized: false,
        resize: None,
        place: None,
        size: Size { w: 0, h: 0 },
        floating: None,
        always_on_top: None,
        decoration: None,
        opacity: None,
        wants_decoration: true,
    }
}

} // verus!
