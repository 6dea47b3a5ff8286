//! How windows, workspaces, shortcuts and events travel between processes.

use vstd::prelude::*;

use crate::desktop::WorkspaceInfo;
use crate::geometry::Rect;
use crate::model::WindowId;
use crate::protocol::{
    BindingModel, CompositorEvent, EventModel, InfoModel, ShortcutBinding, ShortcutCommand,
    WindowInfo,
};
use crate::text;

verus! {

/// A window on the wire. An empty application stands for none.
#[derive(Debug, PartialEq)]
pub struct DbusWindow {
    pub id: u64,
    pub title: String,
    pub app_id: String,
    pub x: i32,
    pub y: i32,
    pub width: i32,
    pub height: i32,
    pub focused: bool,
    pub minimized: bool,
    pub maximized: bool,
}

/// A window on the wire, as contracts see it.
pub struct WireWindow {
    pub id: u64,
    pub title: Seq<char>,
    pub app_id: Seq<char>,
    pub x: i32,
    pub y: i32,
    pub width: i32,
    pub height: i32,
    pub focused: bool,
    pub minimized: bool,
    pub maximized: bool,
}

impl View for DbusWindow {
    type V = WireWindow;

    open spec fn view(&self) -> WireWindow {
        WireWindow {
            id: self.id,
            title: self.title@,
            app_id: self.app_id@,
            x: self.x,
            y: self.y,
            width: self.width,
            height: self.height,
            focused: self.focused,
            minimized: self.minimized,
            maximized: self.maximized,
        }
    }
}

/// A text that may be missing, with nothing in its place.
pub open spec fn or_empty(value: Option<Seq<char>>) -> Seq<char> {
    match value {
        Some(text) => text,
        None => Seq::empty(),
    }
}

/// A text where an empty one stands for none.
pub open spec fn unless_empty(value: Seq<char>) -> Option<Seq<char>> {
    if value.len() == 0 {
        None
    } else {
        Some(value)
    }
}

fn text_or_empty(value: &Option<String>) -> (r: String)
    ensures
        r@ == or_empty(text::option(*value)),
{
    match value {
        Some(text) => text.clone(),
        None => String::new(),
    }
}

fn text_unless_empty(value: String) -> (r: Option<String>)
    ensures
        text::option(r) == unless_empty(value@),
{
    if text::chars_of(value.as_str()).len() == 0 {
        None
    } else {
        Some(value)
    }
}

/// A window as it goes onto the wire.
pub open spec fn sent(info: InfoModel) -> WireWindow {
    WireWindow {
        id: info.id.0,
        title: info.title,
        app_id: or_empty(info.app_id),
        x: info.geometry.x,
        y: info.geometry.y,
        width: info.geometry.width,
        height: info.geometry.height,
        focused: info.focused,
        minimized: info.minimized,
        maximized: info.maximized,
    }
}

/// A window as it comes off the wire.
pub open spec fn received(window: WireWindow) -> InfoModel {
    InfoModel {
        id: WindowId(window.id),
        title: window.title,
        app_id: unless_empty(window.app_id),
        geometry: Rect { x: window.x, y: window.y, width: window.width, height: window.height },
        focused: window.focused,
        minimized: window.minimized,
        maximized: window.maximized,
    }
}

impl DbusWindow {
    /// Puts a window onto the wire.
    pub fn from_info(info: &WindowInfo) -> (r: DbusWindow)
        ensures
            r@ == sent(info@),
    {
        DbusWindow {
            id: info.id.0,
            title: info.title.clone(),
            app_id: text_or_empty(&info.app_id),
            x: info.geometry.x,
            y: info.geometry.y,
            width: info.geometry.width,
            height: info.geometry.height,
            focused: info.focused,
            minimized: info.minimized,
            maximized: info.maximized,
        }
    }

    /// Takes a window off the wire.
    pub fn into_info(self) -> (r: WindowInfo)
        ensures
            r@ == received(self@),
    {
        WindowInfo {
            id: WindowId(self.id),
            title: self.title,
            app_id: text_unless_empty(self.app_id),
            geometry: Rect { x: self.x, y: self.y, width: self.width, height: self.height },
            focused: self.focused,
            minimized: self.minimized,
            maximized: self.maximized,
        }
    }
}

/// A window comes off the wire as it went onto it, if its application is not
/// an empty text, and anything on the wire goes back onto it as it came.
pub proof fn windows_survive_the_wire(info: InfoModel, window: WireWindow)
    ensures
        info.app_id != Some(Seq::<char>::empty()) ==> received(sent(info)) == info,
        sent(received(window)) == window,
{
    if info.app_id is Some && info.app_id->0.len() == 0 {
        assert(info.app_id->0 =~= Seq::<char>::empty());
    }
    if window.app_id.len() == 0 {
        assert(window.app_id =~= Seq::<char>::empty());
    }
}

/// A workspace on the wire. An empty output stands for none.
#[derive(Debug, PartialEq)]
pub struct DbusWorkspace {
    pub id: u64,
    pub name: String,
    pub active: bool,
    pub output: String,
    pub window_count: u32,
}

impl DbusWorkspace {
    /// Puts a workspace onto the wire; too large a count becomes the largest.
    pub fn from_info(info: &WorkspaceInfo) -> (r: DbusWorkspace)
        ensures
            r.id == info.id,
            r.name@ == info.name@,
            r.active == info.active,
            r.output@ == or_empty(text::option(info.output)),
            r.window_count == (if info.window_count > u32::MAX {
                u32::MAX as int
            } else {
                info.window_count as int
            }),
    {
        DbusWorkspace {
            id: info.id,
            name: info.name.clone(),
            active: info.active,
            output: text_or_empty(&info.output),
            window_count: if info.window_count as u64 > u32::MAX as u64 {
                u32::MAX
            } else {
                info.window_count as u32
            },
        }
    }
}

/// A shortcut on the wire: accelerator, command and argument, which is empty
/// where there is none.
#[derive(Debug, PartialEq)]
pub struct WireShortcut {
    pub accelerator: String,
    pub command: String,
    pub argument: String,
}

/// A shortcut that came off the wire.
pub open spec fn received_shortcut(shortcut: WireShortcut) -> Option<BindingModel> {
    match ShortcutCommand::named(shortcut.command@) {
        Some(command) => Some(
            BindingModel {
                accelerator: shortcut.accelerator@,
                command,
                argument: if text::blank(shortcut.argument@) {
                    None
                } else {
                    Some(shortcut.argument@)
                },
            },
        ),
        None => None,
    }
}

impl WireShortcut {
    /// Puts a shortcut onto the wire.
    pub fn from_binding(binding: &ShortcutBinding) -> (r: WireShortcut)
        ensures
            r.accelerator@ == binding@.accelerator,
            r.command@ == binding@.command.name(),
            r.argument@ == or_empty(binding@.argument),
    {
        WireShortcut {
            accelerator: binding.accelerator.clone(),
            command: binding.command.id().to_owned(),
            argument: text_or_empty(&binding.argument),
        }
    }

    /// Takes a shortcut off the wire, if its command is known. A blank
    /// argument stands for none.
    pub fn into_binding(self) -> (r: Option<ShortcutBinding>)
        ensures
            match (r, received_shortcut(self)) {
                (Some(binding), Some(expected)) => binding@ == expected,
                (None, None) => true,
                _ => false,
            },
    {
        match ShortcutCommand::parse(self.command.as_str()) {
            Some(command) => {
                let argument = if text::is_blank(self.argument.as_str()) {
                    None
                } else {
                    Some(self.argument)
                };
                Some(ShortcutBinding { accelerator: self.accelerator, command, argument })
            },
            None => None,
        }
    }
}

/// Takes all shortcuts off the wire, or none if a command is unknown.
pub fn receive_shortcuts(shortcuts: Vec<WireShortcut>) -> (r: Option<Vec<ShortcutBinding>>)
    ensures
        match r {
            Some(bindings) => bindings@.len() == shortcuts@.len() && forall|i: int|
                0 <= i < shortcuts@.len() ==> Some((#[trigger] bindings@[i])@)
                    == received_shortcut(shortcuts@[i]),
            None => exists|i: int|
                0 <= i < shortcuts@.len() && received_shortcut(#[trigger] shortcuts@[i]) is None,
        },
{
    let mut bindings: Vec<ShortcutBinding> = Vec::new();
    for shortcut in iter: shortcuts
        invariant
            iter.seq() == shortcuts@,
            bindings@.len() == iter.index(),
            forall|i: int|
                0 <= i < bindings@.len() ==> Some((#[trigger] bindings@[i])@) == received_shortcut(
                    shortcuts@[i],
                ),
    {
        let ghost i = iter.index() as int;
        assert(shortcut == shortcuts@[i]);
        match shortcut.into_binding() {
            Some(binding) => {
                bindings.push(binding);
            },
            None => {
                assert(received_shortcut(shortcuts@[i]) is None);
                return None;
            },
        }
    }
    Some(bindings)
}

/// What a signal carries.
#[derive(Debug, PartialEq)]
pub enum SignalBody {
    Empty,
    Id(u64),
    Text(String),
    IdText(u64, String),
    IdTextText(u64, String, String),
    IdFlag(u64, bool),
    IdRect(u64, Rect),
    TextRect(String, Rect),
    TextId(String, u64),
}

/// What a signal carries, as contracts see it.
pub enum BodyModel {
    Empty,
    Id(u64),
    Text(Seq<char>),
    IdText(u64, Seq<char>),
    IdTextText(u64, Seq<char>, Seq<char>),
    IdFlag(u64, bool),
    IdRect(u64, Rect),
    TextRect(Seq<char>, Rect),
    TextId(Seq<char>, u64),
}

impl View for SignalBody {
    type V = BodyModel;

    open spec fn view(&self) -> BodyModel {
        match *self {
            SignalBody::Empty => BodyModel::Empty,
            SignalBody::Id(id) => BodyModel::Id(id),
            SignalBody::Text(text) => BodyModel::Text(text@),
            SignalBody::IdText(id, text) => BodyModel::IdText(id, text@),
            SignalBody::IdTextText(id, a, b) => BodyModel::IdTextText(id, a@, b@),
            SignalBody::IdFlag(id, flag) => BodyModel::IdFlag(id, flag),
            SignalBody::IdRect(id, rect) => BodyModel::IdRect(id, rect),
            SignalBody::TextRect(text, rect) => BodyModel::TextRect(text@, rect),
            SignalBody::TextId(text, id) => BodyModel::TextId(text@, id),
        }
    }
}

/// The signals there are.
#[derive(Debug, Clone, Copy, PartialEq, Eq, Structural)]
pub enum Signal {
    WindowOpened,
    WindowClosed,
    WindowFocused,
    FocusCleared,
    WindowTitleChanged,
    WindowAppIdChanged,
    WindowGeometryChanged,
    WindowMinimized,
    WindowRestored,
    WindowMaximized,
    OutputAdded,
    OutputRemoved,
    WorkAreaChanged,
    WorkspaceActivated,
    WorkspacesChanged,
    ConfigurationChanged,
    ShortcutActivated,
}

impl Signal {
    /// The name of the signal on the wire.
    pub open spec fn name(self) -> Seq<char> {
        match self {
            Signal::WindowOpened => "WindowOpened"@,
            Signal::WindowClosed => "WindowClosed"@,
            Signal::WindowFocused => "WindowFocused"@,
            Signal::FocusCleared => "FocusCleared"@,
            Signal::WindowTitleChanged => "WindowTitleChanged"@,
            Signal::WindowAppIdChanged => "WindowAppIdChanged"@,
            Signal::WindowGeometryChanged => "WindowGeometryChanged"@,
            Signal::WindowMinimized => "WindowMinimized"@,
            Signal::WindowRestored => "WindowRestored"@,
            Signal::WindowMaximized => "WindowMaximized"@,
            Signal::OutputAdded => "OutputAdded"@,
            Signal::OutputRemoved => "OutputRemoved"@,
            Signal::WorkAreaChanged => "WorkAreaChanged"@,
            Signal::WorkspaceActivated => "WorkspaceActivated"@,
            Signal::WorkspacesChanged => "WorkspacesChanged"@,
            Signal::ConfigurationChanged => "ConfigurationChanged"@,
            Signal::ShortcutActivated => "ShortcutActivated"@,
        }
    }

    /// Finds the signal with a name.
    pub fn parse(member: &str) -> (r: Option<Signal>)
        ensures
            match r {
                Some(signal) => signal.name() == member@,
                None => forall|signal: Signal| (#[trigger] signal.name()) != member@,
            },
    {
        if text::text_eq(member, "WindowOpened") {
            Some(Signal::WindowOpened)
        } else if text::text_eq(member, "WindowClosed") {
            Some(Signal::WindowClosed)
        } else if text::text_eq(member, "WindowFocused") {
            Some(Signal::WindowFocused)
        } else if text::text_eq(member, "FocusCleared") {
            Some(Signal::FocusCleared)
        } else if text::text_eq(member, "WindowTitleChanged") {
            Some(Signal::WindowTitleChanged)
        } else if text::text_eq(member, "WindowAppIdChanged") {
            Some(Signal::WindowAppIdChanged)
        } else if text::text_eq(member, "WindowGeometryChanged") {
            Some(Signal::WindowGeometryChanged)
        } else if text::text_eq(member, "WindowMinimized") {
            Some(Signal::WindowMinimized)
        } else if text::text_eq(member, "WindowRestored") {
            Some(Signal::WindowRestored)
        } else if text::text_eq(member, "WindowMaximized") {
            Some(Signal::WindowMaximized)
        } else if text::text_eq(member, "OutputAdded") {
            Some(Signal::OutputAdded)
        } else if text::text_eq(member, "OutputRemoved") {
            Some(Signal::OutputRemoved)
        } else if text::text_eq(member, "WorkAreaChanged") {
            Some(Signal::WorkAreaChanged)
        } else if text::text_eq(member, "WorkspaceActivated") {
            Some(Signal::WorkspaceActivated)
        } else if text::text_eq(member, "WorkspacesChanged") {
            Some(Signal::WorkspacesChanged)
        } else if text::text_eq(member, "ConfigurationChanged") {
            Some(Signal::ConfigurationChanged)
        } else if text::text_eq(member, "ShortcutActivated") {
            Some(Signal::ShortcutActivated)
        } else {
            None
        }
    }
}

/// The signal for an event, what it carries, and the client it is for if it
/// is not for everyone.
pub open spec fn signal_of(event: EventModel) -> (Signal, BodyModel, Option<Seq<char>>) {
    match event {
        EventModel::WindowOpened { id, title, app_id } => (
            Signal::WindowOpened,
            BodyModel::IdTextText(id.0, title, or_empty(app_id)),
            None,
        ),
        EventModel::WindowClosed { id } => (Signal::WindowClosed, BodyModel::Id(id.0), None),
        EventModel::WindowFocused { id } => (Signal::WindowFocused, BodyModel::Id(id.0), None),
        EventModel::FocusCleared => (Signal::FocusCleared, BodyModel::Empty, None),
        EventModel::WindowTitleChanged { id, title } => (
            Signal::WindowTitleChanged,
            BodyModel::IdText(id.0, title),
            None,
        ),
        EventModel::WindowAppIdChanged { id, name } => (
            Signal::WindowAppIdChanged,
            BodyModel::IdText(id.0, name),
            None,
        ),
        EventModel::WindowGeometryChanged { id, geometry } => (
            Signal::WindowGeometryChanged,
            BodyModel::IdRect(id.0, geometry),
            None,
        ),
        EventModel::WindowMinimized { id } => (Signal::WindowMinimized, BodyModel::Id(id.0), None),
        EventModel::WindowRestored { id } => (Signal::WindowRestored, BodyModel::Id(id.0), None),
        EventModel::WindowMaximized { id, maximized } => (
            Signal::WindowMaximized,
            BodyModel::IdFlag(id.0, maximized),
            None,
        ),
        EventModel::OutputAdded { output } => (
            Signal::OutputAdded,
            BodyModel::Text(output),
            None,
        ),
        EventModel::OutputRemoved { output } => (
            Signal::OutputRemoved,
            BodyModel::Text(output),
            None,
        ),
        EventModel::WorkAreaChanged { output, area } => (
            Signal::WorkAreaChanged,
            BodyModel::TextRect(output, area),
            None,
        ),
        EventModel::WorkspaceActivated { output, workspace } => (
            Signal::WorkspaceActivated,
            BodyModel::TextId(output, workspace),
            None,
        ),
        EventModel::WorkspacesChanged => (Signal::WorkspacesChanged, BodyModel::Empty, None),
        EventModel::ConfigurationChanged => (
            Signal::ConfigurationChanged,
            BodyModel::Empty,
            None,
        ),
        EventModel::ShortcutActivated { client, shortcut } => (
            Signal::ShortcutActivated,
            BodyModel::Text(shortcut),
            Some(client),
        ),
    }
}

/// Puts an event onto the wire.
pub fn encode(event: CompositorEvent) -> (r: (Signal, SignalBody, Option<String>))
    ensures
        (r.0, r.1@, text::option(r.2)) == signal_of(event@),
{
    match event {
        CompositorEvent::WindowOpened { id, title, app_id } => {
            let name = text_or_empty(&app_id);
            (Signal::WindowOpened, SignalBody::IdTextText(id.0, title, name), None)
        },
        CompositorEvent::WindowClosed { id } => (Signal::WindowClosed, SignalBody::Id(id.0), None),
        CompositorEvent::WindowFocused { id } => (
            Signal::WindowFocused,
            SignalBody::Id(id.0),
            None,
        ),
        CompositorEvent::FocusCleared => (Signal::FocusCleared, SignalBody::Empty, None),
        CompositorEvent::WindowTitleChanged { id, title } => (
            Signal::WindowTitleChanged,
            SignalBody::IdText(id.0, title),
            None,
        ),
        CompositorEvent::WindowAppIdChanged { id, name } => (
            Signal::WindowAppIdChanged,
            SignalBody::IdText(id.0, name),
            None,
        ),
        CompositorEvent::WindowGeometryChanged { id, geometry } => (
            Signal::WindowGeometryChanged,
            SignalBody::IdRect(id.0, geometry),
            None,
        ),
        CompositorEvent::WindowMinimized { id } => (
            Signal::WindowMinimized,
            SignalBody::Id(id.0),
            None,
        ),
        CompositorEvent::WindowRestored { id } => (
            Signal::WindowRestored,
            SignalBody::Id(id.0),
            None,
        ),
        CompositorEvent::WindowMaximized { id, maximized } => (
            Signal::WindowMaximized,
            SignalBody::IdFlag(id.0, maximized),
            None,
        ),
        CompositorEvent::OutputAdded { output } => (
            Signal::OutputAdded,
            SignalBody::Text(output),
            None,
        ),
        CompositorEvent::OutputRemoved { output } => (
            Signal::OutputRemoved,
            SignalBody::Text(output),
            None,
        ),
        CompositorEvent::WorkAreaChanged { output, area } => (
            Signal::WorkAreaChanged,
            SignalBody::TextRect(output, area),
            None,
        ),
        CompositorEvent::WorkspaceActivated { output, workspace } => (
            Signal::WorkspaceActivated,
            SignalBody::TextId(output, workspace),
            None,
        ),
        CompositorEvent::WorkspacesChanged => (Signal::WorkspacesChanged, SignalBody::Empty, None),
        CompositorEvent::ConfigurationChanged => (
            Signal::ConfigurationChanged,
            SignalBody::Empty,
            None,
        ),
        CompositorEvent::ShortcutActivated { client, shortcut } => (
            Signal::ShortcutActivated,
            SignalBody::Text(shortcut),
            Some(client),
        ),
    }
}

/// What a signal tells the client that receives it. A signal that carries
/// something else tells nothing.
pub open spec fn event_of(signal: Signal, body: BodyModel, client: Seq<char>) -> Option<
    EventModel,
> {
    match (signal, body) {
        (Signal::WindowOpened, BodyModel::IdTextText(id, title, app_id)) => Some(
            EventModel::WindowOpened { id: WindowId(id), title, app_id: unless_empty(app_id) },
        ),
        (Signal::WindowClosed, BodyModel::Id(id)) => Some(
            EventModel::WindowClosed { id: WindowId(id) },
        ),
        (Signal::WindowFocused, BodyModel::Id(id)) => Some(
            EventModel::WindowFocused { id: WindowId(id) },
        ),
        (Signal::FocusCleared, _) => Some(EventModel::FocusCleared),
        (Signal::WindowTitleChanged, BodyModel::IdText(id, title)) => Some(
            EventModel::WindowTitleChanged { id: WindowId(id), title },
        ),
        (Signal::WindowAppIdChanged, BodyModel::IdText(id, name)) => Some(
            EventModel::WindowAppIdChanged { id: WindowId(id), name },
        ),
        (Signal::WindowGeometryChanged, BodyModel::IdRect(id, geometry)) => Some(
            EventModel::WindowGeometryChanged { id: WindowId(id), geometry },
        ),
        (Signal::WindowMinimized, BodyModel::Id(id)) => Some(
            EventModel::WindowMinimized { id: WindowId(id) },
        ),
        (Signal::WindowRestored, BodyModel::Id(id)) => Some(
            EventModel::WindowRestored { id: WindowId(id) },
        ),
        (Signal::WindowMaximized, BodyModel::IdFlag(id, maximized)) => Some(
            EventModel::WindowMaximized { id: WindowId(id), maximized },
        ),
        (Signal::OutputAdded, BodyModel::Text(output)) => Some(EventModel::OutputAdded { output }),
        (Signal::OutputRemoved, BodyModel::Text(output)) => Some(
            EventModel::OutputRemoved { output },
        ),
        (Signal::WorkAreaChanged, BodyModel::TextRect(output, area)) => Some(
            EventModel::WorkAreaChanged { output, area },
        ),
        (Signal::WorkspaceActivated, BodyModel::TextId(output, workspace)) => Some(
            EventModel::WorkspaceActivated { output, workspace },
        ),
        (Signal::WorkspacesChanged, _) => Some(EventModel::WorkspacesChanged),
        (Signal::ConfigurationChanged, _) => Some(EventModel::ConfigurationChanged),
        (Signal::ShortcutActivated, BodyModel::Text(shortcut)) => Some(
            EventModel::ShortcutActivated { client, shortcut },
        ),
        _ => None,
    }
}

/// Takes an event off the wire; `client` is the one that receives it.
pub fn decode(signal: Signal, body: SignalBody, client: &str) -> (r: Option<CompositorEvent>)
    ensures
        match (r, event_of(signal, body@, client@)) {
            (Some(event), Some(expected)) => event@ == expected,
            (None, None) => true,
            _ => false,
        },
{
    match (signal, body) {
        (Signal::WindowOpened, SignalBody::IdTextText(id, title, app_id)) => {
            let app_id = text_unless_empty(app_id);
            Some(CompositorEvent::WindowOpened { id: WindowId(id), title, app_id })
        },
        (Signal::WindowClosed, SignalBody::Id(id)) => Some(
            CompositorEvent::WindowClosed { id: WindowId(id) },
        ),
        (Signal::WindowFocused, SignalBody::Id(id)) => Some(
            CompositorEvent::WindowFocused { id: WindowId(id) },
        ),
        (Signal::FocusCleared, _) => Some(CompositorEvent::FocusCleared),
        (Signal::WindowTitleChanged, SignalBody::IdText(id, title)) => Some(
            CompositorEvent::WindowTitleChanged { id: WindowId(id), title },
        ),
        (Signal::WindowAppIdChanged, SignalBody::IdText(id, name)) => Some(
            CompositorEvent::WindowAppIdChanged { id: WindowId(id), name },
        ),
        (Signal::WindowGeometryChanged, SignalBody::IdRect(id, geometry)) => Some(
            CompositorEvent::WindowGeometryChanged { id: WindowId(id), geometry },
        ),
        (Signal::WindowMinimized, SignalBody::Id(id)) => Some(
            CompositorEvent::WindowMinimized { id: WindowId(id) },
        ),
        (Signal::WindowRestored, SignalBody::Id(id)) => Some(
            CompositorEvent::WindowRestored { id: WindowId(id) },
        ),
        (Signal::WindowMaximized, SignalBody::IdFlag(id, maximized)) => Some(
            CompositorEvent::WindowMaximized { id: WindowId(id), maximized },
        ),
        (Signal::OutputAdded, SignalBody::Text(output)) => Some(
            CompositorEvent::OutputAdded { output },
        ),
        (Signal::OutputRemoved, SignalBody::Text(output)) => Some(
            CompositorEvent::OutputRemoved { output },
        ),
        (Signal::WorkAreaChanged, SignalBody::TextRect(output, area)) => Some(
            CompositorEvent::WorkAreaChanged { output, area },
        ),
        (Signal::WorkspaceActivated, SignalBody::TextId(output, workspace)) => Some(
            CompositorEvent::WorkspaceActivated { output, workspace },
        ),
        (Signal::WorkspacesChanged, _) => Some(CompositorEvent::WorkspacesChanged),
        (Signal::ConfigurationChanged, _) => Some(CompositorEvent::ConfigurationChanged),
        (Signal::ShortcutActivated, SignalBody::Text(shortcut)) => Some(
            CompositorEvent::ShortcutActivated { client: client.to_owned(), shortcut },
        ),
        _ => None,
    }
}

/// The client that receives a signal learns the event that was sent, unless
/// that was the opening of a window whose application is an empty text.
pub proof fn events_survive_the_wire(event: EventModel, client: Seq<char>)
    requires
        !(event matches EventModel::WindowOpened { app_id: Some(name), .. } && name.len() == 0),
        signal_of(event).2 is Some ==> signal_of(event).2 == Some(client),
    ensures
        event_of(signal_of(event).0, signal_of(event).1, client) == Some(event),
{
}

/// No two signals have the same name.
pub proof fn signal_names_differ(a: Signal, b: Signal)
    requires
        a.name() == b.name(),
    ensures
        a == b,
{
    reveal_strlit("WindowOpened");
    reveal_strlit("WindowClosed");
    reveal_strlit("WindowFocused");
    reveal_strlit("FocusCleared");
    reveal_strlit("WindowTitleChanged");
    reveal_strlit("WindowAppIdChanged");
    reveal_strlit("WindowGeometryChanged");
    reveal_strlit("WindowMinimized");
    reveal_strlit("WindowRestored");
    reveal_strlit("WindowMaximized");
    reveal_strlit("OutputAdded");
    reveal_strlit("OutputRemoved");
    reveal_strlit("WorkAreaChanged");
    reveal_strlit("WorkspaceActivated");
    reveal_strlit("WorkspacesChanged");
    reveal_strlit("ConfigurationChanged");
    reveal_strlit("ShortcutActivated");
    assert("WindowOpened"@.len() == 12 && "WindowOpened"@[0] == 'W' && "WindowOpened"@[6] == 'O');
    assert("WindowClosed"@.len() == 12 && "WindowClosed"@[0] == 'W' && "WindowClosed"@[6] == 'C');
    assert("WindowFocused"@.len() == 13 && "WindowFocused"@[0] == 'W');
    assert("FocusCleared"@.len() == 12 && "FocusCleared"@[0] == 'F');
    assert("WindowTitleChanged"@.len() == 18 && "WindowTitleChanged"@[1] == 'i' && "WindowTitleChanged"@[6] == 'T');
    assert("WindowAppIdChanged"@.len() == 18 && "WindowAppIdChanged"@[1] == 'i' && "WindowAppIdChanged"@[6] == 'A');
    assert("WindowGeometryChanged"@.len() == 21);
    assert("WindowMinimized"@.len() == 15 && "WindowMinimized"@[1] == 'i' && "WindowMinimized"@[7] == 'i');
    assert("WindowRestored"@.len() == 14);
    assert("WindowMaximized"@.len() == 15 && "WindowMaximized"@[1] == 'i' && "WindowMaximized"@[7] == 'a');
    assert("OutputAdded"@.len() == 11);
    assert("OutputRemoved"@.len() == 13 && "OutputRemoved"@[0] == 'O');
    assert("WorkAreaChanged"@.len() == 15 && "WorkAreaChanged"@[1] == 'o');
    assert("WorkspaceActivated"@.len() == 18 && "WorkspaceActivated"@[1] == 'o');
    assert("WorkspacesChanged"@.len() == 17 && "WorkspacesChanged"@[0] == 'W');
    assert("ConfigurationChanged"@.len() == 20);
    assert("ShortcutActivated"@.len() == 17 && "ShortcutActivated"@[0] == 'S');
}

/// A unique name that nobody has.
pub open spec fn gone(name: Seq<char>, has_owner: bool) -> bool {
    !has_owner && name.len() > 0 && name[0] == ':'
}

/// A client left the bus: its name is a unique one, and nobody has it now.
pub fn client_left(name: &str, has_owner: bool) -> (r: bool)
    ensures
        r == (!has_owner && name@.len() > 0 && name@[0] == ':'),
        r == gone(name@, has_owner),
{
    let chars = text::chars_of(name);
    !has_owner && chars.len() > 0 && chars[0] == ':'
}

} // verus!
