//! What clients of the compositor see: windows, events and shortcuts.

use vstd::prelude::*;

use crate::geometry::Rect;
use crate::model::WindowId;
use crate::text;

verus! {

/// A window for the clients of the compositor.
#[derive(Debug, PartialEq)]
pub struct WindowInfo {
    pub id: WindowId,
    pub title: String,
    pub app_id: Option<String>,
    pub geometry: Rect,
    pub focused: bool,
    pub minimized: bool,
    pub maximized: bool,
}

/// A window for clients, as contracts see it.
pub struct InfoModel {
    pub id: WindowId,
    pub title: Seq<char>,
    pub app_id: Option<Seq<char>>,
    pub geometry: Rect,
    pub focused: bool,
    pub minimized: bool,
    pub maximized: bool,
}

impl View for WindowInfo {
    type V = InfoModel;

    open spec fn view(&self) -> InfoModel {
        InfoModel {
            id: self.id,
            title: self.title@,
            app_id: text::option(self.app_id),
            geometry: self.geometry,
            focused: self.focused,
            minimized: self.minimized,
            maximized: self.maximized,
        }
    }
}

/// What happened.
#[derive(Debug, PartialEq)]
pub enum CompositorEvent {
    WindowOpened { id: WindowId, title: String, app_id: Option<String> },
    WindowClosed { id: WindowId },
    WindowFocused { id: WindowId },
    FocusCleared,
    WindowTitleChanged { id: WindowId, title: String },
    WindowAppIdChanged { id: WindowId, name: String },
    WindowGeometryChanged { id: WindowId, geometry: Rect },
    WindowMinimized { id: WindowId },
    WindowRestored { id: WindowId },
    WindowMaximized { id: WindowId, maximized: bool },
    OutputAdded { output: String },
    OutputRemoved { output: String },
    WorkAreaChanged { output: String, area: Rect },
    WorkspaceActivated { output: String, workspace: u64 },
    WorkspacesChanged,
    ConfigurationChanged,
    ShortcutActivated { client: String, shortcut: String },
}

/// What happened, as contracts see it.
pub enum EventModel {
    WindowOpened { id: WindowId, title: Seq<char>, app_id: Option<Seq<char>> },
    WindowClosed { id: WindowId },
    WindowFocused { id: WindowId },
    FocusCleared,
    WindowTitleChanged { id: WindowId, title: Seq<char> },
    WindowAppIdChanged { id: WindowId, name: Seq<char> },
    WindowGeometryChanged { id: WindowId, geometry: Rect },
    WindowMinimized { id: WindowId },
    WindowRestored { id: WindowId },
    WindowMaximized { id: WindowId, maximized: bool },
    OutputAdded { output: Seq<char> },
    OutputRemoved { output: Seq<char> },
    WorkAreaChanged { output: Seq<char>, area: Rect },
    WorkspaceActivated { output: Seq<char>, workspace: u64 },
    WorkspacesChanged,
    ConfigurationChanged,
    ShortcutActivated { client: Seq<char>, shortcut: Seq<char> },
}

impl View for CompositorEvent {
    type V = EventModel;

    open spec fn view(&self) -> EventModel {
        match *self {
            CompositorEvent::WindowOpened { id, title, app_id } => EventModel::WindowOpened {
                id,
                title: title@,
                app_id: text::option(app_id),
            },
            CompositorEvent::WindowClosed { id } => EventModel::WindowClosed { id },
            CompositorEvent::WindowFocused { id } => EventModel::WindowFocused { id },
            CompositorEvent::FocusCleared => EventModel::FocusCleared,
            CompositorEvent::WindowTitleChanged { id, title } => EventModel::WindowTitleChanged {
                id,
                title: title@,
            },
            CompositorEvent::WindowAppIdChanged { id, name } => EventModel::WindowAppIdChanged {
                id,
                name: name@,
            },
            CompositorEvent::WindowGeometryChanged { id, geometry } =>
                EventModel::WindowGeometryChanged { id, geometry },
            CompositorEvent::WindowMinimized { id } => EventModel::WindowMinimized { id },
            CompositorEvent::WindowRestored { id } => EventModel::WindowRestored { id },
            CompositorEvent::WindowMaximized { id, maximized } => EventModel::WindowMaximized {
                id,
                maximized,
            },
            CompositorEvent::OutputAdded { output } => EventModel::OutputAdded {
                output: output@,
            },
            CompositorEvent::OutputRemoved { output } => EventModel::OutputRemoved {
                output: output@,
            },
            CompositorEvent::WorkAreaChanged { output, area } => EventModel::WorkAreaChanged {
                output: output@,
                area,
            },
            CompositorEvent::WorkspaceActivated { output, workspace } =>
                EventModel::WorkspaceActivated { output: output@, workspace },
            CompositorEvent::WorkspacesChanged => EventModel::WorkspacesChanged,
            CompositorEvent::ConfigurationChanged => EventModel::ConfigurationChanged,
            CompositorEvent::ShortcutActivated { client, shortcut } =>
                EventModel::ShortcutActivated { client: client@, shortcut: shortcut@ },
        }
    }
}

/// A compositor action available to a persistent keyboard shortcut.
#[derive(Debug, Clone, Copy, PartialEq, Eq, Structural)]
pub enum ShortcutCommand {
    Close,
    Workspace,
    MoveToWorkspace,
    Execute,
}

/// What a shortcut command needs to know.
#[derive(Debug, Clone, Copy, PartialEq, Eq, Structural)]
pub enum ShortcutArgument {
    Nothing,
    Workspace,
    Command,
}

impl ShortcutCommand {
    /// Every command.
    pub fn all() -> (r: [ShortcutCommand; 4])
        ensures
            r@ == seq![
                ShortcutCommand::Close,
                ShortcutCommand::Workspace,
                ShortcutCommand::MoveToWorkspace,
                ShortcutCommand::Execute,
            ],
    {
        let r = [
            ShortcutCommand::Close,
            ShortcutCommand::Workspace,
            ShortcutCommand::MoveToWorkspace,
            ShortcutCommand::Execute,
        ];
        assert(r@ =~= seq![
            ShortcutCommand::Close,
            ShortcutCommand::Workspace,
            ShortcutCommand::MoveToWorkspace,
            ShortcutCommand::Execute,
        ]);
        r
    }

    /// The name of the command on the wire.
    pub open spec fn name(self) -> Seq<char> {
        match self {
            ShortcutCommand::Close => "close"@,
            ShortcutCommand::Workspace => "workspace"@,
            ShortcutCommand::MoveToWorkspace => "move-to-workspace"@,
            ShortcutCommand::Execute => "exec"@,
        }
    }

    /// The name of the command on the wire.
    pub fn id(self) -> (r: &'static str)
        ensures
            r@ == self.name(),
    {
        match self {
            ShortcutCommand::Close => "close",
            ShortcutCommand::Workspace => "workspace",
            ShortcutCommand::MoveToWorkspace => "move-to-workspace",
            ShortcutCommand::Execute => "exec",
        }
    }

    /// What the command does, for people.
    pub fn label(self) -> (r: &'static str)
        ensures
            r@ == (match self {
                ShortcutCommand::Close => "Close focused window"@,
                ShortcutCommand::Workspace => "Switch workspace"@,
                ShortcutCommand::MoveToWorkspace => "Move window to workspace"@,
                ShortcutCommand::Execute => "Run command"@,
            }),
    {
        match self {
            ShortcutCommand::Close => "Close focused window",
            ShortcutCommand::Workspace => "Switch workspace",
            ShortcutCommand::MoveToWorkspace => "Move window to workspace",
            ShortcutCommand::Execute => "Run command",
        }
    }

    /// What the command needs to know.
    pub fn argument(self) -> (r: ShortcutArgument)
        ensures
            r == (match self {
                ShortcutCommand::Close => ShortcutArgument::Nothing,
                ShortcutCommand::Workspace => ShortcutArgument::Workspace,
                ShortcutCommand::MoveToWorkspace => ShortcutArgument::Workspace,
                ShortcutCommand::Execute => ShortcutArgument::Command,
            }),
    {
        match self {
            ShortcutCommand::Close => ShortcutArgument::Nothing,
            ShortcutCommand::Workspace => ShortcutArgument::Workspace,
            ShortcutCommand::MoveToWorkspace => ShortcutArgument::Workspace,
            ShortcutCommand::Execute => ShortcutArgument::Command,
        }
    }

    /// The command with a name, if there is one.
    pub open spec fn named(id: Seq<char>) -> Option<ShortcutCommand> {
        if id == "close"@ {
            Some(ShortcutCommand::Close)
        } else if id == "workspace"@ {
            Some(ShortcutCommand::Workspace)
        } else if id == "move-to-workspace"@ {
            Some(ShortcutCommand::MoveToWorkspace)
        } else if id == "exec"@ {
            Some(ShortcutCommand::Execute)
        } else {
            None
        }
    }

    /// Finds the command with a name.
    pub fn parse(id: &str) -> (r: Option<ShortcutCommand>)
        ensures
            r == Self::named(id@),
    {
        if text::text_eq(id, "close") {
            Some(ShortcutCommand::Close)
        } else if text::text_eq(id, "workspace") {
            Some(ShortcutCommand::Workspace)
        } else if text::text_eq(id, "move-to-workspace") {
            Some(ShortcutCommand::MoveToWorkspace)
        } else if text::text_eq(id, "exec") {
            Some(ShortcutCommand::Execute)
        } else {
            None
        }
    }
}

/// The names of the commands differ, so a name leads back to its command,
/// and only the names of commands lead to one.
pub proof fn command_names_read_back(command: ShortcutCommand, id: Seq<char>)
    ensures
        ShortcutCommand::named(command.name()) == Some(command),
        ShortcutCommand::named(id) is Some ==> ShortcutCommand::named(id)->0.name() == id,
{
    reveal_strlit("close");
    reveal_strlit("workspace");
    reveal_strlit("move-to-workspace");
    reveal_strlit("exec");
    assert("close"@.len() == 5 && "workspace"@.len() == 9 && "move-to-workspace"@.len() == 17
        && "exec"@.len() == 4);
}

/// A configured shortcut for the clients of the compositor.
#[derive(Debug, PartialEq, Eq)]
pub struct ShortcutBinding {
    pub accelerator: String,
    pub command: ShortcutCommand,
    pub argument: Option<String>,
}

/// A configured shortcut as contracts see it.
pub struct BindingModel {
    pub accelerator: Seq<char>,
    pub command: ShortcutCommand,
    pub argument: Option<Seq<char>>,
}

impl View for ShortcutBinding {
    type V = BindingModel;

    open spec fn view(&self) -> BindingModel {
        BindingModel {
            accelerator: self.accelerator@,
            command: self.command,
            argument: text::option(self.argument),
        }
    }
}

} // verus!
