//! What goes over the bus to clients and comes from them, part by part.

use vstd::prelude::*;

use crate::geometry::Rect;
use crate::model::{WindowId, WindowLayout};
use crate::protocol::{EventModel, InfoModel, ShortcutCommand};
use crate::state;
use crate::text;
use crate::wire::{BodyModel, Signal, WireShortcut};
use crate::wire;

verus! {

/// A window is sent with its number, its title, its application, its place from
/// the left and from the top, its width and its height; a missing application
/// is an empty text.
pub proof fn windows_are_sent_part_by_part(info: InfoModel)
    ensures
        ({
            let out = wire::sent(info);
            &&& WindowId(out.id) == info.id
            &&& out.title == info.title
            &&& out.x == info.geometry.x && out.y == info.geometry.y
            &&& out.width == info.geometry.width && out.height == info.geometry.height
            &&& out.focused == info.focused
            &&& out.minimized == info.minimized
            &&& out.maximized == info.maximized
            &&& info.app_id is Some ==> Some(out.app_id) == info.app_id
            &&& info.app_id is None ==> out.app_id.len() == 0
        }),
{
}

/// An event is sent under its own name with the window first and then what
/// happened to it.
pub proof fn events_are_sent_under_their_own_names(
    id: WindowId,
    text: Seq<char>,
    other: Seq<char>,
    rect: Rect,
    on: bool,
)
    ensures
        wire::signal_of(EventModel::WindowOpened { id, title: text, app_id: Some(other) }) == (
            Signal::WindowOpened,
            BodyModel::IdTextText(id.0, text, other),
            None::<Seq<char>>,
        ),
        wire::signal_of(EventModel::WindowClosed { id }) == (
            Signal::WindowClosed,
            BodyModel::Id(id.0),
            None::<Seq<char>>,
        ),
        wire::signal_of(EventModel::WindowFocused { id }) == (
            Signal::WindowFocused,
            BodyModel::Id(id.0),
            None::<Seq<char>>,
        ),
        wire::signal_of(EventModel::WindowTitleChanged { id, title: text }) == (
            Signal::WindowTitleChanged,
            BodyModel::IdText(id.0, text),
            None::<Seq<char>>,
        ),
        wire::signal_of(EventModel::WindowAppIdChanged { id, name: text }) == (
            Signal::WindowAppIdChanged,
            BodyModel::IdText(id.0, text),
            None::<Seq<char>>,
        ),
        wire::signal_of(EventModel::WindowGeometryChanged { id, geometry: rect }) == (
            Signal::WindowGeometryChanged,
            BodyModel::IdRect(id.0, rect),
            None::<Seq<char>>,
        ),
        wire::signal_of(EventModel::WindowMinimized { id }) == (
            Signal::WindowMinimized,
            BodyModel::Id(id.0),
            None::<Seq<char>>,
        ),
        wire::signal_of(EventModel::WindowRestored { id }) == (
            Signal::WindowRestored,
            BodyModel::Id(id.0),
            None::<Seq<char>>,
        ),
        wire::signal_of(EventModel::WindowMaximized { id, maximized: on }) == (
            Signal::WindowMaximized,
            BodyModel::IdFlag(id.0, on),
            None::<Seq<char>>,
        ),
{
}

/// Events of outputs name the output, and a shortcut is reported to the client
/// that asked for it.
pub proof fn events_of_outputs_name_the_output(
    output: Seq<char>,
    rect: Rect,
    workspace: u64,
    client: Seq<char>,
)
    ensures
        wire::signal_of(EventModel::OutputAdded { output }) == (
            Signal::OutputAdded,
            BodyModel::Text(output),
            None::<Seq<char>>,
        ),
        wire::signal_of(EventModel::OutputRemoved { output }) == (
            Signal::OutputRemoved,
            BodyModel::Text(output),
            None::<Seq<char>>,
        ),
        wire::signal_of(EventModel::WorkAreaChanged { output, area: rect }) == (
            Signal::WorkAreaChanged,
            BodyModel::TextRect(output, rect),
            None::<Seq<char>>,
        ),
        wire::signal_of(EventModel::WorkspaceActivated { output, workspace }) == (
            Signal::WorkspaceActivated,
            BodyModel::TextId(output, workspace),
            None::<Seq<char>>,
        ),
        wire::signal_of(EventModel::ShortcutActivated { client, shortcut: output }) == (
            Signal::ShortcutActivated,
            BodyModel::Text(output),
            Some(client),
        ),
        wire::signal_of(EventModel::FocusCleared).0 == Signal::FocusCleared,
        wire::signal_of(EventModel::WorkspacesChanged).0 == Signal::WorkspacesChanged,
        wire::signal_of(EventModel::ConfigurationChanged).0 == Signal::ConfigurationChanged,
{
}

/// A shortcut that comes from a client is read as it was written; a blank
/// argument is none, and one with an unknown command is no shortcut.
pub proof fn shortcuts_are_received_as_written(shortcut: WireShortcut)
    ensures
        match wire::received_shortcut(shortcut) {
            Some(binding) => {
                &&& binding.accelerator == shortcut.accelerator@
                &&& ShortcutCommand::named(shortcut.command@) == Some(binding.command)
                &&& binding.argument == (if text::blank(shortcut.argument@) {
                    None
                } else {
                    Some(shortcut.argument@)
                })
            },
            None => ShortcutCommand::named(shortcut.command@) is None,
        },
{
}

/// The names of the commands of shortcuts and of the layouts.
pub proof fn commands_and_layouts_are_known_by_their_names()
    ensures
        ShortcutCommand::named("close"@) == Some(ShortcutCommand::Close),
        ShortcutCommand::named("workspace"@) == Some(ShortcutCommand::Workspace),
        ShortcutCommand::named("move-to-workspace"@) == Some(ShortcutCommand::MoveToWorkspace),
        ShortcutCommand::named("exec"@) == Some(ShortcutCommand::Execute),
        state::layout_named("floating"@) == Some(WindowLayout::Floating),
        state::layout_named("tiling"@) == Some(WindowLayout::Tiling),
        state::layout_name(WindowLayout::Floating) == "floating"@,
        state::layout_name(WindowLayout::Tiling) == "tiling"@,
{
    reveal_strlit("close");
    reveal_strlit("workspace");
    reveal_strlit("move-to-workspace");
    reveal_strlit("exec");
    reveal_strlit("floating");
    reveal_strlit("tiling");
    assert("close"@.len() == 5 && "workspace"@.len() == 9 && "move-to-workspace"@.len() == 17
        && "exec"@.len() == 4 && "floating"@.len() == 8 && "tiling"@.len() == 6);
}

} // verus!
