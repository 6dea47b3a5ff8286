use blair::geometry::Rect;
use blair::model::WindowId;
use blair::protocol::{CompositorEvent, ShortcutBinding, ShortcutCommand, WindowInfo};
use blair::wire::{
    client_left, decode, encode, receive_shortcuts, DbusWindow, Signal, SignalBody, WireShortcut,
};

#[test]
fn round_trips_through_protocol_window_info() {
    let info = WindowInfo {
        id: WindowId(7),
        title: "Terminal".to_owned(),
        app_id: Some("org.example.Terminal".to_owned()),
        geometry: Rect {
            x: 1,
            y: 2,
            width: 800,
            height: 600,
        },
        focused: true,
        minimized: false,
        maximized: false,
    };
    let wire = DbusWindow::from_info(&info);
    assert_eq!(wire.into_info(), info);
}

#[test]
fn empty_app_id_round_trips_to_none() {
    let wire = DbusWindow {
        id: 1,
        title: "Untitled".to_owned(),
        app_id: String::new(),
        x: 0,
        y: 0,
        width: 100,
        height: 100,
        focused: false,
        minimized: false,
        maximized: false,
    };
    assert_eq!(wire.into_info().app_id, None);
}

#[test]
fn events_survive_the_bus() {
    let events = vec![
        CompositorEvent::WindowOpened {
            id: WindowId(3),
            title: "a".to_owned(),
            app_id: Some("b".to_owned()),
        },
        CompositorEvent::FocusCleared,
        CompositorEvent::WindowMaximized {
            id: WindowId(4),
            maximized: true,
        },
        CompositorEvent::WorkAreaChanged {
            output: "DP-1".to_owned(),
            area: Rect {
                x: 0,
                y: 30,
                width: 800,
                height: 570,
            },
        },
    ];
    for event in events {
        let copy = format!("{event:?}");
        let (signal, body, target) = encode(event);
        assert_eq!(target, None);
        let back = decode(signal, body, ":1.1").unwrap();
        assert_eq!(format!("{back:?}"), copy);
    }
}

#[test]
fn shortcuts_go_to_their_client() {
    let (signal, body, target) = encode(CompositorEvent::ShortcutActivated {
        client: ":1.9".to_owned(),
        shortcut: "launch".to_owned(),
    });
    assert_eq!(signal, Signal::ShortcutActivated);
    assert_eq!(target.as_deref(), Some(":1.9"));
    assert_eq!(
        decode(signal, body, ":1.9"),
        Some(CompositorEvent::ShortcutActivated {
            client: ":1.9".to_owned(),
            shortcut: "launch".to_owned(),
        })
    );
    assert_eq!(decode(Signal::WindowClosed, SignalBody::Empty, ""), None);
}

#[test]
fn signals_are_known_by_name() {
    assert_eq!(Signal::parse("WindowOpened"), Some(Signal::WindowOpened));
    assert_eq!(Signal::parse("windowopened"), None);
}

#[test]
fn received_shortcuts_are_all_or_nothing() {
    let wire = |command: &str| WireShortcut {
        accelerator: "Super+1".to_owned(),
        command: command.to_owned(),
        argument: "2".to_owned(),
    };
    let known = ShortcutCommand::Workspace.id();
    assert_eq!(
        receive_shortcuts(vec![wire(known)]),
        Some(vec![ShortcutBinding {
            accelerator: "Super+1".to_owned(),
            command: ShortcutCommand::Workspace,
            argument: Some("2".to_owned()),
        }])
    );
    assert_eq!(receive_shortcuts(vec![wire(known), wire("fly")]), None);
}

#[test]
fn only_unique_names_without_an_owner_have_left() {
    assert!(client_left(":1.5", false));
    assert!(!client_left(":1.5", true));
    assert!(!client_left("org.example.Panel", false));
}
