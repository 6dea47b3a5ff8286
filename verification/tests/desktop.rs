use blair::config::{BindingConfig, CompositorConfig, WindowRuleConfig};
use blair::desktop::Desktop;
use blair::geometry::{Point, Rect, Size};
use blair::model::{Effect, FocusTarget, KeyboardInteractivity, Layer, LayerState, WindowId, WindowLayout};
use blair::protocol::{CompositorEvent, ShortcutBinding, ShortcutCommand};
use blair::scene::{output_plan, SceneItem, SceneLayer};
use blair::shortcuts::ActivatedShortcut;
use blair::state::{
    commit_action, request_screenshot, supervise, BlairState, ChildStatus, CommitAction,
    Supervision, WindowSettings, RESTART_DELAY,
};

fn rect(x: i32, y: i32, width: i32, height: i32) -> Rect {
    Rect {
        x,
        y,
        width,
        height,
    }
}

fn started(config: CompositorConfig) -> BlairState {
    let mut state = BlairState::new(config);
    let screen = rect(0, 0, 1000, 600);
    state.desktop.add_output("DP-1", screen, screen);
    state
}

fn opened(state: &mut BlairState, title: &str) -> WindowId {
    let id = state.new_toplevel();
    state.configure_new_window(id, title, Some("app"), false);
    state.desktop.set_window_size(id, Size { w: 400, h: 300 });
    state.map_window(id, title, Some("app"), 0);
    settle(state);
    id
}

/// Reports back every move of the keyboard focus that was asked for.
fn settle(state: &mut BlairState) -> Vec<Effect> {
    let effects = state.desktop.take_effects();
    for effect in &effects {
        if let Effect::Focus { target } = effect {
            let window = match target {
                FocusTarget::Window(id) => Some(*id),
                _ => None,
            };
            state.desktop.keyboard_focus_changed(*target, window);
        }
    }
    effects
}

#[test]
fn a_mapped_window_is_listed_and_focused() {
    let mut state = started(CompositorConfig::default());
    let id = opened(&mut state, "one");
    assert_eq!(state.desktop.focused_window(), Some(id));
    let windows = state.list_windows();
    assert_eq!(windows.len(), 1);
    assert_eq!(windows[0].title, "one");
    assert!(windows[0].focused);
}

#[test]
fn closing_returns_the_focus() {
    let mut state = started(CompositorConfig::default());
    let first = opened(&mut state, "one");
    let second = opened(&mut state, "two");
    assert_eq!(state.desktop.focused_window(), Some(second));
    state.toplevel_destroyed(second);
    settle(&mut state);
    assert_eq!(state.desktop.focused_window(), Some(first));
    assert!(state.desktop.find(second).is_none());
}

#[test]
fn workspaces_keep_their_windows_apart() {
    let mut state = started(CompositorConfig::default());
    let id = opened(&mut state, "one");
    assert!(state.desktop.window_visible_on_output(id, 0));
    assert!(state.desktop.switch_workspace(2, 5));
    assert!(!state.desktop.window_visible_on_output(id, 0));
    assert!(state.desktop.move_window_to_workspace(id, 2));
    assert!(state.desktop.window_visible_on_output(id, 0));
    let count = state.config.workspaces.count;
    assert!(state.desktop.switch_workspace(count + 1, 6));
    assert_eq!(state.desktop.workspace_for_output(0), 1);
}

#[test]
fn minimized_windows_come_back() {
    let mut state = started(CompositorConfig::default());
    let id = opened(&mut state, "one");
    let before = state.desktop.find(id).unwrap().place;
    assert!(state.desktop.minimize_window(id));
    assert!(state.desktop.find(id).unwrap().minimized.is_some());
    assert!(state.desktop.focus_window_by_id(id, 9));
    assert!(state.desktop.find(id).unwrap().minimized.is_none());
    assert_eq!(state.desktop.find(id).unwrap().place, before);
}

#[test]
fn fullscreen_restores_the_geometry() {
    let mut state = started(CompositorConfig::default());
    let id = opened(&mut state, "one");
    let before = state.desktop.find(id).unwrap();
    state.desktop.set_fullscreen(id, true);
    assert!(state.desktop.window_is_fullscreen(id));
    let items = output_plan(&state.desktop, 0, true, false);
    assert_eq!(
        items,
        vec![
            SceneItem::Cursor,
            SceneItem::Layer(SceneLayer::Overlay),
            SceneItem::Window(id),
            SceneItem::Backdrop(id, 0),
        ]
    );
    state.desktop.set_fullscreen(id, false);
    let after = state.desktop.find(id).unwrap();
    assert_eq!(after.place, before.place);
    assert!(!after.fullscreen);
}

#[test]
fn scenes_are_drawn_front_to_back() {
    let mut state = started(CompositorConfig::default());
    let first = opened(&mut state, "one");
    let second = opened(&mut state, "two");
    assert_eq!(
        output_plan(&state.desktop, 0, false, true),
        vec![
            SceneItem::DragIcon,
            SceneItem::Layer(SceneLayer::Overlay),
            SceneItem::Layer(SceneLayer::Top),
            SceneItem::Window(second),
            SceneItem::Backdrop(second, 1),
            SceneItem::Window(first),
            SceneItem::Backdrop(first, 0),
            SceneItem::Layer(SceneLayer::Bottom),
            SceneItem::Layer(SceneLayer::Background),
        ]
    );
}

#[test]
fn tiled_windows_share_the_output() {
    let mut config = CompositorConfig::default();
    config.window.layout = WindowLayout::Tiling;
    let mut state = started(config);
    let first = opened(&mut state, "one");
    let second = opened(&mut state, "two");
    let area = state.desktop.work_area_rect(0);
    let place = |id: WindowId| {
        let window = state.desktop.find(id).unwrap();
        (window.place.unwrap(), window.size)
    };
    assert!(place(first).0.x < area.x + area.width / 2);
    assert!(place(second).0.x >= area.x + area.width / 2);
}

#[test]
fn an_exclusive_layer_keeps_the_keyboard() {
    let mut state = started(CompositorConfig::default());
    let layer = LayerState {
        id: 5,
        layer: Layer::Overlay,
        interactivity: KeyboardInteractivity::Exclusive,
        configured: true,
    };
    state.desktop.set_layer(layer);
    state.desktop.focus_interactive_layer_surface(layer);
    state.desktop.take_effects();
    opened(&mut state, "one");
    assert_eq!(state.desktop.focused_window(), None);
}

#[test]
fn rules_reach_new_windows() {
    let mut config = CompositorConfig::default();
    config.rules.push(WindowRuleConfig {
        title: Some("pip".to_owned()),
        always_on_top: Some(true),
        ..Default::default()
    });
    let mut state = started(config);
    let pip = opened(&mut state, "pip");
    let other = opened(&mut state, "other");
    assert!(state.desktop.window_always_on_top(pip));
    assert_eq!(state.desktop.z_ordered_windows(0), vec![other, pip]);
}

#[test]
fn configured_shortcuts_run_their_command() {
    let mut config = CompositorConfig::default();
    config.bindings.push(BindingConfig {
        keys: vec!["SUPER".to_owned(), "RETURN".to_owned()],
        action: None,
        command: Some("foot".to_owned()),
        value: None,
    });
    let mut state = started(config);
    let binding = &state.static_bindings[0];
    let shortcut = ActivatedShortcut {
        client: blair::bindings::CONFIG_BINDING_OWNER.to_owned(),
        id: binding.id.clone(),
    };
    assert_eq!(state.activate_shortcut(shortcut, 0).as_deref(), Some("foot"));
    let foreign = ActivatedShortcut {
        client: ":1.4".to_owned(),
        id: "launch".to_owned(),
    };
    state.take_events();
    assert_eq!(state.activate_shortcut(foreign, 0), None);
    assert_eq!(
        state.take_events(),
        vec![CompositorEvent::ShortcutActivated {
            client: ":1.4".to_owned(),
            shortcut: "launch".to_owned(),
        }]
    );
}

#[test]
fn settings_take_effect_when_acceptable() {
    let mut state = started(CompositorConfig::default());
    assert!(state.set_layout_settings("tiling", 10, 12));
    let (layout, padding, radius) = state.layout_settings();
    assert_eq!((layout.as_str(), padding, radius), ("tiling", 10, 12));
    assert!(!state.set_layout_settings("tiling", 10, 13));
    assert!(!state.set_layout_settings("spiral", 10, 12));
    assert!(!state.set_layout_settings("tiling", -1, 12));
    assert_eq!(state.corner_radius(100, 6), 3);
    assert_eq!(state.corner_radius(100, 100), 12);
}

#[test]
fn children_are_told_the_display_and_the_cursor() {
    let mut state = BlairState::new(CompositorConfig::default());
    state.set_wayland_display("wayland-7");
    state.refresh_child_env("Breeze", 32);
    let value = |key: &str| {
        state
            .child_env
            .iter()
            .find(|var| var.key == key)
            .map(|var| var.value.clone())
    };
    assert_eq!(value("WAYLAND_DISPLAY").as_deref(), Some("wayland-7"));
    assert_eq!(value("XCURSOR_THEME").as_deref(), Some("Breeze"));
    assert_eq!(value("XCURSOR_SIZE").as_deref(), Some("32"));
}

#[test]
fn commits_move_windows_on() {
    assert_eq!(
        commit_action(false, true, true, true),
        CommitAction::Nothing
    );
    assert_eq!(
        commit_action(true, false, false, false),
        CommitAction::Configure
    );
    assert_eq!(commit_action(true, true, false, true), CommitAction::Show);
    assert_eq!(commit_action(true, true, true, false), CommitAction::Hide);
}

#[test]
fn screenshots_need_an_absolute_path() {
    let request = request_screenshot("DP-1", "/tmp/a.png").unwrap();
    assert_eq!(request.output.as_deref(), Some("DP-1"));
    assert_eq!(request_screenshot("", "/tmp/a.png").unwrap().output, None);
    assert!(request_screenshot("DP-1", "a.png").is_none());
}

#[test]
fn children_are_restarted_after_a_while() {
    assert_eq!(
        supervise(ChildStatus::Running, true, 0, 0),
        Supervision::Keep
    );
    assert_eq!(
        supervise(ChildStatus::Exited, false, 0, 0),
        Supervision::Drop
    );
    assert!(RESTART_DELAY > 0);
}

#[test]
fn floating_windows_open_in_the_middle() {
    let mut config = CompositorConfig::default();
    config.window.layout = WindowLayout::Floating;
    config.window.server_side_decorations = false;
    let mut state = started(config);
    let id = opened(&mut state, "one");
    let place = state.desktop.find(id).unwrap().place.unwrap();
    assert_eq!((place.x, place.y), (300, 150));
}

#[test]
fn unmaximizing_restores_the_size() {
    let mut state = started(CompositorConfig::default());
    let id = opened(&mut state, "one");
    let before = state.desktop.find(id).unwrap();
    assert!(state.desktop.set_maximized(id, true));
    let maximized = state.desktop.find(id).unwrap();
    assert!(maximized.maximized);
    assert_ne!(maximized.place, before.place);
    let area = state.desktop.work_area_rect(0);
    state.desktop.set_window_size(id, Size { w: area.width, h: area.height });
    state.desktop.take_effects();
    assert!(state.desktop.set_maximized(id, false));
    let after = state.desktop.find(id).unwrap();
    assert_eq!(after.place, before.place);
    let effects = state.desktop.take_effects();
    assert!(effects.contains(&Effect::Configure { id, size: Some(before.size) }));
}

#[test]
fn a_bad_edit_keeps_the_configuration() {
    let mut state = started(CompositorConfig::default());
    let mut broken = CompositorConfig::default();
    broken.workspaces.count = 0;
    assert_eq!(
        state.reload(broken),
        Err("workspaces count must be between 1 and 100".to_owned())
    );
    assert_eq!(state.config.workspaces.count, 10);
    assert!(state.take_events().is_empty());
    assert_eq!(state.reload(CompositorConfig::default()), Ok(None));
    assert!(state.take_events().is_empty());
    let mut next = CompositorConfig::default();
    next.cursor.size = Some(48);
    next.general.backend = "drm".to_owned();
    let change = state.reload(next).unwrap().unwrap();
    assert!(change.cursor && !change.keyboard);
    assert_eq!(state.config.cursor.size, Some(48));
    assert_ne!(state.config.general.backend, "drm");
    assert_eq!(state.take_events(), vec![CompositorEvent::ConfigurationChanged]);
}

#[test]
fn finished_animations_end() {
    let mut state = started(CompositorConfig::default());
    opened(&mut state, "one");
    assert!(state.desktop.animations_active());
    state.desktop.prune_finished_animations(150_000_000);
    assert!(!state.desktop.animations_active());
    state.desktop.prune_finished_animations(150_000_000);
    assert!(!state.desktop.animations_active());
}

#[test]
fn a_moved_window_leaves_its_workspace() {
    let mut state = started(CompositorConfig::default());
    let id = opened(&mut state, "one");
    let rest = opened(&mut state, "two");
    assert!(state.desktop.move_window_to_workspace(id, 3));
    let count = |workspace: u64| {
        let list = state.desktop.list_workspaces();
        list.iter().find(|info| info.id == workspace).unwrap().window_count
    };
    assert_eq!((count(1), count(3)), (1, 1));
    assert_eq!(state.desktop.windows_on(1)[0].id, rest);
    assert_eq!(state.desktop.windows_on(3)[0].id, id);
}

#[test]
fn another_output_gets_another_workspace() {
    let mut state = started(CompositorConfig::default());
    let screen = rect(1000, 0, 800, 600);
    state.desktop.add_output("DP-2", screen, rect(0, 0, 800, 600));
    let shown = (
        state.desktop.workspace_for_output(0),
        state.desktop.workspace_for_output(1),
    );
    assert_eq!(shown, (1, 2));
    assert!(state.desktop.switch_workspace(2, 0));
    assert_eq!(state.desktop.workspace_for_output(0), 2);
    assert_eq!(state.desktop.workspace_for_output(1), 1);
}

#[test]
fn an_empty_name_selects_the_first_output() {
    let mut state = BlairState::new(CompositorConfig::default());
    assert_eq!(state.desktop.work_area(""), rect(0, 0, 0, 0));
    let first = rect(0, 0, 1000, 600);
    state.desktop.add_output("DP-1", first, first);
    let second = rect(1000, 0, 800, 500);
    state.desktop.add_output("DP-2", second, rect(0, 0, 800, 500));
    state.desktop.set_focused_output_at(Point { x: 4400, y: 400 });
    assert_eq!(state.desktop.focused_output(), Some(1));
    assert_eq!(state.desktop.work_area(""), state.desktop.work_area("DP-1"));
    assert_eq!(state.desktop.work_area(""), first);
    assert_eq!(state.desktop.work_area("DP-2"), second);
    assert_eq!(state.desktop.work_area("DP-3"), rect(0, 0, 0, 0));
}

#[test]
fn clients_get_back_the_shortcuts_they_configured() {
    let mut state = started(CompositorConfig::default());
    let shortcut = |accelerator: &str, command, argument: Option<&str>| ShortcutBinding {
        accelerator: accelerator.to_owned(),
        command,
        argument: argument.map(str::to_owned),
    };
    let asked = || {
        vec![
            shortcut("Super+Q", ShortcutCommand::Close, None),
            shortcut("Super+1", ShortcutCommand::Workspace, Some("1")),
            shortcut("Super+Shift+2", ShortcutCommand::MoveToWorkspace, Some("20")),
            shortcut("Super+Return", ShortcutCommand::Execute, Some("foot --server")),
        ]
    };
    assert!(state.set_configured_shortcuts(asked()));
    assert_eq!(state.configured_shortcuts(), asked());

    let sloppy = vec![shortcut(" Super + 1 ", ShortcutCommand::Workspace, Some("+01"))];
    assert!(state.set_configured_shortcuts(sloppy));
    assert_eq!(
        state.configured_shortcuts(),
        vec![shortcut("Super+1", ShortcutCommand::Workspace, Some("1"))]
    );
}

#[test]
fn the_theme_stays_until_it_is_loaded_again() {
    let mut state = started(CompositorConfig::default());
    assert!(state.set_layout_settings("tiling", 10, 24));
    assert_eq!(state.layout_settings(), ("tiling".to_string(), 10, 12));
    assert_eq!(state.config.decorations.corner_radius, 24);
    assert_eq!(state.corner_radius(100, 100), 24);
    let wanted = WindowSettings {
        titlebar_height: 48,
        border_width: 7,
        corner_radius: 20,
        server_side_decorations: true,
    };
    assert!(state.set_window_settings(wanted));
    let settings = state.window_settings();
    assert_eq!(settings.titlebar_height, 48);
    assert_eq!(settings.border_width, 4);
    assert_eq!(settings.corner_radius, 12);
    assert_eq!(state.config.decorations.border_width, 7);
}

#[test]
fn outputs_of_one_name_show_one_workspace() {
    let mut state = started(CompositorConfig::default());
    let desktop = &mut state.desktop;
    desktop.add_output("DP-1", rect(1000, 0, 800, 600), rect(0, 0, 800, 600));
    assert_eq!(desktop.workspace_for_output(0), 2);
    assert_eq!(desktop.workspace_for_output(1), 2);
    assert_eq!(desktop.work_area("DP-1"), rect(0, 0, 1000, 600));
    desktop.add_output("DP-2", rect(1800, 0, 800, 600), rect(0, 0, 800, 600));
    assert_eq!(desktop.workspace_for_output(2), 1);
    assert!(desktop.switch_workspace(3, 5));
    assert_eq!(desktop.workspace_for_output(0), 3);
    assert_eq!(desktop.workspace_for_output(1), 3);
    assert_eq!(desktop.workspace_for_output(2), 1);
    desktop.set_focused_output_at(Point { x: 4 * 1100, y: 40 });
    assert_eq!(desktop.focused_output(), Some(0));
    desktop.set_focused_output_at(Point { x: 4 * 1900, y: 40 });
    assert_eq!(desktop.focused_output(), Some(2));
    assert!(desktop.switch_workspace(3, 6));
    assert_eq!(desktop.workspace_for_output(0), 1);
    assert_eq!(desktop.workspace_for_output(1), 1);
    assert_eq!(desktop.workspace_for_output(2), 3);
}

#[test]
fn switching_leaves_third_outputs_alone() {
    let mut state = started(CompositorConfig::default());
    let id = opened(&mut state, "one");
    let desktop = &mut state.desktop;
    desktop.add_output("DP-2", rect(1000, 0, 800, 600), rect(0, 0, 800, 600));
    desktop.add_output("DP-3", rect(1800, 0, 800, 600), rect(0, 0, 800, 600));
    let shown = |desktop: &Desktop| {
        [0, 1, 2].map(|output: usize| desktop.workspace_for_output(output))
    };
    assert_eq!(shown(desktop), [1, 2, 3]);
    assert!(desktop.switch_workspace(2, 5));
    assert_eq!(shown(desktop), [2, 1, 3]);
    assert!(desktop.switch_workspace(4, 6));
    assert_eq!(shown(desktop), [4, 1, 3]);
    assert!(desktop.focus_window_by_id(id, 7));
    assert_eq!(shown(desktop), [1, 4, 3]);
}

#[test]
fn windows_that_are_not_shown_yet_can_have_the_keyboard() {
    let mut state = started(CompositorConfig::default());
    let first = opened(&mut state, "one");
    let hidden = state.new_toplevel();
    state.desktop.keyboard_focus_changed(FocusTarget::Window(hidden), Some(hidden));
    assert_eq!(state.desktop.focused_window(), Some(hidden));
    assert!(state.desktop.switch_workspace(2, 5));
    settle(&mut state);
    assert!(state.desktop.switch_workspace(1, 6));
    let effects = settle(&mut state);
    assert!(!effects.contains(&Effect::Focus { target: FocusTarget::Window(first) }));
    assert_eq!(state.desktop.focused_window(), None);
}

#[test]
fn outputs_need_room_for_their_windows() {
    let mut state = started(CompositorConfig::default());
    let zone = rect(0, 0, 800, 600);
    assert!(state.desktop.output_fits(rect(1000, 0, 800, 600), zone));
    assert!(state.desktop.output_fits(rect(0x7fff_0000, 0, 800, 600), zone));
    assert!(!state.desktop.output_fits(rect(i32::MAX - 900, 0, 800, 600), zone));
    assert!(!state.desktop.output_fits(rect(i32::MIN, 0, 800, 600), zone));
    assert!(!state.desktop.output_fits(rect(0, 0, 800, 600), rect(0, 0, -1, 600)));
    let low = rect(0, i32::MAX - 600 - 128 - 513, 800, 600);
    assert!(state.desktop.output_fits(low, zone));
    assert!(state.desktop.has_room());
    state.desktop.add_output("DP-2", low, zone);
    assert!(state.desktop.has_room());
    state.new_toplevel();
    assert!(!state.desktop.has_room());
}
