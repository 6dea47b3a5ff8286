use blair::config::AutostartConfig;
use blair::input::{KeyAction, KeyFilter};
use blair::protocol::{ShortcutArgument, ShortcutBinding, ShortcutCommand};
use blair::shortcuts::{
    evdev_to_smithay, parse_accelerator, physical_vt_from_keycode, update_physical_mods,
    validate_accelerator, ActivatedShortcut, PhysicalMods, ShortcutRegistry,
};
use blair::startup::{parse_startup_options, StartupOptions};

#[test]
fn activates_a_shortcut_for_its_client() {
    let mut registry = ShortcutRegistry::default();
    assert!(registry.bind(":1.4", "launcher", "Super+Space"));
    assert_eq!(registry.binding_count(), 1);
    registry.update_key(evdev_to_smithay(57), true);
    assert_eq!(
        registry.maybe_activate_physical(PhysicalMods {
            logo: true,
            ..Default::default()
        }),
        vec![ActivatedShortcut {
            client: ":1.4".to_string(),
            id: "launcher".to_string(),
        }]
    );
}

#[test]
fn rebinding_is_scoped_to_the_client() {
    let mut registry = ShortcutRegistry::default();
    registry.bind(":1.4", "toggle", "Ctrl+Alt+T");
    registry.bind(":1.5", "toggle", "Super+T");
    registry.bind(":1.4", "toggle", "Super+T");
    assert_eq!(registry.binding_count(), 2);
}

#[test]
fn unregistering_a_client_removes_all_its_shortcuts() {
    let mut registry = ShortcutRegistry::default();
    registry.bind(":1.4", "quit", "Ctrl+Q");
    registry.bind(":1.4", "launcher", "Super+Space");
    registry.bind(":1.5", "launcher", "Super+Space");
    registry.unregister_client(":1.4");
    assert_eq!(registry.binding_count(), 1);
}

#[test]
fn rejects_accelerators_without_modifiers() {
    let mut registry = ShortcutRegistry::default();
    assert!(!registry.bind(":1.4", "broken", "T"));
    assert_eq!(registry.binding_count(), 0);
}

#[test]
fn supports_modifier_only_and_three_key_shortcuts() {
    let mut registry = ShortcutRegistry::default();
    assert!(registry.bind(":1.4", "overview", "Super"));
    assert!(registry.bind(":1.4", "chord", "Ctrl+Alt+Q+W+E"));
    assert_eq!(
        registry
            .maybe_activate_physical(PhysicalMods {
                logo: true,
                ..Default::default()
            })
            .len(),
        1
    );
}

#[test]
fn supports_number_row_keys() {
    let mut registry = ShortcutRegistry::default();
    assert!(registry.bind("config", "workspace-1", "Super+1"));
    registry.update_key(evdev_to_smithay(2), true);
    assert_eq!(
        registry.maybe_activate_physical(PhysicalMods {
            logo: true,
            ..Default::default()
        }),
        vec![ActivatedShortcut {
            client: "config".to_string(),
            id: "workspace-1".to_string(),
        }]
    );
}

#[test]
fn a_held_shortcut_activates_once() {
    let mut registry = ShortcutRegistry::default();
    registry.bind("c", "s", "Super+Space");
    let logo = PhysicalMods {
        logo: true,
        ..Default::default()
    };
    registry.update_key(evdev_to_smithay(57), true);
    assert_eq!(registry.maybe_activate_physical(logo).len(), 1);
    assert_eq!(registry.maybe_activate_physical(logo).len(), 0);
    registry.update_key(evdev_to_smithay(57), false);
    assert_eq!(registry.maybe_activate_physical(logo).len(), 0);
    registry.update_key(evdev_to_smithay(57), true);
    assert_eq!(registry.maybe_activate_physical(logo).len(), 1);
    registry.clear_pressed();
    assert_eq!(registry.maybe_activate_physical(logo).len(), 0);
}

#[test]
fn unbinding_leaves_other_shortcuts() {
    let mut registry = ShortcutRegistry::default();
    registry.bind("a", "one", "Super+1");
    registry.bind("a", "two", "Super+2");
    registry.unbind("a", "one");
    registry.unbind("b", "two");
    assert_eq!(registry.binding_count(), 1);
}

#[test]
fn accelerators_are_checked() {
    assert!(validate_accelerator("Ctrl+Alt+T").is_ok());
    assert!(validate_accelerator("").is_err());
    assert!(validate_accelerator("Super+NoSuchKey").is_err());
    let parsed = parse_accelerator("super + q").unwrap();
    assert!(parsed.mods.logo && !parsed.mods.ctrl);
    assert_eq!(parsed.keys.len(), 1);
}

#[test]
fn function_keys_switch_terminals() {
    assert_eq!(physical_vt_from_keycode(evdev_to_smithay(59)), Some(1));
    assert_eq!(physical_vt_from_keycode(evdev_to_smithay(88)), Some(12));
    assert_eq!(physical_vt_from_keycode(evdev_to_smithay(30)), None);
}

#[test]
fn modifiers_follow_their_keys() {
    let mut mods = PhysicalMods::default();
    update_physical_mods(&mut mods, evdev_to_smithay(29), true);
    update_physical_mods(&mut mods, evdev_to_smithay(125), true);
    assert!(mods.ctrl && mods.logo && !mods.alt && !mods.shift);
    update_physical_mods(&mut mods, evdev_to_smithay(29), false);
    assert!(!mods.ctrl && mods.logo);
}

#[test]
fn clients_see_the_release_of_a_forwarded_key() {
    let mut registry = ShortcutRegistry::default();
    let mut filter = KeyFilter::new();
    let key = evdev_to_smithay(30);
    let activated = filter.follow(&mut registry, key, true);
    let pressed = filter.decide(key, true, 0x61, activated, false, true);
    assert!(matches!(pressed, KeyAction::Forward));
    let activated = filter.follow(&mut registry, key, false);
    let released = filter.decide(key, false, 0x61, activated, false, true);
    assert!(matches!(released, KeyAction::Forward));
}

#[test]
fn clients_see_nothing_of_a_shortcut() {
    let mut registry = ShortcutRegistry::default();
    assert!(registry.bind("client", "launch", "SUPER+A"));
    let mut filter = KeyFilter::new();
    filter.follow(&mut registry, evdev_to_smithay(125), true);
    let key = evdev_to_smithay(30);
    let activated = filter.follow(&mut registry, key, true);
    match filter.decide(key, true, 0x61, activated, false, true) {
        KeyAction::Shortcuts(shortcuts) => assert_eq!(shortcuts[0].id, "launch"),
        _ => panic!("the shortcut was not activated"),
    }
    let activated = filter.follow(&mut registry, key, false);
    let released = filter.decide(key, false, 0x61, activated, false, true);
    assert!(matches!(released, KeyAction::Suppress));
    let activated = filter.follow(&mut registry, key, true);
    let inhibited = filter.decide(key, true, 0x61, activated, true, true);
    assert!(matches!(inhibited, KeyAction::Forward));
}

fn arguments(values: &[&str]) -> Vec<String> {
    values.iter().map(|value| value.to_string()).collect()
}

fn commands(values: &[&str]) -> Vec<AutostartConfig> {
    match parse_startup_options(&arguments(values)).unwrap() {
        StartupOptions::Run(commands) => commands,
        StartupOptions::Help => panic!("help was not asked for"),
    }
}

#[test]
fn parses_multiple_run_commands() {
    let run = commands(&["--run", "waybar", "--run=swaybg -i wallpaper.png"]);
    assert_eq!(run.len(), 2);
    assert_eq!(run[1].command, "swaybg -i wallpaper.png");
}

#[test]
fn accepts_equals_syntax() {
    let run = commands(&["--run=another-shell"]);
    assert_eq!(run[0].command, "another-shell");
}

#[test]
fn rejects_unknown_or_duplicate_arguments() {
    assert!(parse_startup_options(&arguments(&["--unknown"])).is_err());
    assert!(parse_startup_options(&arguments(&["--run", " "])).is_err());
}

#[test]
fn help_ends_the_command_line() {
    assert!(matches!(
        parse_startup_options(&arguments(&["--help", "--unknown"])),
        Ok(StartupOptions::Help)
    ));
    assert!(parse_startup_options(&arguments(&["--run"])).is_err());
    assert_eq!(commands(&[]).len(), 0);
}

#[test]
fn commands_are_known_by_their_names() {
    for command in ShortcutCommand::all() {
        assert_eq!(ShortcutCommand::parse(command.id()), Some(command));
        assert!(!command.label().is_empty());
    }
    assert_eq!(ShortcutCommand::parse("no-such-command"), None);
    assert_eq!(
        ShortcutCommand::Execute.argument(),
        ShortcutArgument::Command
    );
    let binding = ShortcutBinding {
        accelerator: "Super+Q".to_owned(),
        command: ShortcutCommand::Close,
        argument: None,
    };
    assert_eq!(binding.command.argument(), ShortcutArgument::Nothing);
}

#[test]
fn a_rebound_shortcut_is_not_active_any_more() {
    let mut registry = ShortcutRegistry::default();
    let held = PhysicalMods {
        logo: true,
        ..Default::default()
    };
    assert!(registry.bind(":1.4", "launcher", "Super+Space"));
    registry.update_key(evdev_to_smithay(57), true);
    assert_eq!(registry.maybe_activate_physical(held).len(), 1);
    assert!(registry.maybe_activate_physical(held).is_empty());
    registry.unbind(":1.4", "launcher");
    assert!(registry.maybe_activate_physical(held).is_empty());
    assert!(registry.bind(":1.4", "launcher", "Super+Space"));
    assert_eq!(registry.maybe_activate_physical(held).len(), 1);
    for refused in ["Space", "Super+A+B+C+D", "Super+A+A"] {
        assert!(!registry.bind(":1.4", "launcher", refused));
    }
    assert_eq!(registry.binding_count(), 1);
}
