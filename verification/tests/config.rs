use blair::config::{
    accept_layers, parse_color, parse_output_mode, refresh_text, validate, AnimationCurve, AnimationsConfig,
    AutostartConfig, BindingConfig, CompositorConfig, CursorConfig, DecorationConfig, FocusPolicy,
    InputConfig, KeyedWorkspace, ModeSetting, NamedOutput, OutputConfig, OutputMode,
    OutputTransform, RefreshRate, WindowConfig, WindowRuleConfig, WorkspaceDefinition,
    WorkspacesConfig,
};
use blair::documents::{load_layers, parse_layer, Scalar};
use blair::layers::{config_fragments, merge_layers, merge_toml, ConfigEntry, ConfigValue};
use blair::model::{DecorationModeConfig, WindowLayout};
use blair::paths::{state_log_path, user_config_path, ConfigPaths};
use blair::reals::{Real32, Real64};
use blair::theme::{DecorationButton, DecorationButtonSide};

fn bits_of(value: f64) -> Real64 {
    Real64 {
        bits: value.to_bits(),
    }
}

fn single(value: f32) -> Real32 {
    Real32 {
        bits: value.to_bits(),
    }
}

/// The refresh rate of a mode as the program reads it.
fn rate(mode: &str) -> RefreshRate {
    match refresh_text(mode).map(|text| text.parse::<f64>()) {
        Some(Ok(hertz)) if hertz.is_finite() && hertz > 0.0 => {
            RefreshRate::Millihertz((hertz * 1000.0).round() as i32)
        }
        Some(Ok(_)) => RefreshRate::Unusable,
        _ => RefreshRate::Unreadable,
    }
}

fn tree(value: toml::Value) -> ConfigValue<toml::Value> {
    match value {
        toml::Value::Table(table) => ConfigValue::Table(
            table
                .into_iter()
                .map(|(key, value)| ConfigEntry {
                    key,
                    value: tree(value),
                })
                .collect(),
        ),
        leaf => ConfigValue::Leaf(leaf),
    }
}

fn parsed(text: &str) -> toml::Value {
    toml::from_str(text).unwrap()
}

fn lookup<'a>(value: &'a ConfigValue<toml::Value>, path: &[&str]) -> Option<&'a toml::Value> {
    match (value, path) {
        (ConfigValue::Leaf(leaf), []) => Some(leaf),
        (ConfigValue::Table(entries), [key, rest @ ..]) => entries
            .iter()
            .find(|entry| entry.key == *key)
            .and_then(|entry| lookup(&entry.value, rest)),
        _ => None,
    }
}

fn text(value: &toml::Value, key: &str) -> Option<String> {
    value.get(key).and_then(|v| v.as_str()).map(str::to_owned)
}

fn rule(value: &toml::Value) -> WindowRuleConfig {
    let pair = |key: &str| {
        value.get(key).and_then(|v| v.as_array()).map(|v| {
            [
                v[0].as_integer().unwrap() as i32,
                v[1].as_integer().unwrap() as i32,
            ]
        })
    };
    let flag = |key: &str| value.get(key).and_then(|v| v.as_bool());
    WindowRuleConfig {
        app_id: text(value, "app_id"),
        title: text(value, "title"),
        class: text(value, "class"),
        regex: text(value, "regex"),
        role: text(value, "role"),
        window_type: text(value, "window_type"),
        floating: flag("floating"),
        tiled: flag("tiled"),
        workspace: text(value, "workspace"),
        output: text(value, "output"),
        size: pair("size"),
        position: pair("position"),
        opacity: value
            .get("opacity")
            .and_then(|v| v.as_float())
            .map(|v| single(v as f32)),
        always_on_top: flag("always_on_top"),
        decoration: flag("decoration"),
    }
}

fn rules(toml: &str) -> Vec<WindowRuleConfig> {
    parsed(toml)["rules"]
        .as_array()
        .unwrap()
        .iter()
        .map(rule)
        .collect()
}

#[test]
fn parses_six_and_eight_digit_hex() {
    assert_eq!(parse_color("#1e1e2e"), [0x1e, 0x1e, 0x2e, 0xff]);
    assert_eq!(parse_color("#1e1e2e80"), [0x1e, 0x1e, 0x2e, 0x80]);
}

#[test]
fn falls_back_on_invalid_hex() {
    assert_eq!(parse_color("not-a-color"), [0, 0, 0, 0xff]);
}

#[test]
fn layers_merge_in_documented_precedence_order() {
    let paths = ConfigPaths {
        system_dir: "etc/blair".to_owned(),
        user_dir: "user/blair".to_owned(),
    };
    let files = [
        (
            "etc/blair/config.toml",
            "[general]\nbackend = \"winit\"\n[window]\ndefault_width = 1000\n",
        ),
        (
            "etc/blair/conf.d/20-window.toml",
            "[window]\ndefault_width = 1100\ndefault_height = 700\n",
        ),
        (
            "etc/blair/conf.d/10-window.toml",
            "[window]\ndefault_width = 1050\n",
        ),
        (
            "user/blair/config.toml",
            "[general]\nbackend = \"drm\"\n[window]\ndefault_height = 800\n",
        ),
        (
            "user/blair/conf.d/30-window.toml",
            "[window]\ndefault_width = 1200\n",
        ),
    ];
    let system = config_fragments(vec![
        "20-window.toml".to_owned(),
        "10-window.toml".to_owned(),
    ]);
    let user = config_fragments(vec!["30-window.toml".to_owned()]);
    let order = paths.load_order(&system, &user);
    assert_eq!(
        order,
        vec![
            "etc/blair/config.toml",
            "etc/blair/conf.d/10-window.toml",
            "etc/blair/conf.d/20-window.toml",
            "user/blair/config.toml",
            "user/blair/conf.d/30-window.toml",
        ]
    );

    let defaults = CompositorConfig::default();
    let base = document(&format!(
        "[general]\nbackend = \"{}\"\n[window]\ndefault_width = {}\ndefault_height = {}\nwork_area_padding = {}\n",
        defaults.general.backend,
        defaults.window.default_width,
        defaults.window.default_height,
        defaults.window.work_area_padding,
    ));
    let texts = order
        .iter()
        .map(|path| files.iter().find(|file| file.0 == path).unwrap().1.to_owned())
        .collect();
    let stages = load_layers(&base, &texts).unwrap();
    assert_eq!(stages.len(), 5);

    let merged = stages.last().unwrap();
    assert!(matches!(
        setting(merged, &["general", "backend"]),
        Some(Scalar::Text(backend)) if backend == "drm"
    ));
    assert_eq!(number(merged, &["window", "default_width"]), 1200);
    assert_eq!(number(merged, &["window", "default_height"]), 800);
    assert_eq!(number(merged, &["window", "work_area_padding"]), 16);

    let widths: Vec<i64> = stages
        .iter()
        .map(|stage| number(stage, &["window", "default_width"]))
        .collect();
    assert_eq!(widths, vec![1000, 1050, 1100, 1100, 1200]);
}

fn document(text: &str) -> ConfigValue<Scalar> {
    parse_layer(text).unwrap()
}

fn setting<'a>(value: &'a ConfigValue<Scalar>, path: &[&str]) -> Option<&'a Scalar> {
    match (value, path) {
        (ConfigValue::Leaf(leaf), []) => Some(leaf),
        (ConfigValue::Table(entries), [key, rest @ ..]) => entries
            .iter()
            .find(|entry| entry.key == *key)
            .and_then(|entry| setting(&entry.value, rest)),
        _ => None,
    }
}

fn number(value: &ConfigValue<Scalar>, path: &[&str]) -> i64 {
    match setting(value, path) {
        Some(Scalar::Integer(number)) => *number,
        other => panic!("{other:?} is no number"),
    }
}

#[test]
fn documents_are_read_down_to_their_settings() {
    let read = document(
        "text = \"a\\tb\"\nreal = 0.5\nflag = true\nwhen = 1979-05-27T07:32:00Z\nlist = [1, [2, 3], { deep = \"x\" }]\n[empty]\n",
    );
    assert!(matches!(setting(&read, &["text"]), Some(Scalar::Text(text)) if text == "a\tb"));
    assert!(matches!(setting(&read, &["real"]), Some(Scalar::Real(real)) if *real == bits_of(0.5)));
    assert!(matches!(setting(&read, &["flag"]), Some(Scalar::Flag(true))));
    assert!(matches!(
        setting(&read, &["when"]),
        Some(Scalar::Time(time)) if time == "1979-05-27T07:32:00Z"
    ));
    let ConfigValue::Table(entries) = &read else {
        panic!("a document is a table");
    };
    let at = |key: &str| &entries.iter().find(|entry| entry.key == key).unwrap().value;
    assert!(matches!(at("empty"), ConfigValue::Table(entries) if entries.is_empty()));
    let ConfigValue::List(items) = at("list") else {
        panic!("an array is a list");
    };
    assert_eq!(items.len(), 3);
    assert_eq!(number(&items[0], &[]), 1);
    let ConfigValue::List(inner) = &items[1] else {
        panic!("an array is a list");
    };
    assert_eq!(number(&inner[1], &[]), 3);
    assert!(matches!(setting(&items[2], &["deep"]), Some(Scalar::Text(text)) if text == "x"));
}

#[test]
fn the_first_text_that_is_no_document_is_named() {
    let base = document("");
    let texts = ["a = 1\n", "a = [\n", "b = \n"].map(str::to_owned).to_vec();
    assert_eq!(load_layers(&base, &texts).unwrap_err(), 1);
    assert!(parse_layer("a = 1\na = 2\n").is_none());
    assert!(load_layers(&base, &Vec::new()).unwrap().is_empty());
}

#[test]
fn lists_are_replaced_and_not_merged() {
    let base = document("list = [1, 2]\n[t]\nx = 1\n");
    let texts = vec!["list = [3]\nt = [4]\n".to_owned()];
    let stages = load_layers(&base, &texts).unwrap();
    let ConfigValue::Table(entries) = &stages[0] else {
        panic!("a document is a table");
    };
    for (key, expected) in [("list", 3), ("t", 4)] {
        let entry = entries.iter().find(|entry| entry.key == key).unwrap();
        assert!(matches!(&entry.value, ConfigValue::List(items)
            if items.len() == 1 && number(&items[0], &[]) == expected));
    }
}

#[test]
fn a_faulty_layer_is_refused_though_a_later_one_overrides_it() {
    let base = document("[window]\ndefault_width = 900\n");
    let texts = ["-5", "800"]
        .map(|width| format!("[window]\ndefault_width = {width}\n"))
        .to_vec();
    let configs = |texts: &Vec<String>| -> Vec<CompositorConfig> {
        load_layers(&base, texts)
            .unwrap()
            .iter()
            .map(|stage| {
                let mut config = CompositorConfig::default();
                config.window.default_width = number(stage, &["window", "default_width"]) as i32;
                config
            })
            .collect()
    };
    let fault = accept_layers(CompositorConfig::default(), configs(&texts)).unwrap_err();
    assert_eq!(fault.layer, 0);
    assert_eq!(Err(fault.complaint), validate(&configs(&texts)[0]));

    let swapped = vec![texts[1].clone(), texts[0].clone()];
    assert_eq!(
        accept_layers(CompositorConfig::default(), configs(&swapped)).unwrap_err().layer,
        1
    );
    let accepted =
        accept_layers(CompositorConfig::default(), configs(&vec![texts[1].clone()])).unwrap();
    assert_eq!(accepted.window.default_width, 800);
    let untouched = accept_layers(CompositorConfig::default(), Vec::new()).unwrap();
    assert_eq!(untouched.window.default_width, 900);
}

#[test]
fn missing_layers_use_built_in_defaults_without_writing_files() {
    let config = CompositorConfig::default();
    assert!(config.autostart.is_empty());
    assert!(validate(&config).is_ok());
}

#[test]
fn invalid_static_binding_is_rejected() {
    let mut config = CompositorConfig::default();
    config.bindings.push(BindingConfig {
        keys: vec!["SUPER".to_owned(), "Q".to_owned()],
        action: Some("unknown".to_owned()),
        command: None,
        value: None,
    });
    assert!(validate(&config).is_err());
}

#[test]
fn parses_output_mode_and_validates_output_fields() {
    let mode = parse_output_mode("2560x1440@165", rate("2560x1440@165")).unwrap();
    assert_eq!(
        mode,
        OutputMode {
            width: 2560,
            height: 1440,
            refresh_millihz: 165_000,
        }
    );
    assert!(parse_output_mode("2560x1440", rate("2560x1440")).is_err());
    assert!(OutputConfig {
        scale: Some(bits_of(0.0)),
        ..Default::default()
    }
    .validate("DP-1")
    .is_err());
}

#[test]
fn rejects_invalid_input_settings() {
    let mut input = InputConfig::default();
    input.mouse.sensitivity = bits_of(1.1);
    assert!(input.validate().is_err());
    input.mouse.sensitivity = bits_of(0.0);
    input.mouse.acceleration = "invalid".to_string();
    assert!(input.validate().is_err());
}

#[test]
fn parses_declarative_workspaces() {
    let value = parsed(
        "[workspaces]\ncount = 2\ndynamic = false\nwrap = true\n\n[workspaces.\"1\"]\nname = \"dev\"\noutput = \"DP-1\"\n",
    );
    let table = value["workspaces"].as_table().unwrap();
    let workspaces = WorkspacesConfig {
        count: table["count"].as_integer().unwrap() as u64,
        dynamic: table["dynamic"].as_bool().unwrap(),
        wrap: table["wrap"].as_bool().unwrap(),
        definitions: table
            .iter()
            .filter(|(_, value)| value.is_table())
            .map(|(key, value)| KeyedWorkspace {
                key: key.clone(),
                definition: WorkspaceDefinition {
                    name: text(value, "name"),
                    output: text(value, "output"),
                },
            })
            .collect(),
    };
    workspaces.validate().unwrap();
    assert_eq!(workspaces.definitions[0].key, "1");
    assert_eq!(
        workspaces.definitions[0].definition.name.as_deref(),
        Some("dev")
    );
    assert_eq!(
        workspaces.definitions[0].definition.output.as_deref(),
        Some("DP-1")
    );
}

#[test]
fn parses_and_validates_window_rules() {
    let rules = rules(
        "[[rules]]\napp_id = \"pavucontrol\"\nfloating = true\nsize = [700, 500]\n\n[[rules]]\nregex = \"Picture-in-Picture\"\nalways_on_top = true\nopacity = 0.9\n",
    );
    for (index, rule) in rules.iter().enumerate() {
        rule.validate(index + 1).unwrap();
    }
    assert_eq!(rules.len(), 2);
    assert_eq!(rules[0].size, Some([700, 500]));
}

#[test]
fn rejects_invalid_window_rule() {
    let rules = rules("[[rules]]\napp_id = \"x\"\nfloating = true\ntiled = true\n");
    assert!(rules[0].validate(1).is_err());
}

#[test]
fn parses_plural_decorations_and_legacy_alias() {
    let value = parsed(
        "[decorations]\nmode = \"server\"\nborder_width = 2\ncorner_radius = 8\ntitlebar_height = 28\n\n[decorations.buttons]\nlayout = [\"close\", \"minimize\"]\nside = \"left\"\n",
    );
    let table = &value["decorations"];
    let mut decorations = DecorationConfig::default();
    if table["mode"].as_str() == Some("server") {
        decorations.mode = DecorationModeConfig::Server;
    }
    if table["buttons"]["side"].as_str() == Some("left") {
        decorations.buttons.side = DecorationButtonSide::Left;
    }
    decorations.buttons.layout = vec![DecorationButton::Close, DecorationButton::Minimize];
    assert_eq!(decorations.mode, DecorationModeConfig::Server);
    assert_eq!(decorations.buttons.side, DecorationButtonSide::Left);
    decorations.validate().unwrap();

    let legacy = parsed("[decoration]\ncorner_radius = 4\n");
    let mut decorations = DecorationConfig::default();
    decorations.corner_radius = legacy["decoration"]["corner_radius"].as_integer().unwrap() as i32;
    assert_eq!(decorations.to_theme().corner_radius, 4);
}

#[test]
fn parses_autostart_with_optional_restart() {
    let value = parsed(
        "[[autostart]]\ncommand = \"waybar\"\nrestart = true\n\n[[autostart]]\ncommand = \"mako\"\n",
    );
    let autostart: Vec<AutostartConfig> = value["autostart"]
        .as_array()
        .unwrap()
        .iter()
        .map(|entry| AutostartConfig {
            command: text(entry, "command").unwrap(),
            restart: entry
                .get("restart")
                .and_then(|v| v.as_bool())
                .unwrap_or(false),
        })
        .collect();
    assert_eq!(autostart.len(), 2);
    assert!(autostart[0].restart);
    assert!(!autostart[1].restart);
    assert!(autostart[0].validate(1).is_ok());
}

#[test]
fn focus_defaults_are_click_to_focus() {
    let config = CompositorConfig::default();
    assert_eq!(config.focus.policy, FocusPolicy::Click);
    assert!(config.focus.raise_on_focus);
    assert!(config.focus.focus_new_windows);
    assert!(config.focus.focus_previous_on_close);
    assert!(!config.focus.warp_cursor);
}

#[test]
fn parses_animation_settings() {
    let value = parsed(
        "[animations]\nenabled = true\n\n[animations.window_open]\nduration = 150\ncurve = \"ease-out\"\n\n[animations.workspace]\nduration = 200\ncurve = \"ease-in-out\"\n",
    );
    let table = &value["animations"];
    let mut animations = AnimationsConfig::default();
    animations.enabled = table["enabled"].as_bool().unwrap();
    animations.window_open.duration = table["window_open"]["duration"].as_integer().unwrap() as u64;
    animations.workspace.duration = table["workspace"]["duration"].as_integer().unwrap() as u64;
    if table["workspace"]["curve"].as_str() == Some("ease-in-out") {
        animations.workspace.curve = AnimationCurve::EaseInOut;
    }
    animations.validate().unwrap();
    assert_eq!(animations.window_open.duration, 150);
    assert_eq!(animations.workspace.curve, AnimationCurve::EaseInOut);
}

#[test]
fn short_hex_and_odd_digits_are_black() {
    assert_eq!(parse_color("#fff"), [0, 0, 0, 0xff]);
    assert_eq!(parse_color("#12345g"), [0, 0, 0, 0xff]);
    assert_eq!(parse_color("AABBCC"), [0xaa, 0xbb, 0xcc, 0xff]);
}

#[test]
fn every_mode_fault_is_told() {
    let fault = |mode: &str| parse_output_mode(mode, rate(mode)).unwrap_err();
    assert_ne!(fault("1920x1080"), fault("1920@60"));
    assert!(parse_output_mode("0x1080@60", rate("0x1080@60")).is_err());
    assert!(parse_output_mode("1920x1080@abc", rate("1920x1080@abc")).is_err());
    assert!(parse_output_mode("1920x1080@-1", rate("1920x1080@-1")).is_err());
    assert_eq!(
        parse_output_mode("1920x1080@59.94", rate("1920x1080@59.94"))
            .unwrap()
            .refresh_millihz,
        59_940
    );
}

#[test]
fn transforms_are_read_by_name() {
    let output = |transform: &str| OutputConfig {
        transform: Some(transform.to_owned()),
        ..Default::default()
    };
    assert_eq!(
        output("90").parsed_transform().unwrap(),
        Some(OutputTransform::Rotate90)
    );
    assert_eq!(
        output("flipped-270").parsed_transform().unwrap(),
        Some(OutputTransform::Flipped270)
    );
    assert!(output("sideways").parsed_transform().is_err());
    assert_eq!(
        OutputConfig::default().parsed_transform().unwrap(),
        None
    );
}

#[test]
fn an_output_reads_its_mode() {
    let output = OutputConfig {
        mode: Some(ModeSetting {
            text: "800x600@75".to_owned(),
            refresh: rate("800x600@75"),
        }),
        ..Default::default()
    };
    assert_eq!(
        output.parsed_mode().unwrap(),
        Some(OutputMode {
            width: 800,
            height: 600,
            refresh_millihz: 75_000,
        })
    );
}

#[test]
fn faults_name_what_is_wrong() {
    let mut config = CompositorConfig::default();
    assert!(validate(&config).is_ok());
    config.outputs.push(NamedOutput {
        name: "DP-1".to_owned(),
        config: OutputConfig {
            scale: Some(bits_of(f64::NAN)),
            ..Default::default()
        },
    });
    assert_eq!(
        validate(&config).unwrap_err(),
        "output DP-1 has an invalid scale"
    );
    config.outputs.clear();
    config.rules.push(WindowRuleConfig {
        app_id: Some("x".to_owned()),
        opacity: Some(single(1.5)),
        ..Default::default()
    });
    assert_eq!(
        validate(&config).unwrap_err(),
        "rule #1 opacity must be between 0.0 and 1.0"
    );
    config.rules.clear();
    config.autostart.push(AutostartConfig {
        command: " ".to_owned(),
        restart: false,
    });
    assert!(validate(&config).is_err());
}

#[test]
fn a_rule_with_a_broken_expression_is_refused() {
    let broken = WindowRuleConfig {
        regex: Some("(".to_owned()),
        ..Default::default()
    };
    assert!(broken.validate(1).is_err());
    let fine = WindowRuleConfig {
        regex: Some("^a.c$".to_owned()),
        ..Default::default()
    };
    assert!(fine.validate(1).is_ok());
}

#[test]
fn window_and_cursor_settings_are_checked() {
    let mut window = WindowConfig::default();
    assert!(window.validate().is_ok());
    window.master_ratio = bits_of(0.95);
    assert!(window.validate().is_err());
    let mut cursor = CursorConfig::default();
    assert!(cursor.validate().is_ok());
    cursor.size = Some(4);
    assert!(cursor.validate().is_err());
    assert_eq!(WindowConfig::default().layout, WindowLayout::Floating);
}

#[test]
fn later_layers_win_and_tables_merge() {
    let mut base = tree(parsed("a = 1\n[t]\nx = 1\ny = 2\n"));
    merge_toml(&mut base, tree(parsed("a = 5\n[t]\ny = 3\nz = 4\n")));
    let number = |path: &[&str]| lookup(&base, path).unwrap().as_integer().unwrap();
    assert_eq!(number(&["a"]), 5);
    assert_eq!(number(&["t", "x"]), 1);
    assert_eq!(number(&["t", "y"]), 3);
    assert_eq!(number(&["t", "z"]), 4);

    let layers = vec![tree(parsed("a = 6\n")), tree(parsed("a = 7\n[t]\nx = 8\n"))];
    merge_layers(&mut base, layers);
    let number = |path: &[&str]| lookup(&base, path).unwrap().as_integer().unwrap();
    assert_eq!(number(&["a"]), 7);
    assert_eq!(number(&["t", "x"]), 8);
    assert_eq!(number(&["t", "y"]), 3);
}

#[test]
fn only_toml_files_are_fragments() {
    let fragments = config_fragments(vec![
        "b.toml".to_owned(),
        "notes.txt".to_owned(),
        ".toml".to_owned(),
        "a.toml".to_owned(),
    ]);
    assert_eq!(fragments, vec!["a.toml", "b.toml"]);
}

#[test]
fn paths_follow_the_environment() {
    assert_eq!(
        user_config_path(&Some("/home/u/.config".to_owned())),
        "/home/u/.config/blair/config.toml"
    );
    assert_eq!(user_config_path(&None), ".config/blair/config.toml");
    assert_eq!(
        state_log_path(&None, &Some("/home/u/".to_owned())),
        Some("/home/u/.local/state/blair/compositor.log".to_owned())
    );
    assert_eq!(
        state_log_path(&Some("/s".to_owned()), &None),
        Some("/s/blair/compositor.log".to_owned())
    );
    assert_eq!(state_log_path(&None, &None), None);
}
