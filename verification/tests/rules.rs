use blair::config::WindowRuleConfig;
use blair::reals::Real32;
use blair::rules::{AppliedWindowRule, CompiledRule, RuleSet, MAX_RULES_PER_CLIENT};

fn rule(toml: &str) -> WindowRuleConfig {
    let value: toml::Value = toml::from_str(toml).unwrap();
    let text = |key: &str| value.get(key).and_then(|v| v.as_str()).map(str::to_owned);
    let flag = |key: &str| value.get(key).and_then(|v| v.as_bool());
    WindowRuleConfig {
        app_id: text("app_id"),
        title: text("title"),
        class: text("class"),
        regex: text("regex"),
        floating: flag("floating"),
        always_on_top: flag("always_on_top"),
        size: value.get("size").and_then(|v| v.as_array()).map(|v| {
            [
                v[0].as_integer().unwrap() as i32,
                v[1].as_integer().unwrap() as i32,
            ]
        }),
        opacity: value
            .get("opacity")
            .and_then(|v| v.as_float())
            .map(|v| single(v as f32)),
        ..Default::default()
    }
}

fn single(value: f32) -> Real32 {
    Real32 {
        bits: value.to_bits(),
    }
}

fn is_default(applied: &AppliedWindowRule) -> bool {
    applied.floating.is_none()
        && applied.workspace.is_none()
        && applied.output.is_none()
        && applied.size.is_none()
        && applied.position.is_none()
        && applied.opacity.is_none()
        && applied.always_on_top.is_none()
        && applied.decoration.is_none()
}

#[test]
fn later_rules_override_earlier_ones() {
    let mut rules = RuleSet::default();
    rules.set_configured(&vec![
        rule("app_id = \"foot\"\nfloating = true\nsize = [800, 600]\n"),
        rule("regex = \"^fo+t$\"\nfloating = false\nopacity = 0.9\n"),
    ]);
    let applied = rules.resolve("shell", Some("foot"));
    assert_eq!(applied.floating, Some(false));
    assert_eq!(applied.size, Some([800, 600]));
    assert_eq!(applied.opacity, Some(single(0.9)));
    assert!(is_default(&rules.resolve("shell", Some("kitty"))));
}

#[test]
fn temporary_rules_are_scoped_to_their_client() {
    let mut rules = RuleSet::default();
    assert!(rules.register(
        ":1.7",
        "pip",
        rule("title = \"PiP\"\nalways_on_top = true\n")
    ));
    assert_eq!(rules.resolve("PiP", None).always_on_top, Some(true));
    rules.unregister_client(":1.7");
    assert_eq!(rules.resolve("PiP", None).always_on_top, None);
}

#[test]
fn x11_selectors_never_match_wayland_windows() {
    let mut rules = RuleSet::default();
    rules.set_configured(&vec![rule("class = \"Firefox\"\nfloating = true\n")]);
    assert_eq!(rules.resolve("Firefox", Some("Firefox")).floating, None);
}

#[test]
fn temporary_rule_count_is_bounded() {
    let mut rules = RuleSet::default();
    for index in 0..MAX_RULES_PER_CLIENT {
        assert!(rules.register("c", &index.to_string(), rule("title = \"x\"\n")));
    }
    assert!(!rules.register("c", "overflow", rule("title = \"x\"\n")));
    assert!(rules.register("c", "0", rule("title = \"y\"\n")));
}

#[test]
fn a_broken_expression_makes_no_rule() {
    assert!(CompiledRule::new(rule("regex = \"[\"\n")).is_err());
    let mut rules = RuleSet::default();
    assert!(!rules.register("c", "broken", rule("regex = \"[\"\n")));
}

#[test]
fn every_selector_has_to_match() {
    let compiled = CompiledRule::new(rule("app_id = \"foot\"\ntitle = \"vim\"\n"));
    let compiled = compiled.ok().unwrap();
    assert!(compiled.matches("vim", Some("foot")));
    assert!(!compiled.matches("vim", None));
    assert!(!compiled.matches("shell", Some("foot")));
}

#[test]
fn expressions_match_title_or_application() {
    let compiled = CompiledRule::new(rule("regex = \"^Pic.*ture$\"\n")).ok().unwrap();
    assert!(compiled.matches("Picture-in-Picture", None));
    assert!(compiled.matches("x", Some("Pic-ture")));
    assert!(!compiled.matches("a Picture", Some("b")));
}

#[test]
fn unregistering_one_rule_keeps_the_others() {
    let mut rules = RuleSet::default();
    rules.register("c", "a", rule("title = \"t\"\nfloating = true\n"));
    rules.register("c", "b", rule("title = \"t\"\nalways_on_top = true\n"));
    rules.unregister("c", "a");
    let applied = rules.resolve("t", None);
    assert_eq!(applied.floating, None);
    assert_eq!(applied.always_on_top, Some(true));
}
