//! Which settings differ between two configurations.

use vstd::prelude::*;

use crate::bindings;
use crate::config::{
    AutostartConfig, BindingConfig, CompositorConfig, CursorConfig, DecorationConfig, InputConfig,
    KeyboardConfig, KeyedWorkspace, NamedOutput, OutputConfig, WindowConfig, WindowRuleConfig,
    WorkspacesConfig,
};
use crate::reals::{Real32, Real64};
use crate::text;
use crate::theme::DecorationButton;

verus! {

fn texts_equal(a: &Vec<String>, b: &Vec<String>) -> (r: bool)
    ensures
        r == (text::strings(a@) == text::strings(b@)),
{
    if a.len() != b.len() {
        assert(text::strings(a@).len() != text::strings(b@).len());
        return false;
    }
    for i in 0..a.len()
        invariant
            a@.len() == b@.len(),
            forall|k: int| 0 <= k < i ==> (#[trigger] a@[k])@ == b@[k]@,
    {
        if !text::text_eq(a[i].as_str(), b[i].as_str()) {
            assert(text::strings(a@)[i as int] != text::strings(b@)[i as int]);
            return false;
        }
    }
    assert(text::strings(a@) =~= text::strings(b@));
    true
}

fn options_equal(a: &Option<String>, b: &Option<String>) -> (r: bool)
    ensures
        r == (text::option(*a) == text::option(*b)),
{
    match (a, b) {
        (Some(x), Some(y)) => text::text_eq(x.as_str(), y.as_str()),
        (None, None) => true,
        _ => false,
    }
}

/// Both lists of shortcuts say the same.
pub open spec fn same_bindings(a: Seq<BindingConfig>, b: Seq<BindingConfig>) -> bool {
    bindings::settings_of(a) == bindings::settings_of(b)
}

/// Whether both lists of shortcuts say the same.
pub fn bindings_equal(a: &Vec<BindingConfig>, b: &Vec<BindingConfig>) -> (r: bool)
    ensures
        r == same_bindings(a@, b@),
{
    if a.len() != b.len() {
        assert(bindings::settings_of(a@).len() != bindings::settings_of(b@).len());
        return false;
    }
    for i in 0..a.len()
        invariant
            a@.len() == b@.len(),
            forall|k: int| 0 <= k < i ==> (#[trigger] a@[k])@ == b@[k]@,
    {
        if !(texts_equal(&a[i].keys, &b[i].keys) && options_equal(&a[i].action, &b[i].action)
            && options_equal(&a[i].command, &b[i].command) && a[i].value == b[i].value) {
            assert(bindings::settings_of(a@)[i as int] != bindings::settings_of(b@)[i as int]);
            return false;
        }
    }
    assert(bindings::settings_of(a@) =~= bindings::settings_of(b@));
    true
}

/// Both opacities are the same number, or both are missing.
pub open spec fn same_opacity(a: Option<Real32>, b: Option<Real32>) -> bool {
    match (a, b) {
        (Some(x), Some(y)) => x.same(y),
        (None, None) => true,
        _ => false,
    }
}

fn opacities_equal(a: Option<Real32>, b: Option<Real32>) -> (r: bool)
    ensures
        r == same_opacity(a, b),
{
    match (a, b) {
        (Some(x), Some(y)) => x.equals(y),
        (None, None) => true,
        _ => false,
    }
}

/// Both pairs are the same, or both are missing.
pub open spec fn same_pair(a: Option<[i32; 2]>, b: Option<[i32; 2]>) -> bool {
    match (a, b) {
        (Some(x), Some(y)) => x@[0] == y@[0] && x@[1] == y@[1],
        (None, None) => true,
        _ => false,
    }
}

fn pairs_equal(a: Option<[i32; 2]>, b: Option<[i32; 2]>) -> (r: bool)
    ensures
        r == same_pair(a, b),
{
    match (a, b) {
        (Some(x), Some(y)) => x[0] == y[0] && x[1] == y[1],
        (None, None) => true,
        _ => false,
    }
}

/// Both rules say the same.
pub open spec fn same_rule(a: WindowRuleConfig, b: WindowRuleConfig) -> bool {
    &&& text::option(a.app_id) == text::option(b.app_id)
    &&& text::option(a.title) == text::option(b.title)
    &&& text::option(a.class) == text::option(b.class)
    &&& text::option(a.regex) == text::option(b.regex)
    &&& text::option(a.role) == text::option(b.role)
    &&& text::option(a.window_type) == text::option(b.window_type)
    &&& a.floating == b.floating
    &&& a.tiled == b.tiled
    &&& text::option(a.workspace) == text::option(b.workspace)
    &&& text::option(a.output) == text::option(b.output)
    &&& same_pair(a.size, b.size)
    &&& same_pair(a.position, b.position)
    &&& same_opacity(a.opacity, b.opacity)
    &&& a.always_on_top == b.always_on_top
    &&& a.decoration == b.decoration
}

fn rule_equal(a: &WindowRuleConfig, b: &WindowRuleConfig) -> (r: bool)
    ensures
        r == same_rule(*a, *b),
{
    options_equal(&a.app_id, &b.app_id) && options_equal(&a.title, &b.title) && options_equal(
        &a.class,
        &b.class,
    ) && options_equal(&a.regex, &b.regex) && options_equal(&a.role, &b.role) && options_equal(
        &a.window_type,
        &b.window_type,
    ) && a.floating == b.floating && a.tiled == b.tiled && options_equal(
        &a.workspace,
        &b.workspace,
    ) && options_equal(&a.output, &b.output) && pairs_equal(a.size, b.size) && pairs_equal(
        a.position,
        b.position,
    ) && opacities_equal(a.opacity, b.opacity) && a.always_on_top == b.always_on_top && a.decoration
        == b.decoration
}

/// Both lists of rules say the same.
pub open spec fn same_rules(a: Seq<WindowRuleConfig>, b: Seq<WindowRuleConfig>) -> bool {
    a.len() == b.len() && forall|i: int| 0 <= i < a.len() ==> same_rule(#[trigger] a[i], b[i])
}

/// Whether both lists of rules say the same.
pub fn rules_equal(a: &Vec<WindowRuleConfig>, b: &Vec<WindowRuleConfig>) -> (r: bool)
    ensures
        r == same_rules(a@, b@),
{
    if a.len() != b.len() {
        return false;
    }
    for i in 0..a.len()
        invariant
            a@.len() == b@.len(),
            forall|k: int| 0 <= k < i ==> same_rule(#[trigger] a@[k], b@[k]),
    {
        if !rule_equal(&a[i], &b[i]) {
            assert(!same_rule(a@[i as int], b@[i as int]));
            return false;
        }
    }
    true
}

/// Both keyboards are set up the same.
pub open spec fn same_keyboard(a: KeyboardConfig, b: KeyboardConfig) -> bool {
    &&& a.layout@ == b.layout@
    &&& a.variant@ == b.variant@
    &&& a.repeat_delay == b.repeat_delay
    &&& a.repeat_rate == b.repeat_rate
}

/// Whether both keyboards are set up the same.
pub fn keyboards_equal(a: &KeyboardConfig, b: &KeyboardConfig) -> (r: bool)
    ensures
        r == same_keyboard(*a, *b),
{
    text::text_eq(a.layout.as_str(), b.layout.as_str()) && text::text_eq(
        a.variant.as_str(),
        b.variant.as_str(),
    ) && a.repeat_delay == b.repeat_delay && a.repeat_rate == b.repeat_rate
}

/// All input devices are set up the same.
pub open spec fn same_input(a: InputConfig, b: InputConfig) -> bool {
    &&& same_keyboard(a.keyboard, b.keyboard)
    &&& a.mouse.sensitivity.same(b.mouse.sensitivity)
    &&& a.mouse.acceleration@ == b.mouse.acceleration@
    &&& a.touchpad == b.touchpad
}

/// Whether all input devices are set up the same.
pub fn input_equal(a: &InputConfig, b: &InputConfig) -> (r: bool)
    ensures
        r == same_input(*a, *b),
{
    keyboards_equal(&a.keyboard, &b.keyboard) && a.mouse.sensitivity.equals(b.mouse.sensitivity)
        && text::text_eq(a.mouse.acceleration.as_str(), b.mouse.acceleration.as_str())
        && a.touchpad == b.touchpad
}

/// Both cursors are the same.
pub open spec fn same_cursor(a: CursorConfig, b: CursorConfig) -> bool {
    text::option(a.theme) == text::option(b.theme) && a.size == b.size
}

/// Whether both cursors are the same.
pub fn cursors_equal(a: &CursorConfig, b: &CursorConfig) -> (r: bool)
    ensures
        r == same_cursor(*a, *b),
{
    options_equal(&a.theme, &b.theme) && a.size == b.size
}

fn buttons_equal(a: &Vec<DecorationButton>, b: &Vec<DecorationButton>) -> (r: bool)
    ensures
        r == (a@ == b@),
{
    if a.len() != b.len() {
        return false;
    }
    for i in 0..a.len()
        invariant
            a@.len() == b@.len(),
            forall|k: int| 0 <= k < i ==> #[trigger] a@[k] == b@[k],
    {
        if a[i] != b[i] {
            assert(a@[i as int] != b@[i as int]);
            return false;
        }
    }
    assert(a@ =~= b@);
    true
}

/// Both look the same.
pub open spec fn same_decorations(a: DecorationConfig, b: DecorationConfig) -> bool {
    &&& a.mode == b.mode
    &&& a.titlebar_height == b.titlebar_height
    &&& a.border_width == b.border_width
    &&& a.corner_radius == b.corner_radius
    &&& a.active_titlebar@ == b.active_titlebar@
    &&& a.inactive_titlebar@ == b.inactive_titlebar@
    &&& a.active_border@ == b.active_border@
    &&& a.inactive_border@ == b.inactive_border@
    &&& a.close_button@ == b.close_button@
    &&& a.maximize_button@ == b.maximize_button@
    &&& a.minimize_button@ == b.minimize_button@
    &&& a.buttons.layout@ == b.buttons.layout@
    &&& a.buttons.side == b.buttons.side
}

/// Whether both look the same.
pub fn decorations_equal(a: &DecorationConfig, b: &DecorationConfig) -> (r: bool)
    ensures
        r == same_decorations(*a, *b),
{
    a.mode == b.mode && a.titlebar_height == b.titlebar_height && a.border_width == b.border_width
        && a.corner_radius == b.corner_radius && text::text_eq(
        a.active_titlebar.as_str(),
        b.active_titlebar.as_str(),
    ) && text::text_eq(a.inactive_titlebar.as_str(), b.inactive_titlebar.as_str())
        && text::text_eq(a.active_border.as_str(), b.active_border.as_str()) && text::text_eq(
        a.inactive_border.as_str(),
        b.inactive_border.as_str(),
    ) && text::text_eq(a.close_button.as_str(), b.close_button.as_str()) && text::text_eq(
        a.maximize_button.as_str(),
        b.maximize_button.as_str(),
    ) && text::text_eq(a.minimize_button.as_str(), b.minimize_button.as_str()) && buttons_equal(
        &a.buttons.layout,
        &b.buttons.layout,
    ) && a.buttons.side == b.buttons.side
}

/// Windows are treated the same.
pub open spec fn same_window(a: WindowConfig, b: WindowConfig) -> bool {
    &&& a.default_width == b.default_width
    &&& a.default_height == b.default_height
    &&& a.server_side_decorations == b.server_side_decorations
    &&& a.layout == b.layout
    &&& a.work_area_padding == b.work_area_padding
    &&& a.gap == b.gap
    &&& a.master_ratio.same(b.master_ratio)
}

/// Whether windows are treated the same.
pub fn windows_equal(a: &WindowConfig, b: &WindowConfig) -> (r: bool)
    ensures
        r == same_window(*a, *b),
{
    a.default_width == b.default_width && a.default_height == b.default_height
        && a.server_side_decorations == b.server_side_decorations && a.layout == b.layout
        && a.work_area_padding == b.work_area_padding && a.gap == b.gap && a.master_ratio.equals(
        b.master_ratio,
    )
}

/// Both lists run the same commands.
pub open spec fn same_autostart(a: Seq<AutostartConfig>, b: Seq<AutostartConfig>) -> bool {
    a.len() == b.len() && forall|i: int|
        0 <= i < a.len() ==> (#[trigger] a[i]).command@ == b[i].command@ && a[i].restart
            == b[i].restart
}

fn autostarts_equal(a: &Vec<AutostartConfig>, b: &Vec<AutostartConfig>) -> (r: bool)
    ensures
        r == same_autostart(a@, b@),
{
    if a.len() != b.len() {
        return false;
    }
    for i in 0..a.len()
        invariant
            a@.len() == b@.len(),
            forall|k: int|
                0 <= k < i ==> (#[trigger] a@[k]).command@ == b@[k].command@ && a@[k].restart
                    == b@[k].restart,
    {
        if !(text::text_eq(a[i].command.as_str(), b[i].command.as_str()) && a[i].restart
            == b[i].restart) {
            assert(a@[i as int].command@ != b@[i as int].command@ || a@[i as int].restart
                != b@[i as int].restart);
            return false;
        }
    }
    true
}

/// Both define a workspace the same.
pub open spec fn same_definition(a: KeyedWorkspace, b: KeyedWorkspace) -> bool {
    &&& a.key@ == b.key@
    &&& text::option(a.definition.name) == text::option(b.definition.name)
    &&& text::option(a.definition.output) == text::option(b.definition.output)
}

/// Both set up the same workspaces.
pub open spec fn same_workspaces(a: WorkspacesConfig, b: WorkspacesConfig) -> bool {
    &&& a.count == b.count
    &&& a.dynamic == b.dynamic
    &&& a.wrap == b.wrap
    &&& a.definitions@.len() == b.definitions@.len()
    &&& forall|i: int|
        0 <= i < a.definitions@.len() ==> same_definition(
            #[trigger] a.definitions@[i],
            b.definitions@[i],
        )
}

fn workspaces_equal(a: &WorkspacesConfig, b: &WorkspacesConfig) -> (r: bool)
    ensures
        r == same_workspaces(*a, *b),
{
    if a.count != b.count || a.dynamic != b.dynamic || a.wrap != b.wrap || a.definitions.len()
        != b.definitions.len() {
        return false;
    }
    for i in 0..a.definitions.len()
        invariant
            a.definitions@.len() == b.definitions@.len(),
            forall|k: int|
                0 <= k < i ==> same_definition(#[trigger] a.definitions@[k], b.definitions@[k]),
    {
        let x = &a.definitions[i];
        let y = &b.definitions[i];
        if !(text::text_eq(x.key.as_str(), y.key.as_str()) && options_equal(
            &x.definition.name,
            &y.definition.name,
        ) && options_equal(&x.definition.output, &y.definition.output)) {
            assert(!same_definition(a.definitions@[i as int], b.definitions@[i as int]));
            return false;
        }
    }
    true
}

/// Both scales are the same number, or both are missing.
pub open spec fn same_scale(a: Option<Real64>, b: Option<Real64>) -> bool {
    match (a, b) {
        (Some(x), Some(y)) => x.same(y),
        (None, None) => true,
        _ => false,
    }
}

/// Both set an output up the same. A mode is what is written for it.
pub open spec fn same_output(a: OutputConfig, b: OutputConfig) -> bool {
    &&& a.enabled == b.enabled
    &&& match (a.mode, b.mode) {
        (Some(x), Some(y)) => x.text@ == y.text@,
        (None, None) => true,
        _ => false,
    }
    &&& same_pair(a.position, b.position)
    &&& same_scale(a.scale, b.scale)
    &&& text::option(a.transform) == text::option(b.transform)
    &&& a.vrr == b.vrr
}

fn output_equal(a: &OutputConfig, b: &OutputConfig) -> (r: bool)
    ensures
        r == same_output(*a, *b),
{
    let modes = match (&a.mode, &b.mode) {
        (Some(x), Some(y)) => text::text_eq(x.text.as_str(), y.text.as_str()),
        (None, None) => true,
        _ => false,
    };
    let scales = match (a.scale, b.scale) {
        (Some(x), Some(y)) => x.equals(y),
        (None, None) => true,
        _ => false,
    };
    a.enabled == b.enabled && modes && pairs_equal(a.position, b.position) && scales
        && options_equal(&a.transform, &b.transform) && a.vrr == b.vrr
}

/// Both set the same outputs up the same.
pub open spec fn same_outputs(a: Seq<NamedOutput>, b: Seq<NamedOutput>) -> bool {
    a.len() == b.len() && forall|i: int|
        0 <= i < a.len() ==> (#[trigger] a[i]).name@ == b[i].name@ && same_output(
            a[i].config,
            b[i].config,
        )
}

fn outputs_equal(a: &Vec<NamedOutput>, b: &Vec<NamedOutput>) -> (r: bool)
    ensures
        r == same_outputs(a@, b@),
{
    if a.len() != b.len() {
        return false;
    }
    for i in 0..a.len()
        invariant
            a@.len() == b@.len(),
            forall|k: int|
                0 <= k < i ==> (#[trigger] a@[k]).name@ == b@[k].name@ && same_output(
                    a@[k].config,
                    b@[k].config,
                ),
    {
        if !(text::text_eq(a[i].name.as_str(), b[i].name.as_str()) && output_equal(
            &a[i].config,
            &b[i].config,
        )) {
            assert(a@[i as int].name@ != b@[i as int].name@ || !same_output(
                a@[i as int].config,
                b@[i as int].config,
            ));
            return false;
        }
    }
    true
}

/// Both configurations say the same.
pub open spec fn same_config(a: CompositorConfig, b: CompositorConfig) -> bool {
    &&& a.general.backend@ == b.general.backend@
    &&& a.general.hot_reload == b.general.hot_reload
    &&& a.integrations == b.integrations
    &&& same_bindings(a.bindings@, b.bindings@)
    &&& a.focus == b.focus
    &&& a.animations == b.animations
    &&& same_autostart(a.autostart@, b.autostart@)
    &&& same_rules(a.rules@, b.rules@)
    &&& same_input(a.input, b.input)
    &&& same_workspaces(a.workspaces, b.workspaces)
    &&& same_outputs(a.outputs@, b.outputs@)
    &&& same_window(a.window, b.window)
    &&& same_decorations(a.decorations, b.decorations)
    &&& same_cursor(a.cursor, b.cursor)
}

/// Whether both configurations say the same.
pub fn configs_equal(a: &CompositorConfig, b: &CompositorConfig) -> (r: bool)
    ensures
        r == same_config(*a, *b),
{
    text::text_eq(a.general.backend.as_str(), b.general.backend.as_str()) && a.general.hot_reload
        == b.general.hot_reload && a.integrations == b.integrations && bindings_equal(
        &a.bindings,
        &b.bindings,
    ) && a.focus == b.focus && a.animations == b.animations && autostarts_equal(
        &a.autostart,
        &b.autostart,
    ) && rules_equal(&a.rules, &b.rules) && input_equal(&a.input, &b.input) && workspaces_equal(
        &a.workspaces,
        &b.workspaces,
    ) && outputs_equal(&a.outputs, &b.outputs) && windows_equal(&a.window, &b.window)
        && decorations_equal(&a.decorations, &b.decorations) && cursors_equal(&a.cursor, &b.cursor)
}

} // verus!
