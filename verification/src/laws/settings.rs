//! What settings mean, and which are accepted.

use vstd::prelude::*;

use crate::config::{
    AnimationsConfig, CompositorConfig, CursorConfig, DecorationConfig, InputConfig,
    KeyedWorkspace, WindowConfig, WindowRuleConfig, WorkspacesConfig,
};
use crate::config;
use crate::geometry::Rect;
use crate::model::{DecorationModeConfig, Effect, WindowId, WindowLayout};
use crate::paths;
use crate::protocol::EventModel;
use crate::startup::Startup;
use crate::startup;
use crate::state::{StateModel, WindowSettings};
use crate::state;
use crate::text;
use crate::theme::DecorationTheme;

verus! {

/// Every setting reaches window management as the one that it is.
pub proof fn settings_are_taken_over(config: CompositorConfig, theme: DecorationTheme)
    ensures
        ({
            let s = state::settings_of(config, theme);
            &&& s.layout == config.window.layout
            &&& s.work_area_padding == config.window.work_area_padding
            &&& s.gap == config.window.gap
            &&& s.master_ratio == config.window.master_ratio
            &&& s.default_size.w == config.window.default_width
            &&& s.default_size.h == config.window.default_height
            &&& s.server_side_decorations == config.window.server_side_decorations
            &&& s.decoration_mode == config.decorations.mode
            &&& s.titlebar_height == theme.titlebar_height
            &&& s.border_width == theme.border_width
            &&& s.raise_on_focus == config.focus.raise_on_focus
            &&& s.focus_new_windows == config.focus.focus_new_windows
            &&& s.focus_previous_on_close == config.focus.focus_previous_on_close
            &&& s.warp_cursor == config.focus.warp_cursor
            &&& s.workspace_count == config.workspaces.count
            &&& s.dynamic_workspaces == config.workspaces.dynamic
            &&& s.wrap_workspaces == config.workspaces.wrap
            &&& s.animations == config.animations.enabled
            &&& s.window_open_ms == config.animations.window_open.duration
            &&& s.workspace_ms == config.animations.workspace.duration
        }),
{
}

/// A theme looks as the decorations are configured: each size and color, the
/// buttons and their side.
pub proof fn themes_look_as_configured(c: DecorationConfig, theme: DecorationTheme)
    requires
        c.themed(theme),
    ensures
        theme.titlebar_height == c.titlebar_height,
        theme.border_width == c.border_width,
        theme.corner_radius == c.corner_radius,
        theme.active_titlebar@ == config::color(c.active_titlebar@),
        theme.inactive_titlebar@ == config::color(c.inactive_titlebar@),
        theme.active_border@ == config::color(c.active_border@),
        theme.inactive_border@ == config::color(c.inactive_border@),
        theme.close_button@ == config::color(c.close_button@),
        theme.maximize_button@ == config::color(c.maximize_button@),
        theme.minimize_button@ == config::color(c.minimize_button@),
        theme.button_layout@ == c.buttons.layout@,
        theme.button_side == c.buttons.side,
{
}

/// The value of a hexadecimal digit.
pub open spec fn nibble(c: char) -> int {
    if c <= '9' {
        c as u32 - '0' as u32
    } else if c <= 'F' {
        c as u32 - 'A' as u32 + 10
    } else {
        c as u32 - 'a' as u32 + 10
    }
}

/// The character is a hexadecimal digit.
pub open spec fn is_hex(c: char) -> bool {
    '0' <= c <= '9' || 'a' <= c <= 'f' || 'A' <= c <= 'F'
}

/// A color is written as pairs of hexadecimal digits for red, green and blue,
/// and is opaque unless a fourth pair says otherwise.
pub proof fn colors_are_written_red_green_blue(hex: Seq<char>)
    requires
        hex.len() == 7 || hex.len() == 9,
        hex[0] == '#',
        forall|i: int| 1 <= i < hex.len() ==> is_hex(#[trigger] hex[i]),
    ensures
        ({
            let c = config::color(hex);
            &&& c.len() == 4
            &&& c[0] == 16 * nibble(hex[1]) + nibble(hex[2])
            &&& c[1] == 16 * nibble(hex[3]) + nibble(hex[4])
            &&& c[2] == 16 * nibble(hex[5]) + nibble(hex[6])
            &&& hex.len() == 7 ==> c[3] == 255
            &&& hex.len() == 9 ==> c[3] == 16 * nibble(hex[7]) + nibble(hex[8])
        }),
{
    let digits = hex.skip(1);
    assert(is_hex(hex[1]));
    assert(digits[0] == hex[1]);
    reveal_with_fuel(config::without_marks, 2);
    assert(config::without_marks(hex) == digits);
    assert forall|i: int| 0 <= i < digits.len() implies is_hex(#[trigger] digits[i]) by {
        assert(digits[i] == hex[i + 1]);
        assert(is_hex(hex[i + 1]));
    }
    assert forall|i: int| 0 <= i < digits.len() implies text::hex_digit(#[trigger] digits[i])
        == Some(nibble(digits[i]) as u8) && 0 <= nibble(digits[i]) < 16 by {
        assert(is_hex(digits[i]));
    }
    assert(digits[1] == hex[2] && digits[2] == hex[3] && digits[3] == hex[4] && digits[4] == hex[5]
        && digits[5] == hex[6]);
    assert(is_hex(digits[0]) && is_hex(digits[1]) && is_hex(digits[2]) && is_hex(digits[3]) && is_hex(
        digits[4],
    ) && is_hex(digits[5]));
    if hex.len() == 9 {
        assert(digits[6] == hex[7] && digits[7] == hex[8]);
        assert(is_hex(digits[6]) && is_hex(digits[7]));
    }
}

/// Window settings are accepted exactly if the default size is one, padding
/// and gap are at most 512 pixels, and the ratio is between 0.1 and 0.9.
pub proof fn window_settings_have_limits(w: WindowConfig)
    ensures
        w.fault() is None <==> {
            &&& w.default_width > 0 && w.default_height > 0
            &&& 0 <= w.work_area_padding <= 512
            &&& 0 <= w.gap <= 512
            &&& 0x3fb9_9999_9999_999a <= w.master_ratio.bits <= 0x3fec_cccc_cccc_cccd
        },
{
}

/// Decorations are accepted exactly if their sizes are within limits and no
/// button is named twice.
pub proof fn decorations_have_limits(d: DecorationConfig)
    ensures
        d.fault() is None <==> {
            &&& 0 <= d.border_width <= 16
            &&& 0 <= d.corner_radius <= 64
            &&& 0 <= d.titlebar_height <= 96
            &&& d.buttons.layout@.no_duplicates()
        },
{
    let b = d.buttons.layout@;
    if config::distinct(b) {
        assert forall|i: int, j: int|
            0 <= i < b.len() && 0 <= j < b.len() && i != j implies b[i] != b[j] by {
            if i < j {
                assert(b[i] != b[j]);
            } else {
                assert(b[j] != b[i]);
            }
        }
    }
}

/// Animations last ten seconds at most, and cursors are between 8 and 256
/// pixels large and from a theme with a name.
pub proof fn animations_and_cursors_have_limits(a: AnimationsConfig, c: CursorConfig)
    ensures
        a.fault() is None <==> a.window_open.duration <= 10_000 && a.window_close.duration <= 10_000
            && a.workspace.duration <= 10_000 && a.minimize.duration <= 10_000,
        c.fault() is None <==> (c.theme matches Some(name) ==> !text::blank(name@)) && (
        c.size matches Some(size) ==> 8 <= size <= 256),
{
}

/// Input settings are accepted exactly if the keyboard has a layout, repeats
/// within limits, and the mouse is set as it can be.
pub proof fn input_settings_have_limits(i: InputConfig)
    ensures
        i.fault() is None <==> {
            &&& !text::blank(i.keyboard.layout@)
            &&& 0 <= i.keyboard.repeat_delay <= 2000
            &&& 1 <= i.keyboard.repeat_rate <= 100
            &&& i.mouse.sensitivity.bits <= 0x3ff0_0000_0000_0000 || 0x8000_0000_0000_0000
                <= i.mouse.sensitivity.bits <= 0xbff0_0000_0000_0000
            &&& i.mouse.acceleration@ == "adaptive"@ || i.mouse.acceleration@ == "flat"@
        },
{
}

/// A rule is refused if it selects nothing, wants opposites, an impossible
/// size or opacity, or has an expression that cannot be read.
pub proof fn rules_have_limits(r: WindowRuleConfig, index: nat, compiles: bool)
    requires
        r.fault_given(index, compiles) is None,
    ensures
        r.app_id is Some || r.title is Some || r.class is Some || r.regex is Some || r.role is Some
            || r.window_type is Some,
        r.regex is Some ==> compiles,
        !(r.floating == Some(true) && r.tiled == Some(true)),
        r.size matches Some(size) ==> size@[0] > 0 && size@[1] > 0,
        r.opacity matches Some(o) ==> o.bits <= 0x3f80_0000 || o.bits == 0x8000_0000,
        r.app_id matches Some(value) ==> !text::blank(value@),
        r.title matches Some(value) ==> !text::blank(value@),
{
}

/// There are between one and a hundred workspaces, and only those are defined.
pub proof fn workspaces_have_limits(w: WorkspacesConfig, i: int)
    requires
        w.fault() is None,
        0 <= i < w.definitions@.len(),
    ensures
        1 <= w.count <= 100,
        text::unsigned(w.definitions@[i].key@, u64::MAX as nat) is Some,
        1 <= text::unsigned(w.definitions@[i].key@, u64::MAX as nat)->0 <= w.count,
{
    lemma_definitions(w, 0, i);
}

proof fn lemma_definitions(w: WorkspacesConfig, from: int, i: int)
    requires
        w.definition_fault(from) is None,
        0 <= from <= i < w.definitions@.len(),
    ensures
        w.definitions@[i].fault(w.count) is None,
    decreases i - from,
{
    if from < i {
        lemma_definitions(w, from + 1, i);
    }
}

/// A configuration is accepted exactly if all of its parts are.
pub proof fn every_part_is_checked(c: CompositorConfig)
    ensures
        c.fault() is None ==> {
            &&& forall|i: int|
                0 <= i < c.bindings@.len() ==> (#[trigger] c.bindings@[i]).fault(
                    (i + 1) as nat,
                ) is None
            &&& forall|i: int|
                0 <= i < c.rules@.len() ==> (#[trigger] c.rules@[i]).fault((i + 1) as nat) is None
            &&& forall|i: int|
                0 <= i < c.autostart@.len() ==> (#[trigger] c.autostart@[i]).fault(
                    (i + 1) as nat,
                ) is None
            &&& forall|i: int|
                0 <= i < c.outputs@.len() ==> (#[trigger] c.outputs@[i]).config.fault(
                    c.outputs@[i].name@,
                ) is None
            &&& c.input.fault() is None && c.workspaces.fault() is None && c.window.fault() is None
            &&& c.decorations.fault() is None && c.animations.fault() is None
                && c.cursor.fault() is None
        },
{
    if c.fault() is None {
        assert forall|i: int| 0 <= i < c.bindings@.len() implies (
        #[trigger] c.bindings@[i]).fault((i + 1) as nat) is None by {
            lemma_bindings_checked(c.bindings@, 0, i);
        }
        assert forall|i: int| 0 <= i < c.rules@.len() implies (#[trigger] c.rules@[i]).fault(
            (i + 1) as nat,
        ) is None by {
            lemma_rules_checked(c.rules@, 0, i);
        }
        assert forall|i: int| 0 <= i < c.autostart@.len() implies (
        #[trigger] c.autostart@[i]).fault((i + 1) as nat) is None by {
            lemma_autostart_checked(c.autostart@, 0, i);
        }
        assert forall|i: int| 0 <= i < c.outputs@.len() implies (
        #[trigger] c.outputs@[i]).config.fault(c.outputs@[i].name@) is None by {
            lemma_outputs_checked(c.outputs@, 0, i);
        }
    }
}

proof fn lemma_bindings_checked(b: Seq<config::BindingConfig>, from: int, i: int)
    requires
        config::bindings_fault(b, from) is None,
        0 <= from <= i < b.len(),
    ensures
        b[i].fault((i + 1) as nat) is None,
    decreases i - from,
{
    if from < i {
        lemma_bindings_checked(b, from + 1, i);
    }
}

proof fn lemma_rules_checked(b: Seq<WindowRuleConfig>, from: int, i: int)
    requires
        config::rules_fault(b, from) is None,
        0 <= from <= i < b.len(),
    ensures
        b[i].fault((i + 1) as nat) is None,
    decreases i - from,
{
    if from < i {
        lemma_rules_checked(b, from + 1, i);
    }
}

proof fn lemma_autostart_checked(b: Seq<config::AutostartConfig>, from: int, i: int)
    requires
        config::autostart_fault(b, from) is None,
        0 <= from <= i < b.len(),
    ensures
        b[i].fault((i + 1) as nat) is None,
    decreases i - from,
{
    if from < i {
        lemma_autostart_checked(b, from + 1, i);
    }
}

proof fn lemma_outputs_checked(b: Seq<config::NamedOutput>, from: int, i: int)
    requires
        config::outputs_fault(b, from) is None,
        0 <= from <= i < b.len(),
    ensures
        b[i].config.fault(b[i].name@) is None,
    decreases i - from,
{
    if from < i {
        lemma_outputs_checked(b, from + 1, i);
    }
}

/// A setting of an output is accepted if its mode and transform can be read
/// and its scale is a positive number.
pub proof fn outputs_have_limits(o: config::OutputConfig, name: Seq<char>)
    ensures
        o.fault(name) is None <==> {
            &&& o.mode matches Some(mode) ==> config::mode_meaning(
                mode.text@,
                mode.refresh,
            ) is Ok
            &&& o.transform matches Some(value) ==> config::transform_meaning(value@) is Ok
            &&& o.scale matches Some(scale) ==> 0 < scale.bits < 0x7ff0_0000_0000_0000
        },
{
}

/// A mode that is accepted has a size of at least a pixel and the refresh rate
/// that was read.
pub proof fn modes_are_positive(value: Seq<char>, refresh: config::RefreshRate)
    ensures
        config::mode_meaning(value, refresh) matches Ok(mode) ==> mode.width > 0 && mode.height > 0
            && refresh == config::RefreshRate::Millihertz(mode.refresh_millihz),
        config::mode_meaning(value, refresh) matches Ok(mode) ==> exists|at: int, cross: int|
            0 <= cross < at < value.len() && #[trigger] value[at] == '@' && #[trigger] value[cross]
                == 'x' && text::signed(value.take(cross), i32::MIN as int, i32::MAX as int) == Some(
                mode.width as int,
            ) && text::signed(
                value.subrange(cross + 1, at),
                i32::MIN as int,
                i32::MAX as int,
            ) == Some(mode.height as int),
{
    if config::mode_meaning(value, refresh) is Ok {
        let at = text::first_index(value, '@', 0)->0;
        lemma_first_index(value, '@', 0);
        let resolution = value.take(at);
        let cross = text::first_index(resolution, 'x', 0)->0;
        lemma_first_index(resolution, 'x', 0);
        assert(value[at] == '@' && value[cross] == 'x');
        assert(resolution.take(cross) =~= value.take(cross));
        assert(resolution.skip(cross + 1) =~= value.subrange(cross + 1, at));
    }
}

proof fn lemma_first_index(value: Seq<char>, c: char, from: int)
    requires
        0 <= from,
    ensures
        text::first_index(value, c, from) matches Some(i) ==> from <= i < value.len() && value[i]
            == c,
    decreases value.len() - from,
{
    if from < value.len() && value[from] != c {
        lemma_first_index(value, c, from + 1);
    }
}

/// A workspace is called by its number unless its definition names it, and is
/// meant for the output that its definition names.
pub proof fn workspaces_are_configured_by_number(w: WorkspacesConfig, id: u64, i: int)
    ensures
        ({
            let made = state::configured_workspace(w, id);
            &&& made.id == id
            &&& made.focused_window is None && made.focus_history.len() == 0
            &&& (forall|j: int|
                0 <= j < w.definitions@.len() ==> (#[trigger] w.definitions@[j]).key@
                    != text::decimal(id as nat)) ==> made.name == text::decimal(id as nat)
                && made.output is None
            &&& 0 <= i < w.definitions@.len() && w.definitions@[i].key@ == text::decimal(id as nat)
                && (forall|j: int|
                0 <= j < i ==> (#[trigger] w.definitions@[j]).key@ != text::decimal(id as nat)) ==> {
                &&& w.definitions@[i].definition.name matches Some(name) ==> made.name == name@
                &&& w.definitions@[i].definition.name is None ==> made.name == text::decimal(
                    id as nat,
                )
                &&& w.definitions@[i].definition.output matches Some(output) ==> made.output
                    == Some(output@)
                &&& w.definitions@[i].definition.output is None ==> made.output is None
            }
        }),
{
    let key = text::decimal(id as nat);
    lemma_definition_place(w.definitions@, key, 0);
    match state::definition_place(w.definitions@, key, 0) {
        Some(k) => {
            if 0 <= i < w.definitions@.len() && w.definitions@[i].key@ == key && k != i {
                assert(w.definitions@[k].key@ == key);
                assert(w.definitions@[i].key@ == key);
            }
        },
        None => {},
    }
}

proof fn lemma_definition_place(d: Seq<KeyedWorkspace>, key: Seq<char>, from: int)
    requires
        0 <= from,
    ensures
        match state::definition_place(d, key, from) {
            Some(i) => from <= i < d.len() && d[i].key@ == key && forall|j: int|
                from <= j < i ==> (#[trigger] d[j]).key@ != key,
            None => forall|j: int| from <= j < d.len() ==> (#[trigger] d[j]).key@ != key,
        },
    decreases d.len() - from,
{
    if from < d.len() && d[from].key@ != key {
        lemma_definition_place(d, key, from + 1);
    }
}

/// What a client may ask of the layout and of decorations, and what of the
/// configuration it changes.
pub proof fn clients_change_what_they_ask_for(
    config: CompositorConfig,
    layout: WindowLayout,
    padding: i32,
    radius: i32,
    s: WindowSettings,
)
    ensures
        state::acceptable_layout(padding, radius) <==> 0 <= padding <= 128 && (radius == 0 || radius
            == 12 || radius == 24),
        s.acceptable() <==> 20 <= s.titlebar_height <= 96 && 0 <= s.border_width <= 16 && 0
            <= s.corner_radius <= 64,
        ({
            let next = state::with_layout(config, layout, padding, radius);
            &&& next.window.layout == layout
            &&& next.window.work_area_padding == padding
            &&& next.decorations.corner_radius == radius
            &&& next.window.gap == config.window.gap
            &&& next.decorations.border_width == config.decorations.border_width
            &&& next.bindings == config.bindings && next.rules == config.rules
        }),
        ({
            let next = state::with_decorations(config, s);
            &&& next.decorations.titlebar_height == s.titlebar_height
            &&& next.decorations.border_width == s.border_width
            &&& next.decorations.corner_radius == s.corner_radius
            &&& next.window.server_side_decorations == s.server_side_decorations
            &&& s.server_side_decorations ==> next.decorations.mode == DecorationModeConfig::Server
            &&& !s.server_side_decorations ==> next.decorations.mode == DecorationModeConfig::Client
            &&& next.window.layout == config.window.layout
            &&& next.bindings == config.bindings && next.rules == config.rules
        }),
{
}

/// A configuration that is loaded while running changes everything but what
/// takes a restart: the backend, the transport, the outputs and workspaces.
pub proof fn some_settings_take_a_restart(current: CompositorConfig, next: CompositorConfig)
    ensures
        ({
            let c = state::applicable(current, next);
            &&& c.general.backend == current.general.backend
            &&& c.integrations == current.integrations
            &&& c.outputs == current.outputs
            &&& c.workspaces == current.workspaces
            &&& c.general.hot_reload == next.general.hot_reload
            &&& c.window == next.window && c.decorations == next.decorations
            &&& c.bindings == next.bindings && c.rules == next.rules
            &&& c.input == next.input && c.focus == next.focus && c.animations == next.animations
            &&& c.cursor == next.cursor && c.autostart == next.autostart
        }),
{
}

/// Clients hear of windows, outputs and workspaces what happened to them.
pub proof fn clients_hear_what_happened(s: StateModel, id: WindowId, output: usize, workspace: u64, area: Rect, on: bool)
    requires
        output < s.desktop.outputs.len(),
    ensures
        state::notice(s, Effect::WindowOpened { id }) == Some(
            EventModel::WindowOpened {
                id,
                title: state::text_of(s.texts, id).title,
                app_id: state::text_of(s.texts, id).app_id,
            },
        ),
        state::notice(s, Effect::WindowClosed { id }) == Some(EventModel::WindowClosed { id }),
        state::notice(s, Effect::WindowFocused { id }) == Some(EventModel::WindowFocused { id }),
        state::notice(s, Effect::FocusCleared) == Some(EventModel::FocusCleared),
        state::notice(s, Effect::WindowGeometryChanged { id, geometry: area }) == Some(
            EventModel::WindowGeometryChanged { id, geometry: area },
        ),
        state::notice(s, Effect::WindowMinimized { id }) == Some(
            EventModel::WindowMinimized { id },
        ),
        state::notice(s, Effect::WindowRestored { id }) == Some(EventModel::WindowRestored { id }),
        state::notice(s, Effect::WindowMaximized { id, maximized: on }) == Some(
            EventModel::WindowMaximized { id, maximized: on },
        ),
        state::notice(s, Effect::OutputAdded { output }) == Some(
            EventModel::OutputAdded { output: s.desktop.output_names[output as int] },
        ),
        state::notice(s, Effect::WorkAreaChanged { output }) == Some(
            EventModel::WorkAreaChanged {
                output: s.desktop.output_names[output as int],
                area: s.desktop.outputs[output as int].zone,
            },
        ),
        state::notice(s, Effect::WorkspaceActivated { output, workspace }) == Some(
            EventModel::WorkspaceActivated {
                output: s.desktop.output_names[output as int],
                workspace,
            },
        ),
        state::notice(s, Effect::WorkspacesChanged) == Some(EventModel::WorkspacesChanged),
        state::notice(s, Effect::SendClose { id }) is None,
        state::notice(s, Effect::Raise { id }) is None,
{
}

/// Commands given at the start are run in the order in which they are given,
/// however they are written.
pub proof fn startup_commands_keep_their_order(
    args: Seq<Seq<char>>,
    from: int,
    commands: Seq<Seq<char>>,
)
    requires
        0 <= from,
    ensures
        from >= args.len() ==> startup::startup(args, from, commands) == Startup::Run(commands),
        from + 1 < args.len() && args[from] == "--run"@ && !text::blank(args[from + 1])
            ==> startup::startup(args, from, commands) == startup::startup(
            args,
            from + 2,
            commands.push(args[from + 1]),
        ),
        from + 1 == args.len() && args[from] == "--run"@ ==> startup::startup(
            args,
            from,
            commands,
        ) is Refused,
        from < args.len() && (args[from] == "--help"@ || args[from] == "-h"@) ==> startup::startup(
            args,
            from,
            commands,
        ) is Help,
        from < args.len() && args[from].len() > 6 && args[from].take(6) == "--run="@
            && !text::blank(args[from].skip(6)) ==> startup::startup(args, from, commands)
            == startup::startup(args, from + 1, commands.push(args[from].skip(6))),
        from < args.len() && (args[from].len() == 0 || args[from][0] != '-') ==> startup::startup(
            args,
            from,
            commands,
        ) is Refused,
{
    reveal_strlit("--run");
    reveal_strlit("--help");
    reveal_strlit("-h");
    reveal_strlit("--run=");
    assert("--run"@.len() == 5 && "--help"@.len() == 6 && "-h"@.len() == 2 && "--run="@.len() == 6);
    assert("--help"@[2] == 'h' && "--run"@[2] == 'r' && "--run="@[0] == '-' && "--run="@[2] == 'r');
    assert("--run"@[0] == '-' && "--help"@[0] == '-' && "-h"@[0] == '-');
    if from < args.len() && args[from].len() > 6 && args[from].take(6) == "--run="@ {
        assert("--run="@ =~= args[from].subrange(0, 6));
        assert(args[from].take(6)[2] == args[from][2]);
    }
    if from < args.len() && (args[from].len() == 0 || args[from][0] != '-') {
        if "--run="@.is_prefix_of(args[from]) {
            assert(args[from].subrange(0, 6)[0] == args[from][0]);
        }
    }
}

/// The configuration file of a directory comes first, then its fragments in
/// their order.
pub proof fn fragments_come_after_the_file(directory: Seq<char>, fragments: Seq<Seq<char>>, i: int)
    requires
        0 <= i < fragments.len(),
    ensures
        ({
            let files = paths::directory_files(directory, fragments);
            &&& files.len() == fragments.len() + 1
            &&& files[0] == paths::below(directory, "config.toml"@)
            &&& files[i + 1] == paths::below(paths::below(directory, "conf.d"@), fragments[i])
        }),
{
}

/// A path below a directory begins with the directory, and an absolute path
/// stays as it is.
pub proof fn paths_are_joined_with_one_slash(directory: Seq<char>, path: Seq<char>)
    requires
        directory.len() > 0,
    ensures
        path.len() > 0 && path[0] == '/' ==> paths::below(directory, path) == path,
        (path.len() == 0 || path[0] != '/') && directory.last() != '/' ==> paths::below(
            directory,
            path,
        ) == directory.push('/') + path,
        (path.len() == 0 || path[0] != '/') && directory.last() == '/' ==> paths::below(
            directory,
            path,
        ) == directory + path,
{
    reveal_strlit("/");
    assert("/"@ =~= seq!['/']);
    if path.len() > 0 && path[0] == '/' {
        assert(path.subrange(0, 1) =~= "/"@);
    }
    if path.len() > 0 && path[0] != '/' {
        assert(path.subrange(0, 1)[0] == path[0]);
    }
    assert(directory + "/"@ + path =~= directory.push('/') + path);
}

} // verus!
