//! The compositor: the desktop with its configuration, rules and shortcuts.

use vstd::prelude::*;

use crate::bindings::{ActionModel, StaticBinding, StaticBindingAction, StaticModel};
use crate::bindings;
use crate::changes;
use crate::config::{CompositorConfig, KeyedWorkspace, WindowRuleConfig, WorkspacesConfig};
use crate::config;
use crate::desktop::{Desktop, Workspace};
use crate::desktop;
use crate::geometry::{Location, Rect, Size};
use crate::geometry;
use crate::model::{
    DecorationModeConfig, DesktopModel, Effect, FocusTarget, ManagedWindow, RuleOutcome, Settings,
    WindowId, WindowLayout, WorkspaceModel,
};
use crate::model;
use crate::protocol::{CompositorEvent, EventModel, InfoModel, ShortcutBinding, WindowInfo};
use crate::rules::{AppliedModel, AppliedWindowRule, RuleSet, RuleSetModel};
use crate::rules;
use crate::seqs;
use crate::shortcuts::{ActivatedShortcut, RegistryModel, ShortcutRegistry};
use crate::text;
use crate::theme::DecorationTheme;

verus! {

/// The settings that window management reads, as they are configured. Frames
/// are as large as the theme draws them.
pub open spec fn settings_of(config: CompositorConfig, theme: DecorationTheme) -> Settings {
    Settings {
        layout: config.window.layout,
        work_area_padding: config.window.work_area_padding,
        gap: config.window.gap,
        master_ratio: config.window.master_ratio,
        default_size: Size { w: config.window.default_width, h: config.window.default_height },
        server_side_decorations: config.window.server_side_decorations,
        decoration_mode: config.decorations.mode,
        titlebar_height: theme.titlebar_height,
        border_width: theme.border_width,
        raise_on_focus: config.focus.raise_on_focus,
        focus_new_windows: config.focus.focus_new_windows,
        focus_previous_on_close: config.focus.focus_previous_on_close,
        warp_cursor: config.focus.warp_cursor,
        workspace_count: config.workspaces.count,
        dynamic_workspaces: config.workspaces.dynamic,
        wrap_workspaces: config.workspaces.wrap,
        animations: config.animations.enabled,
        window_open_ms: config.animations.window_open.duration,
        workspace_ms: config.animations.workspace.duration,
    }
}

/// The settings that window management reads, as they are configured. Frames
/// are as large as the theme draws them.
pub fn window_management_settings(config: &CompositorConfig, theme: &DecorationTheme) -> (r:
    Settings)
    ensures
        r == settings_of(*config, *theme),
{
    Settings {
        layout: config.window.layout,
        work_area_padding: config.window.work_area_padding,
        gap: config.window.gap,
        master_ratio: config.window.master_ratio,
        default_size: Size { w: config.window.default_width, h: config.window.default_height },
        server_side_decorations: config.window.server_side_decorations,
        decoration_mode: config.decorations.mode,
        titlebar_height: theme.titlebar_height,
        border_width: theme.border_width,
        raise_on_focus: config.focus.raise_on_focus,
        focus_new_windows: config.focus.focus_new_windows,
        focus_previous_on_close: config.focus.focus_previous_on_close,
        warp_cursor: config.focus.warp_cursor,
        workspace_count: config.workspaces.count,
        dynamic_workspaces: config.workspaces.dynamic,
        wrap_workspaces: config.workspaces.wrap,
        animations: config.animations.enabled,
        window_open_ms: config.animations.window_open.duration,
        workspace_ms: config.animations.workspace.duration,
    }
}

/// The first definition from `from` on with a key.
pub open spec fn definition_place(
    definitions: Seq<KeyedWorkspace>,
    key: Seq<char>,
    from: int,
) -> Option<int>
    decreases definitions.len() - from,
{
    if from < 0 || from >= definitions.len() {
        None
    } else if definitions[from].key@ == key {
        Some(from)
    } else {
        definition_place(definitions, key, from + 1)
    }
}

/// A workspace as it is configured. Its number is its name unless another
/// one is given.
pub open spec fn configured_workspace(config: WorkspacesConfig, id: u64) -> WorkspaceModel {
    let number = text::decimal(id as nat);
    let (name, output) = match definition_place(config.definitions@, number, 0) {
        Some(i) => (
            match config.definitions@[i].definition.name {
                Some(name) => name@,
                None => number,
            },
            text::option(config.definitions@[i].definition.output),
        ),
        None => (number, None),
    };
    WorkspaceModel { id, name, output, focused_window: None, focus_history: Seq::empty() }
}

fn find_definition(definitions: &Vec<KeyedWorkspace>, key: &str) -> (place: Option<usize>)
    ensures
        match place {
            Some(i) => i < definitions@.len() && definition_place(definitions@, key@, 0) == Some(
                i as int,
            ),
            None => definition_place(definitions@, key@, 0) is None,
        },
{
    let mut i: usize = 0;
    while i < definitions.len()
        invariant
            i <= definitions@.len(),
            definition_place(definitions@, key@, 0) == definition_place(
                definitions@,
                key@,
                i as int,
            ),
        decreases definitions@.len() - i,
    {
        if text::text_eq(definitions[i].key.as_str(), key) {
            return Some(i);
        }
        i = i + 1;
    }
    None
}

/// The workspaces as they are configured, numbered from 1.
pub fn configured_workspaces(config: &WorkspacesConfig) -> (workspaces: Vec<Workspace>)
    requires
        config.count < usize::MAX,
        config.count < u64::MAX,
    ensures
        workspaces@.len() == config.count,
        forall|i: int|
            0 <= i < workspaces@.len() ==> (#[trigger] workspaces@[i])@ == configured_workspace(
                *config,
                (i + 1) as u64,
            ),
{
    let mut workspaces: Vec<Workspace> = Vec::new();
    let mut id: u64 = 1;
    while id <= config.count
        invariant
            1 <= id <= config.count + 1,
            config.count < u64::MAX,
            workspaces@.len() == id - 1,
            forall|i: int|
                0 <= i < workspaces@.len() ==> (#[trigger] workspaces@[i])@
                    == configured_workspace(*config, (i + 1) as u64),
        decreases config.count + 1 - id,
    {
        let number = text::u64_text(id);
        let (name, output) = match find_definition(&config.definitions, number.as_str()) {
            Some(i) => {
                let definition = &config.definitions[i].definition;
                let name = match &definition.name {
                    Some(name) => name.clone(),
                    None => number,
                };
                (name, text::copy_of(&definition.output))
            },
            None => (number, None),
        };
        let workspace = Workspace {
            id,
            name,
            output,
            focused_window: None,
            focus_history: Vec::new(),
        };
        assert(workspace@ =~= configured_workspace(*config, id));
        workspaces.push(workspace);
        id = id + 1;
    }
    workspaces
}

/// What a window is called, and what rules say of it in words.
#[derive(Debug)]
pub struct WindowText {
    pub id: WindowId,
    pub title: String,
    pub app_id: Option<String>,
    pub workspace: Option<String>,
    pub output: Option<String>,
    pub position: Option<[i32; 2]>,
}

/// What a window is called, as contracts see it.
pub struct TextModel {
    pub id: WindowId,
    pub title: Seq<char>,
    pub app_id: Option<Seq<char>>,
    pub workspace: Option<Seq<char>>,
    pub output: Option<Seq<char>>,
    pub position: Option<[i32; 2]>,
}

impl View for WindowText {
    type V = TextModel;

    open spec fn view(&self) -> TextModel {
        TextModel {
            id: self.id,
            title: self.title@,
            app_id: text::option(self.app_id),
            workspace: text::option(self.workspace),
            output: text::option(self.output),
            position: self.position,
        }
    }
}

/// The texts as contracts see them.
pub open spec fn text_models(texts: Seq<WindowText>) -> Seq<TextModel> {
    texts.map_values(|t: WindowText| t@)
}

/// The first place of a window from `from` on.
pub open spec fn text_place(texts: Seq<TextModel>, id: WindowId, from: int) -> Option<int>
    decreases texts.len() - from,
{
    if from < 0 || from >= texts.len() {
        None
    } else if texts[from].id == id {
        Some(from)
    } else {
        text_place(texts, id, from + 1)
    }
}

/// A window that nothing is known of.
pub open spec fn untitled(id: WindowId) -> TextModel {
    TextModel {
        id,
        title: Seq::empty(),
        app_id: None,
        workspace: None,
        output: None,
        position: None,
    }
}

/// What a window is called.
pub open spec fn text_of(texts: Seq<TextModel>, id: WindowId) -> TextModel {
    match text_place(texts, id, 0) {
        Some(i) => texts[i],
        None => untitled(id),
    }
}

/// The texts with those of a window replaced.
pub open spec fn with_text(texts: Seq<TextModel>, text: TextModel) -> Seq<TextModel> {
    match text_place(texts, text.id, 0) {
        Some(i) => texts.update(i, text),
        None => texts.push(text),
    }
}

/// The texts without those of a window.
pub open spec fn without_text(texts: Seq<TextModel>, id: WindowId) -> Seq<TextModel> {
    match text_place(texts, id, 0) {
        Some(i) => texts.remove(i),
        None => texts,
    }
}

fn find_text(texts: &Vec<WindowText>, id: WindowId) -> (place: Option<usize>)
    ensures
        match place {
            Some(i) => i < texts@.len() && text_place(text_models(texts@), id, 0) == Some(
                i as int,
            ) && texts@[i as int].id == id,
            None => text_place(text_models(texts@), id, 0) is None,
        },
{
    let mut i: usize = 0;
    while i < texts.len()
        invariant
            i <= texts@.len(),
            text_place(text_models(texts@), id, 0) == text_place(
                text_models(texts@),
                id,
                i as int,
            ),
        decreases texts@.len() - i,
    {
        assert(text_models(texts@)[i as int] == texts@[i as int]@);
        if texts[i].id == id {
            return Some(i);
        }
        i = i + 1;
    }
    None
}

fn put_text(texts: &mut Vec<WindowText>, entry: WindowText)
    ensures
        text_models(final(texts)@) == with_text(text_models(old(texts)@), entry@),
{
    let ghost before = text_models(texts@);
    let ghost model = entry@;
    match find_text(texts, entry.id) {
        Some(i) => {
            texts.set(i, entry);
            assert(text_models(texts@) =~= before.update(i as int, model));
        },
        None => {
            texts.push(entry);
            assert(text_models(texts@) =~= before.push(model));
        },
    }
}

/// A variable of the environment of child processes.
#[derive(Debug)]
pub struct EnvVar {
    pub key: String,
    pub value: String,
}

/// The variables as contracts see them.
pub open spec fn env_models(vars: Seq<EnvVar>) -> Seq<(Seq<char>, Seq<char>)> {
    vars.map_values(|v: EnvVar| (v.key@, v.value@))
}

/// A variable is the one that names the display, or is not.
pub open spec fn names_display(wanted: bool) -> spec_fn((Seq<char>, Seq<char>)) -> bool {
    |var: (Seq<char>, Seq<char>)| (var.0 == "WAYLAND_DISPLAY"@) == wanted
}

/// Everything the compositor keeps.
#[derive(Debug)]
pub struct BlairState {
    pub desktop: Desktop,
    pub config: CompositorConfig,
    pub theme: DecorationTheme,
    pub rules: RuleSet,
    pub shortcuts: ShortcutRegistry,
    pub static_bindings: Vec<StaticBinding>,
    pub texts: Vec<WindowText>,
    pub child_env: Vec<EnvVar>,
    pub input_config_changed: bool,
    pub exit_requested: bool,
    /// What clients have to be told, besides what the desktop reports.
    pub events: Vec<CompositorEvent>,
}

/// Everything the compositor keeps, as contracts see it.
#[verifier::ext_equal]
pub struct StateModel {
    pub desktop: DesktopModel,
    pub config: CompositorConfig,
    pub theme: DecorationTheme,
    pub rules: RuleSetModel,
    pub shortcuts: RegistryModel,
    pub bound: Seq<StaticModel>,
    pub texts: Seq<TextModel>,
    pub child_env: Seq<(Seq<char>, Seq<char>)>,
    pub input_config_changed: bool,
    pub exit_requested: bool,
    pub events: Seq<EventModel>,
}

/// The events as contracts see them.
pub open spec fn event_models(events: Seq<CompositorEvent>) -> Seq<EventModel> {
    events.map_values(|e: CompositorEvent| e@)
}

impl View for BlairState {
    type V = StateModel;

    open spec fn view(&self) -> StateModel {
        StateModel {
            desktop: self.desktop@,
            config: self.config,
            theme: self.theme,
            rules: self.rules@,
            shortcuts: self.shortcuts@,
            bound: bindings::static_models(self.static_bindings@),
            texts: text_models(self.texts@),
            child_env: env_models(self.child_env@),
            input_config_changed: self.input_config_changed,
            exit_requested: self.exit_requested,
            events: event_models(self.events@),
        }
    }
}

impl StateModel {
    pub open spec fn wf(self) -> bool {
        &&& self.desktop.wf()
        &&& self.rules.wf()
        &&& self.shortcuts.wf()
        &&& self.config.fault() is None
        &&& 0 <= self.theme.titlebar_height <= 96
        &&& 0 <= self.theme.border_width <= 16
    }

    /// The settings and the theme in force are the configured ones.
    pub open spec fn in_force(self) -> bool {
        &&& self.desktop.settings == settings_of(self.config, self.theme)
        &&& self.config.decorations.themed(self.theme)
    }

    pub open spec fn publish(self, event: EventModel) -> StateModel {
        StateModel { events: self.events.push(event), ..self }
    }
}

/// A desktop with the configured workspaces and nothing on it.
pub open spec fn empty_desktop(config: CompositorConfig, theme: DecorationTheme) -> DesktopModel {
    DesktopModel {
        settings: settings_of(config, theme),
        windows: Seq::empty(),
        stack: Seq::empty(),
        workspaces: Seq::new(
            config.workspaces.count as nat,
            |i: int| configured_workspace(config.workspaces, (i + 1) as u64),
        ),
        outputs: Seq::empty(),
        output_names: Seq::empty(),
        focused_output: None,
        layers: Seq::empty(),
        focused_window: None,
        keyboard: FocusTarget::Nobody,
        pointer: None,
        next_window_id: 1,
        next_workspace_id: (config.workspaces.count + 1) as u64,
        redraw: true,
        pointer_dirty: false,
        effects: Seq::empty(),
    }
}

/// No shortcut is bound and no key is held.
pub open spec fn empty_registry() -> RegistryModel {
    RegistryModel { bindings: Seq::empty(), pressed: Set::empty(), active: Set::empty() }
}

impl BlairState {
    /// Begins with a configuration.
    pub fn new(config: CompositorConfig) -> (r: Self)
        requires
            config.fault() is None,
        ensures
            r@.wf(),
            r@.in_force(),
            r@.desktop == empty_desktop(config, r@.theme),
            r@.config == config,
            r@.rules == (RuleSetModel {
                configured: rules::compilable(config.rules@),
                temporary: Seq::empty(),
            }),
            (r@.shortcuts, r@.bound) == bindings::rebound(
                empty_registry(),
                config.bindings@,
                config.bindings@.len(),
            ),
            r@.texts.len() == 0,
            r@.child_env.len() == 0,
            !r@.input_config_changed,
            !r@.exit_requested,
            r@.events.len() == 0,
    {
        let workspaces = configured_workspaces(&config.workspaces);
        let theme = config.decorations.to_theme();
        let settings = window_management_settings(&config, &theme);
        proof {
            assert forall|i: int, j: int| 0 <= i < j < workspaces@.len() implies (
            #[trigger] workspaces@[i]).id != (#[trigger] workspaces@[j]).id by {
                assert(workspaces@[i]@.id == (i + 1) as u64);
                assert(workspaces@[j]@.id == (j + 1) as u64);
            }
            assert forall|i: int| 0 <= i < workspaces@.len() implies {
                &&& (#[trigger] workspaces@[i]).id < config.workspaces.count + 1
                &&& workspaces@[i].focused_window is None
                &&& workspaces@[i].focus_history@.len() == 0
            } by {
                let model = configured_workspace(config.workspaces, (i + 1) as u64);
                assert(workspaces@[i]@ == model);
            }
        }
        let ghost listed = workspaces@;
        let desktop = Desktop::new(settings, workspaces, config.workspaces.count + 1);
        proof {
            assert(desktop::workspace_models(listed) =~= empty_desktop(config, theme).workspaces);
        }
        let mut rule_set = RuleSet::default();
        rule_set.set_configured(&config.rules);
        let mut shortcuts = ShortcutRegistry::default();
        let static_bindings = bindings::bind_configured(&mut shortcuts, &config.bindings);
        let r = BlairState {
            desktop,
            config,
            theme,
            rules: rule_set,
            shortcuts,
            static_bindings,
            texts: Vec::new(),
            child_env: Vec::new(),
            input_config_changed: false,
            exit_requested: false,
            events: Vec::new(),
        };
        proof {
            assert(r@.rules.temporary =~= Seq::empty());
        }
        r
    }
}


/// What the program has to do after another configuration was applied.
#[derive(Debug, Clone, Copy, PartialEq, Eq, Structural)]
pub struct ConfigChange {
    /// The keymap and the repeat rate changed.
    pub keyboard: bool,
    /// The cursor theme or size changed.
    pub cursor: bool,
}

/// A configuration without what takes a restart: the backend, the transport,
/// the outputs and the workspaces stay as they are.
pub open spec fn applicable(current: CompositorConfig, next: CompositorConfig) -> CompositorConfig {
    CompositorConfig {
        general: config::GeneralConfig { backend: current.general.backend, ..next.general },
        integrations: current.integrations,
        outputs: current.outputs,
        workspaces: current.workspaces,
        ..next
    }
}

/// The configuration decorates windows in another way.
pub open spec fn redecorates(current: CompositorConfig, next: CompositorConfig) -> bool {
    current.decorations.mode != next.decorations.mode || current.window.server_side_decorations
        != next.window.server_side_decorations
}

/// The configuration arranges windows in another way.
pub open spec fn rearranges(current: CompositorConfig, next: CompositorConfig) -> bool {
    !changes::same_window(current.window, next.window) || !changes::same_decorations(
        current.decorations,
        next.decorations,
    )
}

/// A configuration was applied: lists and themes that stay the same are left
/// alone, everything else follows the new settings.
pub open spec fn applied(
    before: StateModel,
    next: CompositorConfig,
    after: StateModel,
    change: ConfigChange,
) -> bool {
    &&& after.config == applicable(before.config, next)
    &&& after.desktop == before.desktop.reconfigured(
        settings_of(after.config, after.theme),
        redecorates(before.config, after.config),
        rearranges(before.config, after.config),
    )
    &&& if changes::same_decorations(before.config.decorations, next.decorations) {
        after.theme == before.theme
    } else {
        after.config.decorations.themed(after.theme)
    }
    &&& after.rules == (if changes::same_rules(before.config.rules@, next.rules@) {
        before.rules
    } else {
        RuleSetModel {
            configured: rules::compilable(next.rules@),
            ..before.rules
        }
    })
    &&& (after.shortcuts, after.bound) == (if changes::same_bindings(
        before.config.bindings@,
        next.bindings@,
    ) {
        (before.shortcuts, before.bound)
    } else {
        bindings::rebound(before.shortcuts, next.bindings@, next.bindings@.len())
    })
    &&& after.texts == before.texts
    &&& after.child_env == before.child_env
    &&& after.exit_requested == before.exit_requested
    &&& after.input_config_changed == (before.input_config_changed || !changes::same_input(
        before.config.input,
        next.input,
    ))
    &&& after.events == before.events.push(EventModel::ConfigurationChanged)
    &&& change == (ConfigChange {
        keyboard: !changes::same_keyboard(before.config.input.keyboard, next.input.keyboard),
        cursor: !changes::same_cursor(before.config.cursor, next.cursor),
    })
}

impl BlairState {
    fn publish(&mut self, event: CompositorEvent)
        ensures
            final(self)@ == old(self)@.publish(event@),
    {
        let ghost before = event_models(self.events@);
        let ghost model = event@;
        self.events.push(event);
        assert(event_models(self.events@) =~= before.push(model));
    }

    /// Hands out what clients have to be told.
    pub fn take_events(&mut self) -> (events: Vec<CompositorEvent>)
        ensures
            event_models(events@) == old(self)@.events,
            final(self)@ == (StateModel { events: Seq::empty(), ..old(self)@ }),
    {
        let mut events: Vec<CompositorEvent> = Vec::new();
        std::mem::swap(&mut events, &mut self.events);
        assert(event_models(self.events@) =~= Seq::<EventModel>::empty());
        events
    }

    /// Binds the configured shortcuts in place of those before.
    pub fn replace_static_bindings(&mut self)
        requires
            old(self)@.wf(),
        ensures
            ({
                let (shortcuts, bound) = bindings::rebound(
                    old(self)@.shortcuts,
                    old(self)@.config.bindings@,
                    old(self)@.config.bindings@.len(),
                );
                final(self)@ == (StateModel { shortcuts, bound, ..old(self)@ })
            }),
            final(self)@.wf(),
    {
        self.static_bindings =
        bindings::bind_configured(&mut self.shortcuts, &self.config.bindings);
    }

    /// Does what a shortcut asks for. A shortcut of a client is reported to
    /// that client, a configured one acts on the desktop. Returns a command
    /// that has to be run.
    pub fn activate_shortcut(&mut self, shortcut: ActivatedShortcut, now: u64) -> (command: Option<
        String,
    >)
        requires
            old(self)@.wf(),
            old(self)@.desktop.settings.dynamic_workspaces ==> match bindings::static_action(
                old(self)@.bound,
                shortcut.id@,
                0,
            ) {
                Some(ActionModel::Workspace(id)) => id < u64::MAX,
                Some(ActionModel::MoveToWorkspace(id)) => id < u64::MAX,
                _ => true,
            },
        ensures
            (final(self)@, text::option(command)) == old(self)@.activated(
                shortcut.client@,
                shortcut.id@,
                now,
            ),
            final(self)@.wf(),
    {
        if !text::text_eq(shortcut.client.as_str(), bindings::CONFIG_BINDING_OWNER) {
            self.publish(
                CompositorEvent::ShortcutActivated {
                    client: shortcut.client,
                    shortcut: shortcut.id,
                },
            );
            return None;
        }
        match bindings::find_action(&self.static_bindings, shortcut.id.as_str()) {
            None => None,
            Some(StaticBindingAction::Close) => {
                if let Some(id) = self.desktop.focused_window() {
                    self.desktop.close_window_by_id(id);
                }
                None
            },
            Some(StaticBindingAction::Exec(command)) => Some(command.clone()),
            Some(StaticBindingAction::Workspace(id)) => {
                let id: u64 = *id;
                self.desktop.ensure_workspace(id);
                self.desktop.switch_workspace(id, now);
                None
            },
            Some(StaticBindingAction::MoveToWorkspace(id)) => {
                let id: u64 = *id;
                if let Some(window) = self.desktop.focused_window() {
                    self.desktop.ensure_workspace(id);
                    self.desktop.move_window_to_workspace(window, id);
                }
                None
            },
        }
    }

    /// Applies a checked configuration as far as it can change while the
    /// compositor runs.
    #[verifier::rlimit(40)]
    pub fn apply_config(&mut self, next: CompositorConfig) -> (change: ConfigChange)
        requires
            old(self)@.wf(),
            next.fault() is None,
        ensures
            final(self)@.wf(),
            old(self)@.in_force() ==> final(self)@.in_force(),
            applied(old(self)@, next, final(self)@, change),
    {
        let previous = self.install(next);
        self.apply_lists(&previous);
        let keyboard = !changes::keyboards_equal(
            &previous.input.keyboard,
            &self.config.input.keyboard,
        );
        if !changes::input_equal(&previous.input, &self.config.input) {
            self.input_config_changed = true;
        }
        let cursor = !changes::cursors_equal(&previous.cursor, &self.config.cursor);
        self.apply_appearance(&previous);
        self.publish(CompositorEvent::ConfigurationChanged);
        ConfigChange { keyboard, cursor }
    }

    /// Takes over a configuration that was read again. One that breaks a rule
    /// is refused and leaves everything as it was, and so does one that says
    /// what is in force already.
    pub fn reload(&mut self, next: CompositorConfig) -> (r: Result<Option<ConfigChange>, String>)
        requires
            old(self)@.wf(),
        ensures
            final(self)@.wf(),
            old(self)@.in_force() ==> final(self)@.in_force(),
            match next.fault() {
                Some(complaint) => r is Err && r->Err_0@ == complaint && final(self)@ == old(self)@,
                None => if changes::same_config(next, old(self)@.config) {
                    r == Ok::<Option<ConfigChange>, String>(None) && final(self)@ == old(self)@
                } else {
                    r is Ok && r->Ok_0 is Some && applied(
                        old(self)@,
                        next,
                        final(self)@,
                        r->Ok_0->0,
                    )
                },
            },
    {
        match config::validate(&next) {
            Err(complaint) => Err(complaint),
            Ok(_) => if changes::configs_equal(&next, &self.config) {
                Ok(None)
            } else {
                Ok(Some(self.apply_config(next)))
            },
        }
    }

    /// Takes over what can be applied of a configuration and returns the rest
    /// of the one before.
    fn install(&mut self, next: CompositorConfig) -> (previous: CompositorConfig)
        requires
            old(self)@.wf(),
            next.fault() is None,
        ensures
            final(self)@ == (StateModel {
                config: applicable(old(self)@.config, next),
                ..old(self)@
            }),
            final(self)@.wf(),
            previous.bindings == old(self)@.config.bindings,
            previous.rules == old(self)@.config.rules,
            previous.input == old(self)@.config.input,
            previous.cursor == old(self)@.config.cursor,
            previous.decorations == old(self)@.config.decorations,
            previous.window == old(self)@.config.window,
    {
        let ghost start = self@;
        let mut next = next;
        let ghost asked = next;
        std::mem::swap(&mut next.general.backend, &mut self.config.general.backend);
        next.integrations = self.config.integrations;
        std::mem::swap(&mut next.outputs, &mut self.config.outputs);
        std::mem::swap(&mut next.workspaces, &mut self.config.workspaces);
        std::mem::swap(&mut next, &mut self.config);
        assert(self.config == applicable(start.config, asked));
        proof {
            lemma_applicable(start.config, asked);
        }
        next
    }

    /// Binds and compiles what is listed otherwise than before.
    fn apply_lists(&mut self, previous: &CompositorConfig)
        requires
            old(self)@.wf(),
        ensures
            final(self)@.wf(),
            ({
                let (shortcuts, bound) = if changes::same_bindings(
                    previous.bindings@,
                    old(self)@.config.bindings@,
                ) {
                    (old(self)@.shortcuts, old(self)@.bound)
                } else {
                    bindings::rebound(
                        old(self)@.shortcuts,
                        old(self)@.config.bindings@,
                        old(self)@.config.bindings@.len(),
                    )
                };
                let rules = if changes::same_rules(previous.rules@, old(self)@.config.rules@) {
                    old(self)@.rules
                } else {
                    RuleSetModel {
                        configured: rules::compilable(old(self)@.config.rules@),
                        ..old(self)@.rules
                    }
                };
                final(self)@ == (StateModel { shortcuts, bound, rules, ..old(self)@ })
            }),
    {
        if !changes::bindings_equal(&previous.bindings, &self.config.bindings) {
            self.replace_static_bindings();
        }
        if !changes::rules_equal(&previous.rules, &self.config.rules) {
            self.rules.set_configured(&self.config.rules);
        }
    }

    /// Lets windows look and lie as they are configured now.
    fn apply_appearance(&mut self, previous: &CompositorConfig)
        requires
            old(self)@.wf(),
        ensures
            final(self)@.wf(),
            final(self)@.desktop.settings == settings_of(old(self)@.config, final(self)@.theme),
            final(self)@ == (StateModel {
                desktop: old(self)@.desktop.reconfigured(
                    settings_of(old(self)@.config, final(self)@.theme),
                    redecorates(*previous, old(self)@.config),
                    rearranges(*previous, old(self)@.config),
                ),
                theme: final(self)@.theme,
                ..old(self)@
            }),
            if changes::same_decorations(previous.decorations, old(self)@.config.decorations) {
                final(self)@.theme == old(self)@.theme
            } else {
                old(self)@.config.decorations.themed(final(self)@.theme)
            },
    {
        let decorations = !changes::decorations_equal(
            &previous.decorations,
            &self.config.decorations,
        );
        if decorations {
            self.theme = self.config.decorations.to_theme();
        }
        let settings = window_management_settings(&self.config, &self.theme);
        let redecorate = previous.decorations.mode != self.config.decorations.mode
            || previous.window.server_side_decorations
            != self.config.window.server_side_decorations;
        let rearrange = decorations || !changes::windows_equal(
            &previous.window,
            &self.config.window,
        );
        self.desktop.reconfigure(settings, redecorate, rearrange);
    }
}

/// What can be applied of a checked configuration is a checked one.
proof fn lemma_applicable(current: CompositorConfig, next: CompositorConfig)
    requires
        current.fault() is None,
        next.fault() is None,
    ensures
        applicable(current, next).fault() is None,
{
}

impl StateModel {
    /// The state once a shortcut was activated, and the command to run.
    pub open spec fn activated(self, client: Seq<char>, id: Seq<char>, now: u64) -> (
        StateModel,
        Option<Seq<char>>,
    ) {
        if client != bindings::CONFIG_BINDING_OWNER@ {
            (self.publish(EventModel::ShortcutActivated { client, shortcut: id }), None)
        } else {
            match bindings::static_action(self.bound, id, 0) {
                None => (self, None),
                Some(ActionModel::Close) => (
                    StateModel {
                        desktop: match self.desktop.focused_window {
                            Some(window) if self.desktop.has(window) && self.desktop.window(
                                window,
                            ).mapped => self.desktop.emit(Effect::SendClose { id: window }),
                            _ => self.desktop,
                        },
                        ..self
                    },
                    None,
                ),
                Some(ActionModel::Exec(command)) => (self, Some(command)),
                Some(ActionModel::Workspace(workspace)) => (
                    StateModel {
                        desktop: self.desktop.with_workspaces_up_to(
                            workspace,
                        ).switch_workspace(workspace, now).0,
                        ..self
                    },
                    None,
                ),
                Some(ActionModel::MoveToWorkspace(workspace)) => (
                    StateModel {
                        desktop: match self.desktop.focused_window {
                            Some(window) => self.desktop.with_workspaces_up_to(
                                workspace,
                            ).move_to_workspace(window, workspace).0,
                            None => self.desktop,
                        },
                        ..self
                    },
                    None,
                ),
            }
        }
    }
}


/// What the rules say, as window management reads it.
pub open spec fn outcome_of(applied: AppliedModel) -> RuleOutcome {
    RuleOutcome {
        floating: applied.floating,
        size: match applied.size {
            Some(size) => Some(Size { w: size@[0], h: size@[1] }),
            None => None,
        },
        opacity: applied.opacity,
        always_on_top: applied.always_on_top,
        decoration: applied.decoration,
    }
}

/// What a window is called, with what the rules say of it in words.
pub open spec fn described(
    id: WindowId,
    title: Seq<char>,
    app_id: Option<Seq<char>>,
    applied: AppliedModel,
) -> TextModel {
    TextModel {
        id,
        title,
        app_id,
        workspace: applied.workspace,
        output: applied.output,
        position: applied.position,
    }
}

impl StateModel {
    /// A new window is answered with what the rules say about it.
    pub open spec fn configured(
        self,
        id: WindowId,
        title: Seq<char>,
        app_id: Option<Seq<char>>,
        applied: AppliedModel,
        fixed_size: bool,
    ) -> StateModel {
        StateModel {
            desktop: self.desktop.configure_new(id, outcome_of(applied), fixed_size),
            texts: with_text(self.texts, described(id, title, app_id, applied)),
            ..self
        }
    }

    /// The first output with a name.
    pub open spec fn output_named(self, name: Seq<char>) -> Option<int> {
        model::output_named(self.desktop.output_names, name, 0)
    }

    /// The first workspace from `from` on with a name.
    pub open spec fn workspace_named(self, name: Seq<char>, from: int) -> Option<u64>
        decreases self.desktop.workspaces.len() - from,
    {
        if from < 0 || from >= self.desktop.workspaces.len() {
            None
        } else if self.desktop.workspaces[from].name == name {
            Some(self.desktop.workspaces[from].id)
        } else {
            self.workspace_named(name, from + 1)
        }
    }

    /// The workspace that a rule selects by number or by name.
    pub open spec fn workspace_selected(self, selector: Seq<char>) -> Option<u64> {
        match text::unsigned(selector, u64::MAX as nat) {
            Some(n) if self.desktop.workspace_place(n as u64) is Some => Some(n as u64),
            _ => self.workspace_named(selector, 0),
        }
    }

    /// The workspace for a new window: the one its rules select, or the
    /// focused one.
    pub open spec fn home_of(self, text: TextModel) -> u64 {
        match text.workspace {
            Some(selector) => match self.workspace_selected(selector) {
                Some(workspace) => workspace,
                None => self.desktop.focused_workspace(),
            },
            None => self.desktop.focused_workspace(),
        }
    }

    /// A window goes onto the desktop.
    pub open spec fn mapped(
        self,
        id: WindowId,
        title: Seq<char>,
        app_id: Option<Seq<char>>,
        now: u64,
    ) -> StateModel {
        let text = text_of(self.texts, id);
        StateModel {
            desktop: self.desktop.map_window(
                id,
                self.home_of(text),
                match text.output {
                    Some(name) => self.output_named(name),
                    None => None,
                },
                match text.position {
                    Some(position) => Some(Location { x: position@[0], y: position@[1] }),
                    None => None,
                },
                now,
            ),
            texts: with_text(self.texts, TextModel { id, title, app_id, ..text }),
            ..self
        }
    }

    /// A window for clients.
    pub open spec fn info(self, window: ManagedWindow) -> InfoModel {
        let text = text_of(self.texts, window.id);
        InfoModel {
            id: window.id,
            title: text.title,
            app_id: text.app_id,
            geometry: match window.minimized {
                Some(location) => Rect {
                    x: location.x,
                    y: location.y,
                    width: window.size.w,
                    height: window.size.h,
                },
                None => match window.geometry() {
                    Some(geometry) => geometry,
                    None => geometry::empty_rect(),
                },
            },
            focused: self.desktop.focused_window == Some(window.id),
            minimized: window.minimized is Some,
            maximized: window.maximized,
        }
    }

    /// The mapped windows of the focused workspace.
    pub open spec fn present(self) -> Seq<ManagedWindow> {
        self.desktop.windows.filter(
            |w: ManagedWindow| w.mapped && w.workspace == self.desktop.focused_workspace(),
        )
    }
}

/// What the program tells another list of windows about a window.
#[derive(Debug, Clone, Copy, PartialEq, Eq, Structural)]
pub struct ForeignUpdate {
    pub title: bool,
    pub app_id: bool,
}

impl BlairState {
    fn outcome(applied: &AppliedWindowRule) -> (r: RuleOutcome)
        ensures
            r == outcome_of(applied@),
    {
        RuleOutcome {
            floating: applied.floating,
            size: match applied.size {
                Some(size) => Some(Size { w: size[0], h: size[1] }),
                None => None,
            },
            opacity: applied.opacity,
            always_on_top: applied.always_on_top,
            decoration: applied.decoration,
        }
    }

    /// Adds a window that is not on the desktop yet.
    pub fn new_toplevel(&mut self) -> (id: WindowId)
        requires
            old(self)@.wf(),
            old(self)@.desktop.has_room(),
        ensures
            ({
                let (desktop, expected) = old(self)@.desktop.new_toplevel();
                &&& id == expected
                &&& final(self)@ == (StateModel {
                    desktop,
                    texts: with_text(old(self)@.texts, untitled(id)),
                    ..old(self)@
                })
            }),
            final(self)@.wf(),
    {
        let id = self.desktop.new_toplevel();
        let entry = WindowText {
            id,
            title: String::new(),
            app_id: None,
            workspace: None,
            output: None,
            position: None,
        };
        assert(entry@ == untitled(id)) by {
            assert(entry.title@ =~= Seq::<char>::empty());
        }
        put_text(&mut self.texts, entry);
        id
    }

    /// Answers the first commit of a window, given what the rules say.
    pub fn configure_with(
        &mut self,
        id: WindowId,
        title: &str,
        app_id: Option<&str>,
        applied: AppliedWindowRule,
        fixed_size: bool,
    )
        requires
            old(self)@.wf(),
            old(self)@.desktop.has(id),
        ensures
            final(self)@ == old(self)@.configured(
                id,
                title@,
                rules::borrowed(app_id),
                applied@,
                fixed_size,
            ),
            final(self)@.wf(),
    {
        let outcome = Self::outcome(&applied);
        let entry = WindowText {
            id,
            title: title.to_owned(),
            app_id: owned(app_id),
            workspace: applied.workspace,
            output: applied.output,
            position: applied.position,
        };
        put_text(&mut self.texts, entry);
        self.desktop.configure_new_window(id, outcome, fixed_size);
    }

    /// Answers the first commit of a window with what the rules say about it.
    pub fn configure_new_window(
        &mut self,
        id: WindowId,
        title: &str,
        app_id: Option<&str>,
        fixed_size: bool,
    )
        requires
            old(self)@.wf(),
            old(self)@.desktop.has(id),
        ensures
            final(self)@ == old(self)@.configured(
                id,
                title@,
                rules::borrowed(app_id),
                old(self)@.rules.resolve(title@, rules::borrowed(app_id)),
                fixed_size,
            ),
            final(self)@.wf(),
    {
        let applied = self.rules.resolve(title, app_id);
        self.configure_with(id, title, app_id, applied, fixed_size);
    }

    fn find_output(&self, name: &str) -> (place: Option<usize>)
        requires
            self@.wf(),
        ensures
            match place {
                Some(i) => i < self@.desktop.outputs.len() && self@.output_named(name@) == Some(
                    i as int,
                ),
                None => self@.output_named(name@) is None,
            },
    {
        self.desktop.output_by_name(name)
    }

    fn find_home(&self, selector: &Option<String>) -> (workspace: u64)
        requires
            self@.wf(),
        ensures
            workspace == (match *selector {
                Some(selector) => match self@.workspace_selected(selector@) {
                    Some(workspace) => workspace,
                    None => self@.desktop.focused_workspace(),
                },
                None => self@.desktop.focused_workspace(),
            }),
    {
        match selector {
            Some(selector) => {
                let selected = self.desktop.workspace_id_by_selector(selector.as_str());
                proof {
                    self@.lemma_workspace_named(selector@, 0);
                }
                match selected {
                    Some(workspace) => workspace,
                    None => self.desktop.focused_workspace_id(),
                }
            },
            None => self.desktop.focused_workspace_id(),
        }
    }

    /// Notes what a window is called.
    fn rename(&mut self, id: WindowId, title: &str, app_id: Option<&str>)
        ensures
            final(self)@ == (StateModel {
                texts: with_text(
                    old(self)@.texts,
                    TextModel {
                        id,
                        title: title@,
                        app_id: rules::borrowed(app_id),
                        ..text_of(old(self)@.texts, id)
                    },
                ),
                ..old(self)@
            }),
    {
        let (workspace, output, position) = match find_text(&self.texts, id) {
            Some(i) => {
                assert(self@.texts[i as int] == self.texts@[i as int]@);
                let text = &self.texts[i];
                (text::copy_of(&text.workspace), text::copy_of(&text.output), text.position)
            },
            None => (None, None, None),
        };
        let entry = WindowText {
            id,
            title: title.to_owned(),
            app_id: owned(app_id),
            workspace,
            output,
            position,
        };
        put_text(&mut self.texts, entry);
    }

    /// Where the rules want a window: its workspace, its output and its
    /// place.
    fn wishes(&self, id: WindowId) -> (r: (u64, Option<usize>, Option<Location>))
        requires
            self@.wf(),
        ensures
            r.0 == self@.home_of(text_of(self@.texts, id)),
            match r.1 {
                Some(i) => i < self@.desktop.outputs.len() && text_of(
                    self@.texts,
                    id,
                ).output is Some && self@.output_named(
                    text_of(self@.texts, id).output->0,
                ) == Some(i as int),
                None => text_of(self@.texts, id).output is Some ==> self@.output_named(
                    text_of(self@.texts, id).output->0,
                ) is None,
            },
            r.2 == (match text_of(self@.texts, id).position {
                Some(position) => Some(Location { x: position@[0], y: position@[1] }),
                None => None,
            }),
    {
        match find_text(&self.texts, id) {
            Some(i) => {
                assert(self@.texts[i as int] == self.texts@[i as int]@);
                let text = &self.texts[i];
                let named = match &text.output {
                    Some(name) => self.find_output(name.as_str()),
                    None => None,
                };
                let position = match text.position {
                    Some(position) => Some(Location { x: position[0], y: position[1] }),
                    None => None,
                };
                (self.find_home(&text.workspace), named, position)
            },
            None => (self.desktop.focused_workspace_id(), None, None),
        }
    }

    /// Puts a window on the desktop whose client has something to show.
    pub fn map_window(&mut self, id: WindowId, title: &str, app_id: Option<&str>, now: u64)
        requires
            old(self)@.wf(),
            old(self)@.desktop.has(id),
            !old(self)@.desktop.window(id).mapped,
            old(self)@.desktop.window(id).size.w >= 0,
            old(self)@.desktop.window(id).size.h >= 0,
        ensures
            final(self)@ == old(self)@.mapped(id, title@, rules::borrowed(app_id), now),
            final(self)@.wf(),
    {
        let (workspace, output, position) = self.wishes(id);
        self.rename(id, title, app_id);
        self.desktop.map_window(id, workspace, output, position, now);
    }

    /// Removes a window whose client is gone.
    pub fn toplevel_destroyed(&mut self, id: WindowId)
        requires
            old(self)@.wf(),
        ensures
            final(self)@ == (StateModel {
                desktop: old(self)@.desktop.destroy(id),
                texts: without_text(old(self)@.texts, id),
                ..old(self)@
            }),
            final(self)@.wf(),
            !final(self)@.desktop.has(id),
    {
        self.desktop.toplevel_destroyed(id);
        let ghost before = text_models(self.texts@);
        if let Some(i) = find_text(&self.texts, id) {
            self.texts.remove(i);
            assert(text_models(self.texts@) =~= before.remove(i as int));
        }
    }

    /// Takes note of what a window is called now. Returns what the window
    /// list of other programs has to be told; clients are told if the window
    /// is mapped.
    pub fn toplevel_metadata_changed(
        &mut self,
        id: WindowId,
        title: &str,
        app_id: Option<&str>,
    ) -> (update: ForeignUpdate)
        requires
            old(self)@.wf(),
        ensures
            final(self)@.wf(),
            !old(self)@.desktop.has(id) ==> !update.title && !update.app_id && final(self)@ == old(self)@,
            old(self)@.desktop.has(id) ==> ({
                let known = text_of(old(self)@.texts, id);
                let name = rules::borrowed(app_id);
                let mapped = old(self)@.desktop.window(id).mapped;
                let named = StateModel {
                    texts: with_text(
                        old(self)@.texts,
                        TextModel { id, title: title@, app_id: name, ..known },
                    ),
                    ..old(self)@
                };
                let titled = if mapped && known.title != title@ {
                    named.publish(EventModel::WindowTitleChanged { id, title: title@ })
                } else {
                    named
                };
                &&& update.title == (known.title != title@)
                &&& update.app_id == (known.app_id != name)
                &&& final(self)@ == (if mapped && known.app_id != name {
                    titled.publish(
                        EventModel::WindowAppIdChanged {
                            id,
                            name: match name {
                                Some(name) => name,
                                None => Seq::empty(),
                            },
                        },
                    )
                } else {
                    titled
                })
            }),
    {
        let window = match self.desktop.find(id) {
            Some(window) => window,
            None => {
                return ForeignUpdate { title: false, app_id: false };
            },
        };
        let ghost start = self@;
        let (title_changed, app_id_changed) = match find_text(&self.texts, id) {
            Some(i) => {
                assert(start.texts[i as int] == self.texts@[i as int]@);
                let text = &self.texts[i];
                (!text::text_eq(text.title.as_str(), title), !same_name(&text.app_id, app_id))
            },
            None => {
                proof {
                    reveal_strlit("");
                    assert(""@ =~= Seq::<char>::empty());
                }
                (!text::text_eq("", title), app_id.is_some())
            },
        };
        self.rename(id, title, app_id);
        if window.mapped {
            if title_changed {
                self.publish(CompositorEvent::WindowTitleChanged { id, title: title.to_owned() });
            }
            if app_id_changed {
                let name = match app_id {
                    Some(name) => name.to_owned(),
                    None => String::new(),
                };
                proof {
                    if app_id is None {
                        assert(name@ =~= Seq::<char>::empty());
                    }
                }
                self.publish(CompositorEvent::WindowAppIdChanged { id, name });
            }
        }
        ForeignUpdate { title: title_changed, app_id: app_id_changed }
    }

    /// A window for clients.
    pub fn window_info(&self, window: ManagedWindow) -> (r: WindowInfo)
        ensures
            r@ == self@.info(window),
    {
        let (title, app_id) = match find_text(&self.texts, window.id) {
            Some(i) => {
                assert(self@.texts[i as int] == self.texts@[i as int]@);
                (self.texts[i].title.clone(), text::copy_of(&self.texts[i].app_id))
            },
            None => {
                let title = String::new();
                assert(title@ =~= Seq::<char>::empty());
                (title, None)
            },
        };
        let geometry = match (window.minimized, window.place) {
            (Some(location), _) => Rect {
                x: location.x,
                y: location.y,
                width: window.size.w,
                height: window.size.h,
            },
            (None, Some(place)) => Rect {
                x: place.x,
                y: place.y,
                width: window.size.w,
                height: window.size.h,
            },
            (None, None) => Rect { x: 0, y: 0, width: 0, height: 0 },
        };
        WindowInfo {
            id: window.id,
            title,
            app_id,
            geometry,
            focused: self.desktop.focused_window() == Some(window.id),
            minimized: window.minimized.is_some(),
            maximized: window.maximized,
        }
    }

    /// The mapped windows of the focused workspace, in the order in which
    /// they were created.
    pub fn list_windows(&self) -> (list: Vec<WindowInfo>)
        requires
            self@.wf(),
        ensures
            list@.map_values(|i: WindowInfo| i@) == self@.present().map_values(
                |w: ManagedWindow| self@.info(w),
            ),
    {
        let windows = self.desktop.windows_on(self.desktop.focused_workspace_id());
        assert(windows@ == self@.present());
        let mut list: Vec<WindowInfo> = Vec::new();
        for i in 0..windows.len()
            invariant
                windows@ == self@.present(),
                list@.len() == i,
                forall|k: int| 0 <= k < i ==> (#[trigger] list@[k])@ == self@.info(windows@[k]),
        {
            list.push(self.window_info(windows[i]));
        }
        assert(list@.map_values(|i: WindowInfo| i@) =~= self@.present().map_values(
            |w: ManagedWindow| self@.info(w),
        ));
        list
    }
}

fn owned(value: Option<&str>) -> (r: Option<String>)
    ensures
        text::option(r) == rules::borrowed(value),
{
    match value {
        Some(text) => Some(text.to_owned()),
        None => None,
    }
}

fn same_name(a: &Option<String>, b: Option<&str>) -> (r: bool)
    ensures
        r == (text::option(*a) == rules::borrowed(b)),
{
    match (a, b) {
        (Some(x), Some(y)) => text::text_eq(x.as_str(), y),
        (None, None) => true,
        _ => false,
    }
}

impl StateModel {
    proof fn lemma_workspace_named(self, name: Seq<char>, from: int)
        requires
            0 <= from,
        ensures
            match self.workspace_named(name, from) {
                Some(id) => exists|i: int|
                    from <= i < self.desktop.workspaces.len() && (
                    #[trigger] self.desktop.workspaces[i]).name == name
                        && self.desktop.workspaces[i].id == id && forall|j: int|
                        from <= j < i ==> (#[trigger] self.desktop.workspaces[j]).name != name,
                None => forall|j: int|
                    from <= j < self.desktop.workspaces.len() ==> (
                    #[trigger] self.desktop.workspaces[j]).name != name,
            },
        decreases self.desktop.workspaces.len() - from,
    {
        if from < self.desktop.workspaces.len() && self.desktop.workspaces[from].name != name {
            self.lemma_workspace_named(name, from + 1);
        }
    }
}


/// The layout with a name, if there is one.
pub open spec fn layout_named(name: Seq<char>) -> Option<WindowLayout> {
    if name == "floating"@ {
        Some(WindowLayout::Floating)
    } else if name == "tiling"@ {
        Some(WindowLayout::Tiling)
    } else {
        None
    }
}

/// The name of a layout.
pub open spec fn layout_name(layout: WindowLayout) -> Seq<char> {
    match layout {
        WindowLayout::Floating => "floating"@,
        WindowLayout::Tiling => "tiling"@,
    }
}

/// A layout is found under its own name.
pub proof fn layout_names_read_back(layout: WindowLayout)
    ensures
        layout_named(layout_name(layout)) == Some(layout),
{
    reveal_strlit("floating");
    reveal_strlit("tiling");
    assert("floating"@.len() == 8 && "tiling"@.len() == 6);
}

/// The sizes of decorations and who draws them.
#[derive(Debug, Clone, Copy, PartialEq, Eq, Structural)]
pub struct WindowSettings {
    pub titlebar_height: i32,
    pub border_width: i32,
    pub corner_radius: i32,
    pub server_side_decorations: bool,
}

impl WindowSettings {
    /// A client may ask for these sizes.
    pub open spec fn acceptable(self) -> bool {
        &&& 20 <= self.titlebar_height <= 96
        &&& 0 <= self.border_width <= 16
        &&& 0 <= self.corner_radius <= 64
    }
}

/// A client may ask for this padding and radius.
pub open spec fn acceptable_layout(work_area_padding: i32, corner_radius: i32) -> bool {
    0 <= work_area_padding <= 128 && (corner_radius == 0 || corner_radius == 12 || corner_radius
        == 24)
}

/// The configuration with another layout.
pub open spec fn with_layout(
    config: CompositorConfig,
    layout: WindowLayout,
    work_area_padding: i32,
    corner_radius: i32,
) -> CompositorConfig {
    CompositorConfig {
        window: config::WindowConfig { layout, work_area_padding, ..config.window },
        decorations: config::DecorationConfig { corner_radius, ..config.decorations },
        ..config
    }
}

/// The configuration with other decorations.
pub open spec fn with_decorations(
    config: CompositorConfig,
    settings: WindowSettings,
) -> CompositorConfig {
    CompositorConfig {
        window: config::WindowConfig {
            server_side_decorations: settings.server_side_decorations,
            ..config.window
        },
        decorations: config::DecorationConfig {
            titlebar_height: settings.titlebar_height,
            border_width: settings.border_width,
            corner_radius: settings.corner_radius,
            mode: if settings.server_side_decorations {
                DecorationModeConfig::Server
            } else {
                DecorationModeConfig::Client
            },
            ..config.decorations
        },
        ..config
    }
}

impl BlairState {
    /// The sizes of decorations and who draws them.
    pub fn window_settings(&self) -> (r: WindowSettings)
        ensures
            r == (WindowSettings {
                titlebar_height: self@.config.decorations.titlebar_height,
                border_width: self@.theme.border_width,
                corner_radius: self@.theme.corner_radius,
                server_side_decorations: self@.config.window.server_side_decorations,
            }),
    {
        WindowSettings {
            titlebar_height: self.config.decorations.titlebar_height,
            border_width: self.theme.border_width,
            corner_radius: self.theme.corner_radius,
            server_side_decorations: self.config.window.server_side_decorations,
        }
    }

    /// The layout, the padding of the work area and the corner radius.
    pub fn layout_settings(&self) -> (r: (String, i32, i32))
        ensures
            r.0@ == layout_name(self@.config.window.layout),
            r.1 == self@.config.window.work_area_padding,
            r.2 == self@.theme.corner_radius,
    {
        let layout = match self.config.window.layout {
            WindowLayout::Floating => "floating",
            WindowLayout::Tiling => "tiling",
        };
        (layout.to_owned(), self.config.window.work_area_padding, self.theme.corner_radius)
    }

    /// Puts the configured settings in force.
    fn refresh_settings(&mut self)
        requires
            old(self)@.wf(),
        ensures
            final(self)@ == (StateModel {
                desktop: DesktopModel {
                    settings: settings_of(old(self)@.config, old(self)@.theme),
                    ..old(self)@.desktop
                },
                ..old(self)@
            }),
            final(self)@.wf(),
    {
        let settings = window_management_settings(&self.config, &self.theme);
        self.desktop.set_settings(settings);
    }

    /// Takes over a layout that a client asks for, if it is acceptable. Says
    /// whether it was; then it has to be saved, and `layout_saved` called.
    /// The theme stays as it is: the radius it gives changes with the next
    /// configuration that is applied.
    pub fn set_layout_settings(
        &mut self,
        layout: &str,
        work_area_padding: i32,
        corner_radius: i32,
    ) -> (accepted: bool)
        requires
            old(self)@.wf(),
        ensures
            final(self)@.wf(),
            accepted == (layout_named(layout@) is Some && acceptable_layout(
                work_area_padding,
                corner_radius,
            )),
            !accepted ==> final(self)@ == old(self)@,
            accepted ==> ({
                let config = with_layout(
                    old(self)@.config,
                    layout_named(layout@)->0,
                    work_area_padding,
                    corner_radius,
                );
                final(self)@ == (StateModel {
                    desktop: DesktopModel {
                        settings: settings_of(config, old(self)@.theme),
                        ..old(self)@.desktop
                    },
                    config,
                    ..old(self)@
                })
            }),
    {
        let chosen = if text::text_eq(layout, "floating") {
            WindowLayout::Floating
        } else if text::text_eq(layout, "tiling") {
            WindowLayout::Tiling
        } else {
            return false;
        };
        if work_area_padding < 0 || work_area_padding > 128 || (corner_radius != 0 && corner_radius
            != 12 && corner_radius != 24) {
            return false;
        }
        self.config.window.layout = chosen;
        self.config.window.work_area_padding = work_area_padding;
        self.config.decorations.corner_radius = corner_radius;
        self.refresh_settings();
        true
    }

    /// Arranges the focused workspace in the layout that was saved.
    pub fn layout_saved(&mut self)
        requires
            old(self)@.wf(),
        ensures
            final(self)@ == (StateModel {
                desktop: old(self)@.desktop.retile(old(self)@.desktop.focused_workspace()).repaint(),
                ..old(self)@
            }),
            final(self)@.wf(),
    {
        let workspace: u64 = self.desktop.focused_workspace_id();
        self.desktop.retile(workspace);
        proof {
            crate::invariants::lemma_emit(self.desktop@, Effect::FocusCleared);
        }
        self.desktop.request_redraw();
    }

    /// Takes over decorations that a client asks for, if they are acceptable.
    /// Says whether they were; then they have to be saved and a frame drawn.
    /// The theme stays as it is: what it gives of frames changes with the next
    /// configuration that is applied.
    pub fn set_window_settings(&mut self, settings: WindowSettings) -> (accepted: bool)
        requires
            old(self)@.wf(),
        ensures
            final(self)@.wf(),
            accepted == settings.acceptable(),
            !accepted ==> final(self)@ == old(self)@,
            accepted ==> ({
                let config = with_decorations(old(self)@.config, settings);
                final(self)@ == (StateModel {
                    desktop: DesktopModel {
                        settings: settings_of(config, old(self)@.theme),
                        ..old(self)@.desktop
                    },
                    config,
                    ..old(self)@
                })
            }),
    {
        if settings.titlebar_height < 20 || settings.titlebar_height > 96 || settings.border_width
            < 0 || settings.border_width > 16 || settings.corner_radius < 0
            || settings.corner_radius > 64 {
            return false;
        }
        self.config.decorations.titlebar_height = settings.titlebar_height;
        self.config.decorations.border_width = settings.border_width;
        self.config.decorations.corner_radius = settings.corner_radius;
        self.config.window.server_side_decorations = settings.server_side_decorations;
        self.config.decorations.mode = if settings.server_side_decorations {
            DecorationModeConfig::Server
        } else {
            DecorationModeConfig::Client
        };
        self.refresh_settings();
        true
    }

    /// The configured shortcuts for clients.
    pub fn configured_shortcuts(&self) -> (shortcuts: Vec<ShortcutBinding>)
        ensures
            bindings::shortcut_models(shortcuts@) == bindings::shortcuts_of(
                self@.config.bindings@,
                self@.config.bindings@.len(),
            ),
    {
        bindings::configured_shortcuts(&self.config.bindings)
    }

    /// Takes over the shortcuts that a client asks for, if all are valid.
    /// Says whether they were; then they have to be saved and bound.
    pub fn set_configured_shortcuts(&mut self, shortcuts: Vec<ShortcutBinding>) -> (accepted: bool)
        requires
            old(self)@.wf(),
        ensures
            final(self)@.wf(),
            !accepted ==> final(self)@ == old(self)@,
            accepted <==> forall|i: int|
                0 <= i < shortcuts@.len() ==> (bindings::setting_of(
                    (#[trigger] shortcuts@[i])@,
                ) matches Some(setting) && setting.valid()),
            accepted ==> ({
                let bound = final(self)@.config.bindings;
                &&& final(self)@ == (StateModel {
                    config: CompositorConfig { bindings: bound, ..old(self)@.config },
                    ..old(self)@
                })
                &&& bound@.len() == shortcuts@.len()
                &&& forall|i: int|
                    0 <= i < shortcuts@.len() ==> Some((#[trigger] bound@[i])@)
                        == bindings::setting_of(shortcuts@[i]@)
            }),
    {
        match bindings::configure_shortcuts(shortcuts) {
            Some(configured) => {
                proof {
                    assert forall|i: int| 0 <= i < configured@.len() implies (
                    #[trigger] configured@[i])@.valid() by {}
                    assert forall|i: int| 0 <= i < shortcuts@.len() implies (bindings::setting_of(
                        (#[trigger] shortcuts@[i])@,
                    ) matches Some(setting) && setting.valid()) by {
                        assert(Some(configured@[i]@) == bindings::setting_of(shortcuts@[i]@));
                    }
                    lemma_bindings_valid(configured@, 0);
                }
                self.config.bindings = configured;
                true
            },
            None => false,
        }
    }

    /// Binds a shortcut of a client; the name under which configured
    /// shortcuts are bound is refused.
    pub fn bind_shortcut(&mut self, client: &str, id: &str, accelerator: &str) -> (accepted: bool)
        requires
            old(self)@.wf(),
        ensures
            final(self)@.wf(),
            match old(self)@.shortcuts.after_bind(client@, id@, accelerator@) {
                Some(next) if client@ != bindings::CONFIG_BINDING_OWNER@ => accepted && final(self)@ == (StateModel { shortcuts: next, ..old(self)@ }),
                _ => !accepted && final(self)@ == old(self)@,
            },
    {
        if text::text_eq(client, bindings::CONFIG_BINDING_OWNER) {
            return false;
        }
        self.shortcuts.bind(client, id, accelerator)
    }

    /// Releases a shortcut of a client.
    pub fn unbind_shortcut(&mut self, client: &str, id: &str)
        requires
            old(self)@.wf(),
        ensures
            final(self)@.wf(),
            final(self)@ == (if client@ == bindings::CONFIG_BINDING_OWNER@ {
                old(self)@
            } else {
                StateModel {
                    shortcuts: old(self)@.shortcuts.after_unbind(client@, id@),
                    ..old(self)@
                }
            }),
    {
        if !text::text_eq(client, bindings::CONFIG_BINDING_OWNER) {
            self.shortcuts.unbind(client, id);
        }
    }

    /// Registers a temporary rule of a client under a name. The name may not
    /// be blank, and the rule has to be valid.
    pub fn register_window_rule(&mut self, client: &str, id: &str, rule: WindowRuleConfig) -> (
    accepted: bool)
        requires
            old(self)@.wf(),
        ensures
            final(self)@.wf(),
            ({
                let (rules, registered) = old(self)@.rules.registered(
                    client@,
                    id@,
                    rule@,
                    rule@.compiles(),
                );
                if client@ == bindings::CONFIG_BINDING_OWNER@ || text::blank(id@) || rule.fault(
                    0,
                ) is Some {
                    !accepted && final(self)@ == old(self)@
                } else {
                    accepted == registered && final(self)@ == (StateModel { rules, ..old(self)@ })
                }
            }),
    {
        if text::text_eq(client, bindings::CONFIG_BINDING_OWNER) || text::is_blank(id)
            || rule.validate(0).is_err() {
            return false;
        }
        self.rules.register(client, id, rule)
    }

    /// Withdraws a temporary rule of a client.
    pub fn unregister_window_rule(&mut self, client: &str, id: &str)
        requires
            old(self)@.wf(),
        ensures
            final(self)@.wf(),
            final(self)@ == (StateModel {
                rules: old(self)@.rules.unregistered(client@, id@),
                ..old(self)@
            }),
    {
        self.rules.unregister(client, id);
    }

    /// A client is gone, and its shortcuts and rules with it.
    pub fn unregister_client(&mut self, client: &str)
        requires
            old(self)@.wf(),
        ensures
            final(self)@.wf(),
            final(self)@ == (if client@ == bindings::CONFIG_BINDING_OWNER@ {
                old(self)@
            } else {
                StateModel {
                    shortcuts: old(self)@.shortcuts.after_unregister(client@),
                    rules: old(self)@.rules.without_client(client@),
                    ..old(self)@
                }
            }),
    {
        if !text::text_eq(client, bindings::CONFIG_BINDING_OWNER) {
            self.shortcuts.unregister_client(client);
            self.rules.unregister_client(client);
        }
    }

    /// Asks for the compositor to end.
    pub fn request_exit(&mut self)
        ensures
            final(self)@ == (StateModel { exit_requested: true, ..old(self)@ }),
    {
        self.exit_requested = true;
    }

    /// The radius of the corners of a frame: the configured one, or as much
    /// as there is room for.
    pub fn corner_radius(&self, width: i32, height: i32) -> (r: i32)
        ensures
            r == geometry::greatest(
                geometry::least(
                    geometry::least(
                        self@.config.decorations.corner_radius as int,
                        geometry::quotient(width as int, 2),
                    ),
                    geometry::quotient(height as int, 2),
                ),
                0,
            ),
    {
        let wide: i32 = geometry::half(width);
        let high: i32 = geometry::half(height);
        geometry::max_i32(
            geometry::min_i32(geometry::min_i32(self.config.decorations.corner_radius, wide), high),
            0,
        )
    }

    fn keep_vars(&mut self, display: bool)
        ensures
            final(self)@ == (StateModel {
                child_env: old(self)@.child_env.filter(names_display(display)),
                ..old(self)@
            }),
    {
        let ghost all = self@.child_env;
        let mut vars: Vec<EnvVar> = Vec::new();
        std::mem::swap(&mut vars, &mut self.child_env);
        let mut kept: Vec<EnvVar> = Vec::new();
        proof {
            reveal(Seq::filter);
            assert(env_models(kept@) =~= all.take(0).filter(names_display(display)));
        }
        for var in iter: vars
            invariant
                iter.seq() == vars@,
                all == env_models(vars@),
                env_models(kept@) == all.take(iter.index() as int).filter(names_display(display)),
        {
            let ghost before = env_models(kept@);
            let ghost model = (var.key@, var.value@);
            proof {
                assert(all[iter.index() as int] == model);
                seqs::lemma_filter_take(all, iter.index() as int, names_display(display));
            }
            if text::text_eq(var.key.as_str(), "WAYLAND_DISPLAY") == display {
                kept.push(var);
                assert(env_models(kept@) =~= before.push(model));
            }
        }
        proof {
            seqs::lemma_take_all(all);
        }
        self.child_env = kept;
    }

    fn add_var(&mut self, key: &str, value: &str)
        ensures
            final(self)@ == (StateModel {
                child_env: old(self)@.child_env.push((key@, value@)),
                ..old(self)@
            }),
    {
        let ghost before = env_models(self.child_env@);
        self.child_env.push(EnvVar { key: key.to_owned(), value: value.to_owned() });
        assert(env_models(self.child_env@) =~= before.push((key@, value@)));
    }

    /// Tells child processes which cursor is in use.
    pub fn refresh_child_env(&mut self, theme: &str, size: u32)
        ensures
            final(self)@ == (StateModel {
                child_env: old(self)@.child_env.filter(names_display(true)).push(
                    ("XCURSOR_THEME"@, theme@),
                ).push(("XCURSOR_SIZE"@, text::decimal(size as nat))),
                ..old(self)@
            }),
    {
        self.keep_vars(true);
        self.add_var("XCURSOR_THEME", theme);
        let size = text::u64_text(size as u64);
        self.add_var("XCURSOR_SIZE", size.as_str());
    }

    /// Tells child processes which display to use.
    pub fn set_wayland_display(&mut self, socket: &str)
        ensures
            final(self)@ == (StateModel {
                child_env: old(self)@.child_env.filter(names_display(false)).push(
                    ("WAYLAND_DISPLAY"@, socket@),
                ),
                ..old(self)@
            }),
    {
        self.keep_vars(false);
        self.add_var("WAYLAND_DISPLAY", socket);
    }
}

/// Settings that are all valid have no fault.
proof fn lemma_bindings_valid(bindings: Seq<config::BindingConfig>, from: int)
    requires
        0 <= from,
        forall|i: int| 0 <= i < bindings.len() ==> (#[trigger] bindings[i])@.valid(),
    ensures
        config::bindings_fault(bindings, from) is None,
    decreases bindings.len() - from,
{
    if from < bindings.len() {
        bindings::validity_is_a_matter_of_the_setting(bindings[from], (from + 1) as nat);
        assert(bindings[from]@.valid());
        lemma_bindings_valid(bindings, from + 1);
    }
}

/// What an effect on the desktop tells clients, if anything.
pub open spec fn notice(state: StateModel, effect: Effect) -> Option<EventModel> {
    match effect {
        Effect::WindowOpened { id } => Some(
            EventModel::WindowOpened {
                id,
                title: text_of(state.texts, id).title,
                app_id: text_of(state.texts, id).app_id,
            },
        ),
        Effect::WindowClosed { id } => Some(EventModel::WindowClosed { id }),
        Effect::WindowFocused { id } => Some(EventModel::WindowFocused { id }),
        Effect::FocusCleared => Some(EventModel::FocusCleared),
        Effect::WindowGeometryChanged { id, geometry } => Some(
            EventModel::WindowGeometryChanged { id, geometry },
        ),
        Effect::WindowMinimized { id } => Some(EventModel::WindowMinimized { id }),
        Effect::WindowRestored { id } => Some(EventModel::WindowRestored { id }),
        Effect::WindowMaximized { id, maximized } => Some(
            EventModel::WindowMaximized { id, maximized },
        ),
        Effect::OutputAdded { output } => if output < state.desktop.outputs.len() {
            Some(EventModel::OutputAdded { output: state.desktop.output_names[output as int] })
        } else {
            None
        },
        Effect::WorkAreaChanged { output } => if output < state.desktop.outputs.len() {
            Some(
                EventModel::WorkAreaChanged {
                    output: state.desktop.output_names[output as int],
                    area: state.desktop.outputs[output as int].zone,
                },
            )
        } else {
            None
        },
        Effect::WorkspaceActivated { output, workspace } => if output
            < state.desktop.outputs.len() {
            Some(
                EventModel::WorkspaceActivated {
                    output: state.desktop.output_names[output as int],
                    workspace,
                },
            )
        } else {
            None
        },
        Effect::WorkspacesChanged => Some(EventModel::WorkspacesChanged),
        _ => None,
    }
}

impl BlairState {
    /// What an effect on the desktop tells clients, if anything. What is left
    /// has to be done.
    pub fn event_for(&self, effect: Effect) -> (r: Option<CompositorEvent>)
        requires
            self@.wf(),
        ensures
            match (r, notice(self@, effect)) {
                (Some(event), Some(expected)) => event@ == expected,
                (None, None) => true,
                _ => false,
            },
    {
        match effect {
            Effect::WindowOpened { id } => {
                let (title, app_id) = match find_text(&self.texts, id) {
                    Some(i) => {
                        assert(self@.texts[i as int] == self.texts@[i as int]@);
                        (self.texts[i].title.clone(), text::copy_of(&self.texts[i].app_id))
                    },
                    None => {
                        let title = String::new();
                        assert(title@ =~= Seq::<char>::empty());
                        (title, None)
                    },
                };
                Some(CompositorEvent::WindowOpened { id, title, app_id })
            },
            Effect::WindowClosed { id } => Some(CompositorEvent::WindowClosed { id }),
            Effect::WindowFocused { id } => Some(CompositorEvent::WindowFocused { id }),
            Effect::FocusCleared => Some(CompositorEvent::FocusCleared),
            Effect::WindowGeometryChanged { id, geometry } => Some(
                CompositorEvent::WindowGeometryChanged { id, geometry },
            ),
            Effect::WindowMinimized { id } => Some(CompositorEvent::WindowMinimized { id }),
            Effect::WindowRestored { id } => Some(CompositorEvent::WindowRestored { id }),
            Effect::WindowMaximized { id, maximized } => Some(
                CompositorEvent::WindowMaximized { id, maximized },
            ),
            Effect::OutputAdded { output } => if output < self.desktop.output_count() {
                Some(CompositorEvent::OutputAdded { output: self.desktop.output_name(output) })
            } else {
                None
            },
            Effect::WorkAreaChanged { output } => if output < self.desktop.output_count() {
                Some(
                    CompositorEvent::WorkAreaChanged {
                        output: self.desktop.output_name(output),
                        area: self.desktop.output_zone(output),
                    },
                )
            } else {
                None
            },
            Effect::WorkspaceActivated { output, workspace } => if output
                < self.desktop.output_count() {
                Some(
                    CompositorEvent::WorkspaceActivated {
                        output: self.desktop.output_name(output),
                        workspace,
                    },
                )
            } else {
                None
            },
            Effect::WorkspacesChanged => Some(CompositorEvent::WorkspacesChanged),
            _ => None,
        }
    }
}

/// What a commit of a window asks for.
#[derive(Debug, Clone, Copy, PartialEq, Eq, Structural)]
pub enum CommitAction {
    Configure,
    Show,
    Hide,
    FollowResize,
    Nothing,
}

/// What a commit of a surface leads to.
pub open spec fn committed(
    is_root: bool,
    configured: bool,
    mapped: bool,
    has_buffer: bool,
) -> CommitAction {
    if !is_root || (configured && !mapped && !has_buffer) {
        CommitAction::Nothing
    } else if !configured {
        CommitAction::Configure
    } else if !has_buffer {
        CommitAction::Hide
    } else if mapped {
        CommitAction::FollowResize
    } else {
        CommitAction::Show
    }
}

/// What a commit asks for: the first one is answered with a configuration,
/// then a window is mapped while its client has something to show.
pub fn commit_action(is_root: bool, configured: bool, mapped: bool, has_buffer: bool) -> (r:
    CommitAction)
    ensures
        r == (if !is_root {
            CommitAction::Nothing
        } else if !configured {
            CommitAction::Configure
        } else if mapped && has_buffer {
            CommitAction::FollowResize
        } else if mapped {
            CommitAction::Hide
        } else if has_buffer {
            CommitAction::Show
        } else {
            CommitAction::Nothing
        }),
        r == committed(is_root, configured, mapped, has_buffer),
{
    if !is_root {
        CommitAction::Nothing
    } else if !configured {
        CommitAction::Configure
    } else {
        match (mapped, has_buffer) {
            (false, true) => CommitAction::Show,
            (true, false) => CommitAction::Hide,
            (true, true) => CommitAction::FollowResize,
            (false, false) => CommitAction::Nothing,
        }
    }
}

/// A screenshot that was asked for.
#[derive(Debug)]
pub struct ScreenshotRequest {
    /// The focused output where there is none.
    pub output: Option<String>,
    pub path: String,
}

/// Accepts a request for a screenshot if its path is absolute. An empty name
/// stands for the focused output.
pub fn request_screenshot(output: &str, path: &str) -> (r: Option<ScreenshotRequest>)
    ensures
        match r {
            Some(request) => path@.len() > 0 && path@[0] == '/' && request.path@ == path@
                && text::option(request.output) == (if output@.len() == 0 {
                None
            } else {
                Some(output@)
            }),
            None => path@.len() == 0 || path@[0] != '/',
        },
{
    let chars = text::chars_of(path);
    if chars.len() == 0 || chars[0] != '/' {
        return None;
    }
    let output = if text::chars_of(output).len() == 0 { None } else { Some(output.to_owned()) };
    Some(ScreenshotRequest { output, path: path.to_owned() })
}

/// What is known of a child process.
#[derive(Debug, Clone, Copy, PartialEq, Eq, Structural)]
pub enum ChildStatus {
    Running,
    Exited,
    Unknown,
}

/// What happens to a child process.
#[derive(Debug, Clone, Copy, PartialEq, Eq, Structural)]
pub enum Supervision {
    Keep,
    Drop,
    Restart,
}

/// A restarted command runs at least this long before it is restarted again,
/// one second.
pub const RESTART_DELAY: u64 = 1_000_000_000;

/// What becomes of a child process.
pub open spec fn supervised(
    status: ChildStatus,
    restart: bool,
    now: u64,
    next_restart: u64,
) -> Supervision {
    if status is Running || (status is Exited && restart && now < next_restart) {
        Supervision::Keep
    } else if status is Exited && restart {
        Supervision::Restart
    } else {
        Supervision::Drop
    }
}

/// Decides about a child process: one that ended is forgotten or, if that is
/// wanted, started again once its delay is over.
pub fn supervise(status: ChildStatus, restart: bool, now: u64, next_restart: u64) -> (r:
    Supervision)
    ensures
        r == (match status {
            ChildStatus::Running => Supervision::Keep,
            ChildStatus::Unknown => Supervision::Drop,
            ChildStatus::Exited => if !restart {
                Supervision::Drop
            } else if now < next_restart {
                Supervision::Keep
            } else {
                Supervision::Restart
            },
        }),
        r == supervised(status, restart, now, next_restart),
{
    match status {
        ChildStatus::Running => Supervision::Keep,
        ChildStatus::Unknown => Supervision::Drop,
        ChildStatus::Exited => if !restart {
            Supervision::Drop
        } else if now < next_restart {
            Supervision::Keep
        } else {
            Supervision::Restart
        },
    }
}

} // verus!
