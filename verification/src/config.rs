//! Settings, their defaults, and what a setting may be.

use vstd::prelude::*;

use crate::model::{DecorationModeConfig, WindowLayout};
use crate::reals::{Real32, Real64};
use crate::reals;
use crate::regexes;
use crate::shortcuts;
use crate::text;
use crate::theme::{DecorationButton, DecorationButtonSide, DecorationTheme, TitlebarColorMode};

verus! {

/// Everything that can be configured.
#[derive(Debug, Clone)]
pub struct CompositorConfig {
    pub general: GeneralConfig,
    pub integrations: IntegrationsConfig,
    pub bindings: Vec<BindingConfig>,
    pub focus: FocusConfig,
    pub animations: AnimationsConfig,
    pub autostart: Vec<AutostartConfig>,
    pub rules: Vec<WindowRuleConfig>,
    pub input: InputConfig,
    pub workspaces: WorkspacesConfig,
    /// Settings by output name, in the order of the names.
    pub outputs: Vec<NamedOutput>,
    pub window: WindowConfig,
    pub decorations: DecorationConfig,
    pub cursor: CursorConfig,
}

#[derive(Debug, Clone)]
pub struct CursorConfig {
    /// Falls back to the environment, then to the `default` theme.
    pub theme: Option<String>,
    /// Falls back to the environment, then to 24.
    pub size: Option<u32>,
}

#[derive(Debug, Clone)]
pub struct GeneralConfig {
    pub backend: String,
    pub hot_reload: bool,
}

#[derive(Debug, Clone)]
pub struct AutostartConfig {
    pub command: String,
    pub restart: bool,
}

#[derive(Debug, Clone, Copy, PartialEq, Eq, Structural)]
pub struct FocusConfig {
    pub policy: FocusPolicy,
    pub raise_on_focus: bool,
    pub focus_new_windows: bool,
    pub focus_previous_on_close: bool,
    pub warp_cursor: bool,
}

#[derive(Debug, Clone, Copy, PartialEq, Eq, Structural)]
pub enum FocusPolicy {
    Click,
}

#[derive(Debug, Clone, Copy, PartialEq, Eq, Structural)]
pub struct AnimationsConfig {
    pub enabled: bool,
    pub window_open: AnimationConfig,
    pub window_close: AnimationConfig,
    pub workspace: AnimationConfig,
    pub minimize: AnimationConfig,
}

#[derive(Debug, Clone, Copy, PartialEq, Eq, Structural)]
pub struct AnimationConfig {
    /// In milliseconds.
    pub duration: u64,
    pub curve: AnimationCurve,
}

#[derive(Debug, Clone, Copy, PartialEq, Eq, Structural)]
pub enum AnimationCurve {
    Linear,
    EaseIn,
    EaseOut,
    EaseInOut,
}

#[derive(Debug, Clone, Copy, PartialEq, Eq, Structural)]
pub struct IntegrationsConfig {
    pub dbus: bool,
}

#[derive(Debug, Clone)]
pub struct InputConfig {
    pub keyboard: KeyboardConfig,
    pub mouse: MouseConfig,
    pub touchpad: TouchpadConfig,
}

#[derive(Debug, Clone)]
pub struct WorkspacesConfig {
    pub count: u64,
    pub dynamic: bool,
    pub wrap: bool,
    /// Definitions by workspace number, in the order of the keys.
    pub definitions: Vec<KeyedWorkspace>,
}

/// What is configured for the workspace with a number.
#[derive(Debug, Clone)]
pub struct KeyedWorkspace {
    pub key: String,
    pub definition: WorkspaceDefinition,
}

#[derive(Debug, Clone)]
pub struct WorkspaceDefinition {
    pub name: Option<String>,
    pub output: Option<String>,
}

#[derive(Debug, Clone)]
pub struct KeyboardConfig {
    pub layout: String,
    pub variant: String,
    pub repeat_delay: i32,
    pub repeat_rate: i32,
}

#[derive(Debug, Clone)]
pub struct MouseConfig {
    pub sensitivity: Real64,
    pub acceleration: String,
}

#[derive(Debug, Clone, Copy, PartialEq, Eq, Structural)]
pub struct TouchpadConfig {
    pub tap: bool,
    pub natural_scroll: bool,
    pub disable_while_typing: bool,
}

#[derive(Debug, Clone)]
pub struct BindingConfig {
    pub keys: Vec<String>,
    pub action: Option<String>,
    /// The command to run, which is configured as `exec`.
    pub command: Option<String>,
    pub value: Option<u64>,
}

/// What is configured for the output with a name.
#[derive(Debug, Clone)]
pub struct NamedOutput {
    pub name: String,
    pub config: OutputConfig,
}

#[derive(Debug, Clone)]
pub struct OutputConfig {
    pub enabled: Option<bool>,
    pub mode: Option<ModeSetting>,
    pub position: Option<[i32; 2]>,
    pub scale: Option<Real64>,
    pub transform: Option<String>,
    pub vrr: Option<bool>,
}

/// A mode as it is written, and what its refresh rate reads as.
#[derive(Debug, Clone)]
pub struct ModeSetting {
    pub text: String,
    pub refresh: RefreshRate,
}

/// What the refresh rate of a mode reads as.
#[derive(Debug, Clone, Copy, PartialEq, Eq, Structural)]
pub enum RefreshRate {
    /// Not a number at all.
    Unreadable,
    /// Not finite, or not above zero.
    Unusable,
    Millihertz(i32),
}

#[derive(Debug, Clone, Copy, PartialEq, Eq, Structural)]
pub struct OutputMode {
    pub width: i32,
    pub height: i32,
    pub refresh_millihz: i32,
}

#[derive(Debug, Clone, Copy, PartialEq, Eq, Structural)]
pub enum OutputTransform {
    Normal,
    Rotate90,
    Rotate180,
    Rotate270,
    Flipped,
    Flipped90,
    Flipped180,
    Flipped270,
}

/// A rule that is evaluated, in order, when a window is created.
#[derive(Debug, Clone)]
pub struct WindowRuleConfig {
    pub app_id: Option<String>,
    pub title: Option<String>,
    pub class: Option<String>,
    pub regex: Option<String>,
    pub role: Option<String>,
    pub window_type: Option<String>,
    pub floating: Option<bool>,
    pub tiled: Option<bool>,
    pub workspace: Option<String>,
    pub output: Option<String>,
    pub size: Option<[i32; 2]>,
    pub position: Option<[i32; 2]>,
    pub opacity: Option<Real32>,
    pub always_on_top: Option<bool>,
    pub decoration: Option<bool>,
}

#[derive(Debug, Clone, Copy, PartialEq, Eq, Structural)]
pub struct WindowConfig {
    pub default_width: i32,
    pub default_height: i32,
    pub server_side_decorations: bool,
    pub layout: WindowLayout,
    /// Margin kept between the tiled area and the work area.
    pub work_area_padding: i32,
    /// Spacing between tiled windows.
    pub gap: i32,
    /// Share of the width taken by the master window when tiling.
    pub master_ratio: Real64,
}

#[derive(Debug, Clone)]
pub struct DecorationConfig {
    pub mode: DecorationModeConfig,
    pub titlebar_height: i32,
    pub border_width: i32,
    pub corner_radius: i32,
    pub active_titlebar: String,
    pub inactive_titlebar: String,
    pub active_border: String,
    pub inactive_border: String,
    pub close_button: String,
    pub maximize_button: String,
    pub minimize_button: String,
    pub buttons: DecorationButtonsConfig,
}

#[derive(Debug, Clone)]
pub struct DecorationButtonsConfig {
    pub layout: Vec<DecorationButton>,
    pub side: DecorationButtonSide,
}

impl Default for FocusConfig {
    fn default() -> (r: Self)
        ensures
            r == (FocusConfig {
                policy: FocusPolicy::Click,
                raise_on_focus: true,
                focus_new_windows: true,
                focus_previous_on_close: true,
                warp_cursor: false,
            }),
    {
        FocusConfig {
            policy: FocusPolicy::Click,
            raise_on_focus: true,
            focus_new_windows: true,
            focus_previous_on_close: true,
            warp_cursor: false,
        }
    }
}

impl Default for AnimationConfig {
    fn default() -> (r: Self)
        ensures
            r == (AnimationConfig { duration: 150, curve: AnimationCurve::EaseOut }),
    {
        AnimationConfig { duration: 150, curve: AnimationCurve::EaseOut }
    }
}

impl Default for AnimationsConfig {
    fn default() -> (r: Self)
        ensures
            r.enabled,
            r.window_open == (AnimationConfig { duration: 150, curve: AnimationCurve::EaseOut }),
            r.window_close == r.window_open,
            r.workspace == (AnimationConfig { duration: 200, curve: AnimationCurve::EaseInOut }),
            r.minimize == r.window_open,
    {
        AnimationsConfig {
            enabled: true,
            window_open: AnimationConfig::default(),
            window_close: AnimationConfig::default(),
            workspace: AnimationConfig { duration: 200, curve: AnimationCurve::EaseInOut },
            minimize: AnimationConfig::default(),
        }
    }
}

impl Default for WorkspacesConfig {
    fn default() -> (r: Self)
        ensures
            r.count == 10,
            !r.dynamic,
            r.wrap,
            r.definitions@.len() == 0,
    {
        WorkspacesConfig { count: 10, dynamic: false, wrap: true, definitions: Vec::new() }
    }
}

impl Default for WorkspaceDefinition {
    fn default() -> (r: Self)
        ensures
            r.name is None,
            r.output is None,
    {
        WorkspaceDefinition { name: None, output: None }
    }
}

impl Default for KeyboardConfig {
    fn default() -> (r: Self)
        ensures
            r.layout@ == "us"@,
            r.variant@ == Seq::<char>::empty(),
            r.repeat_delay == 250,
            r.repeat_rate == 35,
    {
        KeyboardConfig {
            layout: "us".to_owned(),
            variant: String::new(),
            repeat_delay: 250,
            repeat_rate: 35,
        }
    }
}

impl Default for MouseConfig {
    fn default() -> (r: Self)
        ensures
            r.sensitivity == (Real64 { bits: 0 }),
            r.acceleration@ == "adaptive"@,
    {
        MouseConfig { sensitivity: Real64 { bits: 0 }, acceleration: "adaptive".to_owned() }
    }
}

impl Default for TouchpadConfig {
    fn default() -> (r: Self)
        ensures
            r == (TouchpadConfig { tap: true, natural_scroll: true, disable_while_typing: true }),
    {
        TouchpadConfig { tap: true, natural_scroll: true, disable_while_typing: true }
    }
}

impl Default for InputConfig {
    fn default() -> (r: Self)
        ensures
            r.keyboard.layout@ == "us"@,
            r.keyboard.variant@ == Seq::<char>::empty(),
            r.keyboard.repeat_delay == 250,
            r.keyboard.repeat_rate == 35,
            r.mouse.sensitivity == (Real64 { bits: 0 }),
            r.mouse.acceleration@ == "adaptive"@,
            r.touchpad == (TouchpadConfig {
                tap: true,
                natural_scroll: true,
                disable_while_typing: true,
            }),
    {
        InputConfig {
            keyboard: KeyboardConfig::default(),
            mouse: MouseConfig::default(),
            touchpad: TouchpadConfig::default(),
        }
    }
}

impl Default for OutputConfig {
    fn default() -> (r: Self)
        ensures
            r.enabled is None,
            r.mode is None,
            r.position is None,
            r.scale is None,
            r.transform is None,
            r.vrr is None,
    {
        OutputConfig {
            enabled: None,
            mode: None,
            position: None,
            scale: None,
            transform: None,
            vrr: None,
        }
    }
}

impl Default for WindowRuleConfig {
    fn default() -> (r: Self)
        ensures
            r.app_id is None,
            r.title is None,
            r.class is None,
            r.regex is None,
            r.role is None,
            r.window_type is None,
            r.floating is None,
            r.tiled is None,
            r.workspace is None,
            r.output is None,
            r.size is None,
            r.position is None,
            r.opacity is None,
            r.always_on_top is None,
            r.decoration is None,
    {
        WindowRuleConfig {
            app_id: None,
            title: None,
            class: None,
            regex: None,
            role: None,
            window_type: None,
            floating: None,
            tiled: None,
            workspace: None,
            output: None,
            size: None,
            position: None,
            opacity: None,
            always_on_top: None,
            decoration: None,
        }
    }
}

impl Default for DecorationButtonsConfig {
    fn default() -> (r: Self)
        ensures
            r.layout@ == seq![
                DecorationButton::Minimize,
                DecorationButton::Maximize,
                DecorationButton::Close,
            ],
            r.side == DecorationButtonSide::Right,
    {
        let mut layout: Vec<DecorationButton> = Vec::new();
        layout.push(DecorationButton::Minimize);
        layout.push(DecorationButton::Maximize);
        layout.push(DecorationButton::Close);
        DecorationButtonsConfig { layout, side: DecorationButtonSide::Right }
    }
}

impl Default for GeneralConfig {
    fn default() -> (r: Self)
        ensures
            r.backend@ == "auto"@,
            r.hot_reload,
    {
        GeneralConfig { backend: "auto".to_owned(), hot_reload: true }
    }
}

impl Default for IntegrationsConfig {
    fn default() -> (r: Self)
        ensures
            r.dbus,
    {
        IntegrationsConfig { dbus: true }
    }
}

impl Default for CursorConfig {
    fn default() -> (r: Self)
        ensures
            r.theme is None,
            r.size is None,
    {
        CursorConfig { theme: None, size: None }
    }
}

impl Default for WindowConfig {
    fn default() -> (r: Self)
        ensures
            r == (WindowConfig {
                default_width: 900,
                default_height: 600,
                server_side_decorations: true,
                layout: WindowLayout::Floating,
                work_area_padding: 16,
                gap: 8,
                master_ratio: Real64 { bits: reals::HALF },
            }),
    {
        WindowConfig {
            default_width: 900,
            default_height: 600,
            server_side_decorations: true,
            layout: WindowLayout::Floating,
            work_area_padding: 16,
            gap: 8,
            master_ratio: Real64 { bits: reals::HALF },
        }
    }
}

impl Default for DecorationConfig {
    fn default() -> (r: Self)
        ensures
            r.mode == DecorationModeConfig::Auto,
            r.titlebar_height == 32,
            r.border_width == 4,
            r.corner_radius == 12,
            r.active_titlebar@ == "#1e1e2e"@,
            r.inactive_titlebar@ == "#11111b"@,
            r.active_border@ == "#89b4fa"@,
            r.inactive_border@ == "#313244"@,
            r.close_button@ == "#f38ba8"@,
            r.maximize_button@ == "#a6e3a1"@,
            r.minimize_button@ == "#f9e2af"@,
            r.buttons.layout@ == seq![
                DecorationButton::Minimize,
                DecorationButton::Maximize,
                DecorationButton::Close,
            ],
            r.buttons.side == DecorationButtonSide::Right,
    {
        DecorationConfig {
            mode: DecorationModeConfig::Auto,
            titlebar_height: 32,
            border_width: 4,
            corner_radius: 12,
            active_titlebar: "#1e1e2e".to_owned(),
            inactive_titlebar: "#11111b".to_owned(),
            active_border: "#89b4fa".to_owned(),
            inactive_border: "#313244".to_owned(),
            close_button: "#f38ba8".to_owned(),
            maximize_button: "#a6e3a1".to_owned(),
            minimize_button: "#f9e2af".to_owned(),
            buttons: DecorationButtonsConfig::default(),
        }
    }
}

impl Default for CompositorConfig {
    fn default() -> (r: Self)
        ensures
            r.general.backend@ == "auto"@,
            r.general.hot_reload,
            r.integrations.dbus,
            r.bindings@.len() == 0,
            r.focus == (FocusConfig {
                policy: FocusPolicy::Click,
                raise_on_focus: true,
                focus_new_windows: true,
                focus_previous_on_close: true,
                warp_cursor: false,
            }),
            r.animations.enabled,
            r.animations.window_open == (AnimationConfig {
                duration: 150,
                curve: AnimationCurve::EaseOut,
            }),
            r.animations.window_close == r.animations.window_open,
            r.animations.workspace == (AnimationConfig {
                duration: 200,
                curve: AnimationCurve::EaseInOut,
            }),
            r.animations.minimize == r.animations.window_open,
            r.autostart@.len() == 0,
            r.rules@.len() == 0,
            r.input.keyboard.layout@ == "us"@,
            r.input.keyboard.variant@ == Seq::<char>::empty(),
            r.input.keyboard.repeat_delay == 250,
            r.input.keyboard.repeat_rate == 35,
            r.input.mouse.sensitivity == (Real64 { bits: 0 }),
            r.input.mouse.acceleration@ == "adaptive"@,
            r.input.touchpad == (TouchpadConfig {
                tap: true,
                natural_scroll: true,
                disable_while_typing: true,
            }),
            r.workspaces.count == 10,
            !r.workspaces.dynamic,
            r.workspaces.wrap,
            r.workspaces.definitions@.len() == 0,
            r.outputs@.len() == 0,
            r.window == (WindowConfig {
                default_width: 900,
                default_height: 600,
                server_side_decorations: true,
                layout: WindowLayout::Floating,
                work_area_padding: 16,
                gap: 8,
                master_ratio: Real64 { bits: reals::HALF },
            }),
            r.decorations.mode == DecorationModeConfig::Auto,
            r.decorations.titlebar_height == 32,
            r.decorations.border_width == 4,
            r.decorations.corner_radius == 12,
            r.decorations.active_titlebar@ == "#1e1e2e"@,
            r.decorations.inactive_titlebar@ == "#11111b"@,
            r.decorations.active_border@ == "#89b4fa"@,
            r.decorations.inactive_border@ == "#313244"@,
            r.decorations.close_button@ == "#f38ba8"@,
            r.decorations.maximize_button@ == "#a6e3a1"@,
            r.decorations.minimize_button@ == "#f9e2af"@,
            r.decorations.buttons.layout@ == seq![
                DecorationButton::Minimize,
                DecorationButton::Maximize,
                DecorationButton::Close,
            ],
            r.decorations.buttons.side == DecorationButtonSide::Right,
            r.cursor.theme is None,
            r.cursor.size is None,
            r.fault() is None,
    {
        let r = CompositorConfig {
            general: GeneralConfig::default(),
            integrations: IntegrationsConfig::default(),
            bindings: Vec::new(),
            focus: FocusConfig::default(),
            animations: AnimationsConfig::default(),
            autostart: Vec::new(),
            rules: Vec::new(),
            input: InputConfig::default(),
            workspaces: WorkspacesConfig::default(),
            outputs: Vec::new(),
            window: WindowConfig::default(),
            decorations: DecorationConfig::default(),
            cursor: CursorConfig::default(),
        };
        proof {
            reveal_strlit("us");
            assert(!text::white('u'));
            assert(r.input.keyboard.layout@[0] == 'u');
            assert(!text::blank(r.input.keyboard.layout@));
        }
        r
    }
}

/// A check has the expected outcome: it passes, or fails with the message.
pub open spec fn told(r: Result<(), String>, fault: Option<Seq<char>>) -> bool {
    match (r, fault) {
        (Ok(_), None) => true,
        (Err(message), Some(expected)) => message@ == expected,
        _ => false,
    }
}

impl CursorConfig {
    /// What is wrong with the settings, if anything.
    pub open spec fn fault(self) -> Option<Seq<char>> {
        if text::present_but_blank(self.theme) {
            Some("cursor theme cannot be empty"@)
        } else if self.size is Some && !(8 <= self.size->0 <= 256) {
            Some("cursor size must be between 8 and 256"@)
        } else {
            None
        }
    }

    /// Checks the settings.
    pub fn validate(&self) -> (r: Result<(), String>)
        ensures
            told(r, self.fault()),
    {
        if text::is_present_but_blank(&self.theme) {
            return Err("cursor theme cannot be empty".to_owned());
        }
        if let Some(size) = self.size {
            if size < 8 || size > 256 {
                return Err("cursor size must be between 8 and 256".to_owned());
            }
        }
        Ok(())
    }
}

impl AnimationsConfig {
    /// What is wrong with the settings, if anything.
    pub open spec fn fault(self) -> Option<Seq<char>> {
        if self.window_open.duration > 10_000 {
            Some("animations.window_open.duration must be at most 10000 ms"@)
        } else if self.window_close.duration > 10_000 {
            Some("animations.window_close.duration must be at most 10000 ms"@)
        } else if self.workspace.duration > 10_000 {
            Some("animations.workspace.duration must be at most 10000 ms"@)
        } else if self.minimize.duration > 10_000 {
            Some("animations.minimize.duration must be at most 10000 ms"@)
        } else {
            None
        }
    }

    /// Checks the settings.
    pub fn validate(&self) -> (r: Result<(), String>)
        ensures
            told(r, self.fault()),
    {
        if self.window_open.duration > 10_000 {
            return Err("animations.window_open.duration must be at most 10000 ms".to_owned());
        }
        if self.window_close.duration > 10_000 {
            return Err("animations.window_close.duration must be at most 10000 ms".to_owned());
        }
        if self.workspace.duration > 10_000 {
            return Err("animations.workspace.duration must be at most 10000 ms".to_owned());
        }
        if self.minimize.duration > 10_000 {
            return Err("animations.minimize.duration must be at most 10000 ms".to_owned());
        }
        Ok(())
    }
}

impl AutostartConfig {
    /// What is wrong with the `index`-th entry, if anything.
    pub open spec fn fault(self, index: nat) -> Option<Seq<char>> {
        if text::blank(self.command@) {
            Some(text::numbered("autostart #"@, index, " command cannot be empty"@))
        } else {
            None
        }
    }

    /// Checks the `index`-th entry.
    pub fn validate(&self, index: usize) -> (r: Result<(), String>)
        ensures
            told(r, self.fault(index as nat)),
    {
        if text::is_blank(self.command.as_str()) {
            return Err(
                text::numbered_text("autostart #", index as u64, " command cannot be empty"),
            );
        }
        Ok(())
    }
}

impl InputConfig {
    /// What is wrong with the settings, if anything.
    pub open spec fn fault(self) -> Option<Seq<char>> {
        if text::blank(self.keyboard.layout@) {
            Some("keyboard layout cannot be empty"@)
        } else if !(0 <= self.keyboard.repeat_delay <= 2_000) || !(1 <= self.keyboard.repeat_rate
            <= 100) {
            Some("keyboard repeat_delay must be 0..=2000 and repeat_rate 1..=100"@)
        } else if !((Real64 { bits: reals::MINUS_ONE }).at_most(self.mouse.sensitivity)
            && self.mouse.sensitivity.at_most(Real64 { bits: reals::ONE })) {
            Some("mouse sensitivity must be between -1.0 and 1.0"@)
        } else if self.mouse.acceleration@ != "adaptive"@ && self.mouse.acceleration@ != "flat"@ {
            Some("mouse acceleration must be adaptive or flat"@)
        } else {
            None
        }
    }

    /// Checks the settings.
    pub fn validate(&self) -> (r: Result<(), String>)
        ensures
            told(r, self.fault()),
    {
        if text::is_blank(self.keyboard.layout.as_str()) {
            return Err("keyboard layout cannot be empty".to_owned());
        }
        if self.keyboard.repeat_delay < 0 || self.keyboard.repeat_delay > 2_000
            || self.keyboard.repeat_rate < 1 || self.keyboard.repeat_rate > 100 {
            return Err(
                "keyboard repeat_delay must be 0..=2000 and repeat_rate 1..=100".to_owned(),
            );
        }
        let least = Real64 { bits: reals::MINUS_ONE };
        let most = Real64 { bits: reals::ONE };
        if !(least.le(self.mouse.sensitivity) && self.mouse.sensitivity.le(most)) {
            return Err("mouse sensitivity must be between -1.0 and 1.0".to_owned());
        }
        if !text::text_eq(self.mouse.acceleration.as_str(), "adaptive") && !text::text_eq(
            self.mouse.acceleration.as_str(),
            "flat",
        ) {
            return Err("mouse acceleration must be adaptive or flat".to_owned());
        }
        Ok(())
    }
}

impl KeyedWorkspace {
    /// What is wrong with the definition where there are `count` workspaces,
    /// if anything.
    pub open spec fn fault(self, count: u64) -> Option<Seq<char>> {
        match text::unsigned(self.key@, u64::MAX as nat) {
            None => Some("workspace key '"@ + self.key@ + "' must be a positive integer"@),
            Some(id) => if id == 0 || id > count {
                Some(text::numbered("workspace "@, id, " is outside the configured count"@))
            } else if text::present_but_blank(self.definition.name) {
                Some(text::numbered("workspace "@, id, " has an empty name"@))
            } else if text::present_but_blank(self.definition.output) {
                Some(text::numbered("workspace "@, id, " has an empty output"@))
            } else {
                None
            },
        }
    }

    fn validate(&self, count: u64) -> (r: Result<(), String>)
        ensures
            told(r, self.fault(count)),
    {
        let key = text::chars_of(self.key.as_str());
        let id: u64 = match text::parse_unsigned(&key, u64::MAX) {
            Some(id) => id,
            None => {
                return Err(
                    text::join3(
                        "workspace key '",
                        self.key.as_str(),
                        "' must be a positive integer",
                    ),
                );
            },
        };
        if id == 0 || id > count {
            return Err(text::numbered_text("workspace ", id, " is outside the configured count"));
        }
        if text::is_present_but_blank(&self.definition.name) {
            return Err(text::numbered_text("workspace ", id, " has an empty name"));
        }
        if text::is_present_but_blank(&self.definition.output) {
            return Err(text::numbered_text("workspace ", id, " has an empty output"));
        }
        Ok(())
    }
}

impl WorkspacesConfig {
    /// The first fault of the definitions from `from` on.
    pub open spec fn definition_fault(self, from: int) -> Option<Seq<char>>
        decreases self.definitions@.len() - from,
    {
        if from < 0 || from >= self.definitions@.len() {
            None
        } else if self.definitions@[from].fault(self.count) is Some {
            self.definitions@[from].fault(self.count)
        } else {
            self.definition_fault(from + 1)
        }
    }

    /// What is wrong with the settings, if anything.
    pub open spec fn fault(self) -> Option<Seq<char>> {
        if !(1 <= self.count <= 100) {
            Some("workspaces count must be between 1 and 100"@)
        } else {
            self.definition_fault(0)
        }
    }

    /// Checks the settings.
    pub fn validate(&self) -> (r: Result<(), String>)
        ensures
            told(r, self.fault()),
    {
        if self.count < 1 || self.count > 100 {
            return Err("workspaces count must be between 1 and 100".to_owned());
        }
        let mut i: usize = 0;
        while i < self.definitions.len()
            invariant
                i <= self.definitions@.len(),
                1 <= self.count <= 100,
                self.definition_fault(0) == self.definition_fault(i as int),
            decreases self.definitions@.len() - i,
        {
            match self.definitions[i].validate(self.count) {
                Ok(_) => {},
                Err(message) => {
                    return Err(message);
                },
            }
            i = i + 1;
        }
        Ok(())
    }
}

/// A mode that is written without an `@` or without an `x` before it.
pub open spec fn mode_form_fault(value: Seq<char>) -> Seq<char> {
    "mode must use WIDTHxHEIGHT@REFRESH, got '"@ + value + "'"@
}

/// What a written mode means, given what its refresh rate reads as.
pub open spec fn mode_meaning(value: Seq<char>, refresh: RefreshRate) -> Result<
    OutputMode,
    Seq<char>,
> {
    match text::first_index(value, '@', 0) {
        None => Err(mode_form_fault(value)),
        Some(at) => {
            let resolution = value.take(at);
            match text::first_index(resolution, 'x', 0) {
                None => Err(mode_form_fault(value)),
                Some(cross) => {
                    let width = text::signed(
                        resolution.take(cross),
                        i32::MIN as int,
                        i32::MAX as int,
                    );
                    let height = text::signed(
                        resolution.skip(cross + 1),
                        i32::MIN as int,
                        i32::MAX as int,
                    );
                    match (width, height, refresh) {
                        (None, _, _) => Err("invalid mode width"@),
                        (_, None, _) => Err("invalid mode height"@),
                        (_, _, RefreshRate::Unreadable) => Err("invalid refresh rate"@),
                        (Some(w), Some(h), RefreshRate::Millihertz(millihertz)) if w > 0 && h
                            > 0 => Ok(
                            OutputMode {
                                width: w as i32,
                                height: h as i32,
                                refresh_millihz: millihertz,
                            },
                        ),
                        _ => Err("mode dimensions and refresh rate must be positive"@),
                    }
                },
            }
        },
    }
}

/// The refresh rate of a mode as it is written: what follows the first `@`.
pub fn refresh_text(value: &str) -> (refresh: Option<String>)
    ensures
        text::option(refresh) == (match text::first_index(value@, '@', 0) {
            Some(at) => Some(value@.skip(at + 1)),
            None => None,
        }),
{
    let chars = text::chars_of(value);
    match text::find_char(&chars, '@') {
        Some(at) => {
            let count: usize = chars.len();
            let rest = text::slice_of(&chars, at + 1, count);
            assert(rest@ =~= value@.skip(at + 1));
            Some(text::string_of(&rest))
        },
        None => None,
    }
}

/// Reads a mode that is written as width, height and refresh rate.
pub fn parse_output_mode(value: &str, refresh: RefreshRate) -> (r: Result<OutputMode, String>)
    ensures
        match (r, mode_meaning(value@, refresh)) {
            (Ok(mode), Ok(expected)) => mode == expected,
            (Err(message), Err(expected)) => message@ == expected,
            _ => false,
        },
{
    let chars = text::chars_of(value);
    let at: usize = match text::find_char(&chars, '@') {
        Some(at) => at,
        None => {
            return Err(text::join3("mode must use WIDTHxHEIGHT@REFRESH, got '", value, "'"));
        },
    };
    let resolution = text::slice_of(&chars, 0, at);
    assert(resolution@ =~= value@.take(at as int));
    let cross: usize = match text::find_char(&resolution, 'x') {
        Some(cross) => cross,
        None => {
            return Err(text::join3("mode must use WIDTHxHEIGHT@REFRESH, got '", value, "'"));
        },
    };
    let before = text::slice_of(&resolution, 0, cross);
    let after = text::slice_of(&resolution, cross + 1, resolution.len());
    assert(before@ =~= resolution@.take(cross as int));
    assert(after@ =~= resolution@.skip(cross + 1));
    let width: i32 = match text::parse_i32(&before) {
        Some(width) => width,
        None => {
            return Err("invalid mode width".to_owned());
        },
    };
    let height: i32 = match text::parse_i32(&after) {
        Some(height) => height,
        None => {
            return Err("invalid mode height".to_owned());
        },
    };
    match refresh {
        RefreshRate::Unreadable => Err("invalid refresh rate".to_owned()),
        RefreshRate::Unusable => Err(
            "mode dimensions and refresh rate must be positive".to_owned(),
        ),
        RefreshRate::Millihertz(refresh_millihz) => if width <= 0 || height <= 0 {
            Err("mode dimensions and refresh rate must be positive".to_owned())
        } else {
            Ok(OutputMode { width, height, refresh_millihz })
        },
    }
}

/// What a transform that is written out means.
pub open spec fn transform_meaning(value: Seq<char>) -> Result<OutputTransform, Seq<char>> {
    if value == "normal"@ {
        Ok(OutputTransform::Normal)
    } else if value == "90"@ {
        Ok(OutputTransform::Rotate90)
    } else if value == "180"@ {
        Ok(OutputTransform::Rotate180)
    } else if value == "270"@ {
        Ok(OutputTransform::Rotate270)
    } else if value == "flipped"@ {
        Ok(OutputTransform::Flipped)
    } else if value == "flipped-90"@ {
        Ok(OutputTransform::Flipped90)
    } else if value == "flipped-180"@ {
        Ok(OutputTransform::Flipped180)
    } else if value == "flipped-270"@ {
        Ok(OutputTransform::Flipped270)
    } else {
        Err("invalid output transform '"@ + value + "'"@)
    }
}

impl OutputConfig {
    /// The configured mode.
    pub fn parsed_mode(&self) -> (r: Result<Option<OutputMode>, String>)
        ensures
            match self.mode {
                None => r matches Ok(mode) && mode is None,
                Some(setting) => match (r, mode_meaning(setting.text@, setting.refresh)) {
                    (Ok(mode), Ok(expected)) => mode == Some(expected),
                    (Err(message), Err(expected)) => message@ == expected,
                    _ => false,
                },
            },
    {
        match &self.mode {
            None => Ok(None),
            Some(setting) => match parse_output_mode(setting.text.as_str(), setting.refresh) {
                Ok(mode) => Ok(Some(mode)),
                Err(message) => Err(message),
            },
        }
    }

    /// The configured transform.
    pub fn parsed_transform(&self) -> (r: Result<Option<OutputTransform>, String>)
        ensures
            match self.transform {
                None => r matches Ok(transform) && transform is None,
                Some(value) => match (r, transform_meaning(value@)) {
                    (Ok(transform), Ok(expected)) => transform == Some(expected),
                    (Err(message), Err(expected)) => message@ == expected,
                    _ => false,
                },
            },
    {
        let value = match &self.transform {
            None => {
                return Ok(None);
            },
            Some(value) => value.as_str(),
        };
        let transform = if text::text_eq(value, "normal") {
            OutputTransform::Normal
        } else if text::text_eq(value, "90") {
            OutputTransform::Rotate90
        } else if text::text_eq(value, "180") {
            OutputTransform::Rotate180
        } else if text::text_eq(value, "270") {
            OutputTransform::Rotate270
        } else if text::text_eq(value, "flipped") {
            OutputTransform::Flipped
        } else if text::text_eq(value, "flipped-90") {
            OutputTransform::Flipped90
        } else if text::text_eq(value, "flipped-180") {
            OutputTransform::Flipped180
        } else if text::text_eq(value, "flipped-270") {
            OutputTransform::Flipped270
        } else {
            return Err(text::join3("invalid output transform '", value, "'"));
        };
        Ok(Some(transform))
    }

    /// What is wrong with the settings of the output, if anything.
    pub open spec fn fault(self, name: Seq<char>) -> Option<Seq<char>> {
        if self.mode is Some && mode_meaning(self.mode->0.text@, self.mode->0.refresh) is Err {
            Some("invalid mode for output "@ + name)
        } else if self.transform is Some && transform_meaning(self.transform->0@) is Err {
            Some("invalid transform for output "@ + name)
        } else if self.scale is Some && !(self.scale->0.finite() && self.scale->0.rank() > 0) {
            Some("output "@ + name + " has an invalid scale"@)
        } else {
            None
        }
    }

    /// Checks the settings of the output.
    pub fn validate(&self, name: &str) -> (r: Result<(), String>)
        ensures
            told(r, self.fault(name@)),
    {
        if self.parsed_mode().is_err() {
            return Err(text::join2("invalid mode for output ", name));
        }
        if self.parsed_transform().is_err() {
            return Err(text::join2("invalid transform for output ", name));
        }
        if let Some(scale) = self.scale {
            if !scale.is_finite() || !scale.is_positive() {
                return Err(text::join3("output ", name, " has an invalid scale"));
            }
        }
        Ok(())
    }
}

impl BindingConfig {
    /// The keys as they are written together.
    pub open spec fn written(self) -> Seq<char> {
        text::joined(text::strings(self.keys@), "+"@)
    }

    /// The keys as they are written together.
    pub fn accelerator(&self) -> (r: String)
        ensures
            r@ == self.written(),
    {
        text::join(&self.keys, "+")
    }

    /// One of the keys is missing.
    pub open spec fn lacks_keys(self) -> bool {
        self.keys@.len() == 0 || exists|i: int|
            0 <= i < self.keys@.len() && text::blank((#[trigger] self.keys@[i])@)
    }

    /// What is wrong with the action of the `index`-th binding, if anything.
    pub open spec fn action_fault(self, index: nat) -> Option<Seq<char>> {
        match (self.action, self.command, self.value) {
            (Some(_), Some(_), _) => Some(
                text::numbered("binding #"@, index, " cannot specify both action and exec"@),
            ),
            (None, None, _) => Some(
                text::numbered("binding #"@, index, " requires action or exec"@),
            ),
            (None, Some(command), value) => if value is None && !text::blank(command@) {
                None
            } else {
                Some(text::numbered("binding #"@, index, " has an invalid exec command"@))
            },
            (Some(action), None, value) => if (action@ == "close"@ && value is None) || ((
            action@ == "workspace"@ || action@ == "move-to-workspace"@) && value is Some && value->0
                > 0) {
                None
            } else {
                Some(
                    text::numbered("binding #"@, index, " has invalid action '"@) + action@
                        + "' or value; supported actions are close, workspace, and move-to-workspace"@,
                )
            },
        }
    }

    /// What is wrong with the `index`-th binding, if anything.
    pub open spec fn fault(self, index: nat) -> Option<Seq<char>> {
        if self.lacks_keys() {
            Some(
                text::numbered(
                    "binding #"@,
                    index,
                    " must contain at least one non-empty key"@,
                ),
            )
        } else {
            match shortcuts::accelerator_meaning(self.written()) {
                Err(message) => Some(text::numbered("binding #"@, index, ": "@) + message),
                Ok(_) => self.action_fault(index),
            }
        }
    }

    fn is_lacking_keys(&self) -> (r: bool)
        ensures
            r == self.lacks_keys(),
    {
        if self.keys.len() == 0 {
            return true;
        }
        for i in 0..self.keys.len()
            invariant
                self.keys@.len() > 0,
                forall|j: int| 0 <= j < i ==> !text::blank((#[trigger] self.keys@[j])@),
        {
            if text::is_blank(self.keys[i].as_str()) {
                assert(text::blank(self.keys@[i as int]@));
                return true;
            }
        }
        false
    }

    fn validate_action(&self, index: usize) -> (r: Result<(), String>)
        ensures
            told(r, self.action_fault(index as nat)),
    {
        match (&self.action, &self.command) {
            (Some(_), Some(_)) => Err(
                text::numbered_text(
                    "binding #",
                    index as u64,
                    " cannot specify both action and exec",
                ),
            ),
            (None, None) => Err(
                text::numbered_text("binding #", index as u64, " requires action or exec"),
            ),
            (None, Some(command)) => if self.value.is_none() && !text::is_blank(
                command.as_str(),
            ) {
                Ok(())
            } else {
                Err(
                    text::numbered_text(
                        "binding #",
                        index as u64,
                        " has an invalid exec command",
                    ),
                )
            },
            (Some(action), None) => {
                let name = action.as_str();
                let usable = match self.value {
                    None => text::text_eq(name, "close"),
                    Some(value) => value > 0 && (text::text_eq(name, "workspace")
                        || text::text_eq(name, "move-to-workspace")),
                };
                proof {
                    reveal_strlit("close");
                    reveal_strlit("workspace");
                    reveal_strlit("move-to-workspace");
                }
                if usable {
                    Ok(())
                } else {
                    let start = text::numbered_text(
                        "binding #",
                        index as u64,
                        " has invalid action '",
                    );
                    Err(
                        text::join3(
                            start.as_str(),
                            name,
                            "' or value; supported actions are close, workspace, and move-to-workspace",
                        ),
                    )
                }
            },
        }
    }

    /// Checks the `index`-th binding.
    pub fn validate(&self, index: usize) -> (r: Result<(), String>)
        ensures
            told(r, self.fault(index as nat)),
    {
        if self.is_lacking_keys() {
            return Err(
                text::numbered_text(
                    "binding #",
                    index as u64,
                    " must contain at least one non-empty key",
                ),
            );
        }
        let accelerator = self.accelerator();
        match shortcuts::validate_accelerator(accelerator.as_str()) {
            Err(message) => {
                let start = text::numbered_text("binding #", index as u64, ": ");
                Err(text::join2(start.as_str(), message.as_str()))
            },
            Ok(_) => self.validate_action(index),
        }
    }
}

impl WindowRuleConfig {
    /// Nothing says which windows the rule is for.
    pub open spec fn selects_nothing(self) -> bool {
        &&& self.app_id is None
        &&& self.title is None
        &&& self.class is None
        &&& self.regex is None
        &&& self.role is None
        &&& self.window_type is None
    }

    /// What is wrong with the `index`-th rule, if anything.
    pub open spec fn fault(self, index: nat) -> Option<Seq<char>> {
        self.fault_given(index, self.regex is Some ==> regexes::regex_compiles(self.regex->0@))
    }

    /// Checks the `index`-th rule.
    pub fn validate(&self, index: usize) -> (r: Result<(), String>)
        ensures
            told(r, self.fault(index as nat)),
    {
        let compiles = match &self.regex {
            Some(pattern) => regexes::compiles(pattern.as_str()),
            None => true,
        };
        self.validate_with(index, compiles)
    }

    /// What is wrong with the `index`-th rule, given whether its regular
    /// expression, if it has one, is valid.
    pub open spec fn fault_given(self, index: nat, compiles: bool) -> Option<Seq<char>> {
        if self.selects_nothing() {
            Some(text::numbered("rule #"@, index, " requires at least one match field"@))
        } else if self.regex is Some && !compiles {
            Some(text::numbered("rule #"@, index, " has an invalid regex"@))
        } else if self.floating == Some(true) && self.tiled == Some(true) {
            Some(text::numbered("rule #"@, index, " cannot be both floating and tiled"@))
        } else if self.size is Some && (self.size->0@[0] <= 0 || self.size->0@[1] <= 0) {
            Some(text::numbered("rule #"@, index, " size must be positive"@))
        } else if self.opacity is Some && !self.opacity->0.is_fraction() {
            Some(text::numbered("rule #"@, index, " opacity must be between 0.0 and 1.0"@))
        } else if text::present_but_blank(self.app_id) || text::present_but_blank(self.title)
            || text::present_but_blank(self.class) || text::present_but_blank(self.role)
            || text::present_but_blank(self.window_type) {
            Some(text::numbered("rule #"@, index, " has an empty match value"@))
        } else {
            None
        }
    }

    /// Checks the `index`-th rule, given whether its regular expression, if
    /// it has one, is valid.
    pub fn validate_with(&self, index: usize, compiles: bool) -> (r: Result<(), String>)
        ensures
            told(r, self.fault_given(index as nat, compiles)),
    {
        let n: u64 = index as u64;
        if self.app_id.is_none() && self.title.is_none() && self.class.is_none()
            && self.regex.is_none() && self.role.is_none() && self.window_type.is_none() {
            return Err(text::numbered_text("rule #", n, " requires at least one match field"));
        }
        if self.regex.is_some() && !compiles {
            return Err(text::numbered_text("rule #", n, " has an invalid regex"));
        }
        if self.floating == Some(true) && self.tiled == Some(true) {
            return Err(text::numbered_text("rule #", n, " cannot be both floating and tiled"));
        }
        if let Some(size) = self.size {
            if size[0] <= 0 || size[1] <= 0 {
                return Err(text::numbered_text("rule #", n, " size must be positive"));
            }
        }
        if let Some(opacity) = self.opacity {
            if !opacity.within_unit() {
                return Err(
                    text::numbered_text("rule #", n, " opacity must be between 0.0 and 1.0"),
                );
            }
        }
        if text::is_present_but_blank(&self.app_id) || text::is_present_but_blank(&self.title)
            || text::is_present_but_blank(&self.class) || text::is_present_but_blank(&self.role)
            || text::is_present_but_blank(&self.window_type) {
            return Err(text::numbered_text("rule #", n, " has an empty match value"));
        }
        Ok(())
    }
}

impl WindowConfig {
    /// What is wrong with the settings, if anything.
    pub open spec fn fault(self) -> Option<Seq<char>> {
        if self.default_width <= 0 || self.default_height <= 0 {
            Some("window default size must be positive"@)
        } else if !(0 <= self.work_area_padding <= 512) || !(0 <= self.gap <= 512) {
            Some("window padding and gap must be between 0 and 512"@)
        } else if !((Real64 { bits: reals::TENTH }).at_most(self.master_ratio)
            && self.master_ratio.at_most(Real64 { bits: reals::NINE_TENTHS })) {
            Some("window master_ratio must be between 0.1 and 0.9"@)
        } else {
            None
        }
    }

    /// Checks the settings.
    pub fn validate(&self) -> (r: Result<(), String>)
        ensures
            told(r, self.fault()),
    {
        if self.default_width <= 0 || self.default_height <= 0 {
            return Err("window default size must be positive".to_owned());
        }
        if self.work_area_padding < 0 || self.work_area_padding > 512 || self.gap < 0 || self.gap
            > 512 {
            return Err("window padding and gap must be between 0 and 512".to_owned());
        }
        let least = Real64 { bits: reals::TENTH };
        let most = Real64 { bits: reals::NINE_TENTHS };
        if !(least.le(self.master_ratio) && self.master_ratio.le(most)) {
            return Err("window master_ratio must be between 0.1 and 0.9".to_owned());
        }
        Ok(())
    }
}

/// A color channel: two hexadecimal digits, or a plus sign and one digit.
pub open spec fn channel(hex: Seq<char>, from: int) -> Option<u8> {
    if from + 2 > hex.len() {
        None
    } else {
        match (text::hex_digit(hex[from]), text::hex_digit(hex[from + 1])) {
            (Some(high), Some(low)) => Some((16 * high + low) as u8),
            (None, Some(low)) if hex[from] == '+' => Some(low),
            _ => None,
        }
    }
}

/// A text without the number signs that it begins with.
pub open spec fn without_marks(hex: Seq<char>) -> Seq<char>
    decreases hex.len(),
{
    if hex.len() > 0 && hex[0] == '#' {
        without_marks(hex.skip(1))
    } else {
        hex
    }
}

/// The color that a text names: red, green, blue and, unless it is opaque,
/// alpha. Opaque black stands for what names no color.
pub open spec fn color(hex: Seq<char>) -> Seq<u8> {
    let digits = without_marks(hex);
    match (channel(digits, 0), channel(digits, 2), channel(digits, 4)) {
        (Some(r), Some(g), Some(b)) => seq![
            r,
            g,
            b,
            match channel(digits, 6) {
                Some(a) => a,
                None => 0xffu8,
            },
        ],
        _ => seq![0u8, 0u8, 0u8, 0xffu8],
    }
}

fn read_channel(hex: &[char], from: usize) -> (value: Option<u8>)
    requires
        from <= 6,
    ensures
        value == channel(hex@, from as int),
{
    if hex.len() < from + 2 {
        return None;
    }
    match (text::hex_value(hex[from]), text::hex_value(hex[from + 1])) {
        (Some(high), Some(low)) => Some(16 * high + low),
        (None, Some(low)) => if hex[from] == '+' {
            Some(low)
        } else {
            None
        },
        _ => None,
    }
}

/// Reads a color.
pub fn parse_color(hex: &str) -> (r: [u8; 4])
    ensures
        r@ == color(hex@),
{
    let mut digits = text::chars_of(hex);
    while digits.len() > 0 && digits[0] == '#'
        invariant
            without_marks(digits@) == without_marks(hex@),
        decreases digits@.len(),
    {
        let rest = text::slice_of(&digits, 1, digits.len());
        assert(rest@ =~= digits@.skip(1));
        digits = rest;
    }
    match (read_channel(&digits, 0), read_channel(&digits, 2), read_channel(&digits, 4)) {
        (Some(r), Some(g), Some(b)) => {
            let a: u8 = match read_channel(&digits, 6) {
                Some(a) => a,
                None => 0xff,
            };
            let color = [r, g, b, a];
            assert(color@ =~= self::color(hex@));
            color
        },
        _ => {
            let color = [0u8, 0, 0, 0xff];
            assert(color@ =~= self::color(hex@));
            color
        },
    }
}

/// Every button is there at most once.
pub open spec fn distinct(buttons: Seq<DecorationButton>) -> bool {
    forall|i: int, j: int| 0 <= i < j < buttons.len() ==> buttons[i] != buttons[j]
}

fn are_distinct(buttons: &Vec<DecorationButton>) -> (r: bool)
    ensures
        r == distinct(buttons@),
{
    for j in 0..buttons.len()
        invariant
            distinct(buttons@.take(j as int)),
    {
        let ghost before = buttons@.take(j as int);
        for i in 0..j
            invariant
                j < buttons@.len(),
                forall|k: int| 0 <= k < i ==> buttons@[k] != buttons@[j as int],
        {
            if buttons[i] == buttons[j] {
                return false;
            }
        }
        let ghost after = buttons@.take(j + 1);
        assert forall|a: int, b: int| 0 <= a < b < after.len() implies after[a] != after[b] by {
            if b < j {
                assert(before[a] != before[b]);
            }
        }
    }
    assert(buttons@.take(buttons@.len() as int) =~= buttons@);
    true
}

impl DecorationConfig {
    /// What is wrong with the settings, if anything.
    pub open spec fn fault(self) -> Option<Seq<char>> {
        if !(0 <= self.border_width <= 16) || !(0 <= self.corner_radius <= 64) || !(0
            <= self.titlebar_height <= 96) {
            Some("invalid decoration dimensions"@)
        } else if !distinct(self.buttons.layout@) {
            Some("decoration button layout contains duplicates"@)
        } else {
            None
        }
    }

    /// Checks the settings.
    pub fn validate(&self) -> (r: Result<(), String>)
        ensures
            told(r, self.fault()),
    {
        if self.border_width < 0 || self.border_width > 16 || self.corner_radius < 0
            || self.corner_radius > 64 || self.titlebar_height < 0 || self.titlebar_height > 96 {
            return Err("invalid decoration dimensions".to_owned());
        }
        if !are_distinct(&self.buttons.layout) {
            return Err("decoration button layout contains duplicates".to_owned());
        }
        Ok(())
    }

    /// The theme holds the sizes, the buttons and the colors that are named.
    pub open spec fn themed(self, theme: DecorationTheme) -> bool {
        &&& theme.titlebar_height == self.titlebar_height
        &&& theme.border_width == self.border_width
        &&& theme.corner_radius == self.corner_radius
        &&& theme.titlebar_mode == TitlebarColorMode::Theme
        &&& theme.active_titlebar@ == color(self.active_titlebar@)
        &&& theme.inactive_titlebar@ == color(self.inactive_titlebar@)
        &&& theme.active_border@ == color(self.active_border@)
        &&& theme.inactive_border@ == color(self.inactive_border@)
        &&& theme.close_button@ == color(self.close_button@)
        &&& theme.maximize_button@ == color(self.maximize_button@)
        &&& theme.minimize_button@ == color(self.minimize_button@)
        &&& theme.button_layout@ == self.buttons.layout@
        &&& theme.button_side == self.buttons.side
        &&& !theme.title_centered
        &&& theme.show_icon
        &&& theme.drag_margin == 0
    }

    /// Resolves the settings.
    pub fn to_theme(&self) -> (theme: DecorationTheme)
        ensures
            self.themed(theme),
    {
        let mut button_layout: Vec<DecorationButton> = Vec::new();
        for i in 0..self.buttons.layout.len()
            invariant
                button_layout@ == self.buttons.layout@.take(i as int),
        {
            button_layout.push(self.buttons.layout[i]);
            assert(self.buttons.layout@.take(i as int).push(self.buttons.layout@[i as int])
                =~= self.buttons.layout@.take(i + 1));
        }
        assert(self.buttons.layout@.take(self.buttons.layout@.len() as int)
            =~= self.buttons.layout@);
        DecorationTheme {
            titlebar_height: self.titlebar_height,
            border_width: self.border_width,
            corner_radius: self.corner_radius,
            titlebar_mode: TitlebarColorMode::Theme,
            active_titlebar: parse_color(self.active_titlebar.as_str()),
            inactive_titlebar: parse_color(self.inactive_titlebar.as_str()),
            active_border: parse_color(self.active_border.as_str()),
            inactive_border: parse_color(self.inactive_border.as_str()),
            close_button: parse_color(self.close_button.as_str()),
            maximize_button: parse_color(self.maximize_button.as_str()),
            minimize_button: parse_color(self.minimize_button.as_str()),
            button_layout,
            button_side: self.buttons.side,
            title_centered: false,
            show_icon: true,
            drag_margin: 0,
        }
    }
}

/// The first fault of the bindings from `from` on.
pub open spec fn bindings_fault(bindings: Seq<BindingConfig>, from: int) -> Option<Seq<char>>
    decreases bindings.len() - from,
{
    if from < 0 || from >= bindings.len() {
        None
    } else if bindings[from].fault((from + 1) as nat) is Some {
        bindings[from].fault((from + 1) as nat)
    } else {
        bindings_fault(bindings, from + 1)
    }
}

/// The first fault of the rules from `from` on.
pub open spec fn rules_fault(rules: Seq<WindowRuleConfig>, from: int) -> Option<Seq<char>>
    decreases rules.len() - from,
{
    if from < 0 || from >= rules.len() {
        None
    } else if rules[from].fault((from + 1) as nat) is Some {
        rules[from].fault((from + 1) as nat)
    } else {
        rules_fault(rules, from + 1)
    }
}

/// The first fault of what is started from `from` on.
pub open spec fn autostart_fault(entries: Seq<AutostartConfig>, from: int) -> Option<Seq<char>>
    decreases entries.len() - from,
{
    if from < 0 || from >= entries.len() {
        None
    } else if entries[from].fault((from + 1) as nat) is Some {
        entries[from].fault((from + 1) as nat)
    } else {
        autostart_fault(entries, from + 1)
    }
}

/// The first fault of the outputs from `from` on.
pub open spec fn outputs_fault(outputs: Seq<NamedOutput>, from: int) -> Option<Seq<char>>
    decreases outputs.len() - from,
{
    if from < 0 || from >= outputs.len() {
        None
    } else if outputs[from].config.fault(outputs[from].name@) is Some {
        outputs[from].config.fault(outputs[from].name@)
    } else {
        outputs_fault(outputs, from + 1)
    }
}

impl CompositorConfig {
    /// The first fault of what is listed.
    pub open spec fn list_fault(self) -> Option<Seq<char>> {
        if bindings_fault(self.bindings@, 0) is Some {
            bindings_fault(self.bindings@, 0)
        } else if rules_fault(self.rules@, 0) is Some {
            rules_fault(self.rules@, 0)
        } else if autostart_fault(self.autostart@, 0) is Some {
            autostart_fault(self.autostart@, 0)
        } else {
            outputs_fault(self.outputs@, 0)
        }
    }

    /// What is wrong with the configuration, if anything: the first fault of
    /// bindings, rules, autostart, outputs, input, workspaces, windows,
    /// decorations, animations and cursor.
    pub open spec fn fault(self) -> Option<Seq<char>> {
        if self.list_fault() is Some {
            self.list_fault()
        } else if self.input.fault() is Some {
            self.input.fault()
        } else if self.workspaces.fault() is Some {
            self.workspaces.fault()
        } else if self.window.fault() is Some {
            self.window.fault()
        } else if self.decorations.fault() is Some {
            self.decorations.fault()
        } else if self.animations.fault() is Some {
            self.animations.fault()
        } else {
            self.cursor.fault()
        }
    }
}

fn validate_bindings(config: &CompositorConfig) -> (r: Result<(), String>)
    ensures
        told(r, bindings_fault(config.bindings@, 0)),
{
    let mut i: usize = 0;
    while i < config.bindings.len()
        invariant
            i <= config.bindings@.len(),
            bindings_fault(config.bindings@, 0) == bindings_fault(config.bindings@, i as int),
        decreases config.bindings@.len() - i,
    {
        match config.bindings[i].validate(i + 1) {
            Ok(_) => {},
            Err(message) => {
                return Err(message);
            },
        }
        i = i + 1;
    }
    Ok(())
}

fn validate_rules(config: &CompositorConfig) -> (r: Result<(), String>)
    ensures
        told(r, rules_fault(config.rules@, 0)),
{
    let mut i: usize = 0;
    while i < config.rules.len()
        invariant
            i <= config.rules@.len(),
            rules_fault(config.rules@, 0) == rules_fault(config.rules@, i as int),
        decreases config.rules@.len() - i,
    {
        match config.rules[i].validate(i + 1) {
            Ok(_) => {},
            Err(message) => {
                return Err(message);
            },
        }
        i = i + 1;
    }
    Ok(())
}

fn validate_autostart(config: &CompositorConfig) -> (r: Result<(), String>)
    ensures
        told(r, autostart_fault(config.autostart@, 0)),
{
    let mut i: usize = 0;
    while i < config.autostart.len()
        invariant
            i <= config.autostart@.len(),
            autostart_fault(config.autostart@, 0) == autostart_fault(config.autostart@, i as int),
        decreases config.autostart@.len() - i,
    {
        match config.autostart[i].validate(i + 1) {
            Ok(_) => {},
            Err(message) => {
                return Err(message);
            },
        }
        i = i + 1;
    }
    Ok(())
}

fn validate_outputs(config: &CompositorConfig) -> (r: Result<(), String>)
    ensures
        told(r, outputs_fault(config.outputs@, 0)),
{
    let mut i: usize = 0;
    while i < config.outputs.len()
        invariant
            i <= config.outputs@.len(),
            outputs_fault(config.outputs@, 0) == outputs_fault(config.outputs@, i as int),
        decreases config.outputs@.len() - i,
    {
        match config.outputs[i].config.validate(config.outputs[i].name.as_str()) {
            Ok(_) => {},
            Err(message) => {
                return Err(message);
            },
        }
        i = i + 1;
    }
    Ok(())
}

fn validate_lists(config: &CompositorConfig) -> (r: Result<(), String>)
    ensures
        told(r, config.list_fault()),
{
    if let Err(message) = validate_bindings(config) {
        return Err(message);
    }
    if let Err(message) = validate_rules(config) {
        return Err(message);
    }
    if let Err(message) = validate_autostart(config) {
        return Err(message);
    }
    validate_outputs(config)
}

/// Checks a configuration before it is kept or applied.
pub fn validate(config: &CompositorConfig) -> (r: Result<(), String>)
    ensures
        told(r, config.fault()),
{
    if let Err(message) = validate_lists(config) {
        return Err(message);
    }
    if let Err(message) = config.input.validate() {
        return Err(message);
    }
    if let Err(message) = config.workspaces.validate() {
        return Err(message);
    }
    if let Err(message) = config.window.validate() {
        return Err(message);
    }
    if let Err(message) = config.decorations.validate() {
        return Err(message);
    }
    if let Err(message) = config.animations.validate() {
        return Err(message);
    }
    config.cursor.validate()
}

/// Why a layer is refused: its number, from the first one on, and what is
/// wrong with the configuration once it is on top.
#[derive(Debug)]
pub struct LayerFault {
    pub layer: usize,
    pub complaint: String,
}

/// Checks every layer of a configuration before it is applied. `stages` are
/// the defaults with the first layer on top, then with the second one on top
/// of that, and so on. A layer that breaks a rule is refused, also where a
/// later one would put it right.
pub fn accept_layers(defaults: CompositorConfig, stages: Vec<CompositorConfig>) -> (r: Result<
    CompositorConfig,
    LayerFault,
>)
    requires
        defaults.fault() is None,
    ensures
        match r {
            Ok(config) => {
                &&& forall|i: int|
                    0 <= i < stages@.len() ==> (#[trigger] stages@[i]).fault() is None
                &&& config == (if stages@.len() > 0 {
                    stages@.last()
                } else {
                    defaults
                })
                &&& config.fault() is None
            },
            Err(fault) => {
                &&& fault.layer < stages@.len()
                &&& stages@[fault.layer as int].fault() == Some(fault.complaint@)
                &&& forall|i: int|
                    0 <= i < fault.layer ==> (#[trigger] stages@[i]).fault() is None
            },
        },
{
    let mut left = stages;
    for layer in 0..left.len()
        invariant
            left@ == stages@,
            forall|i: int| 0 <= i < layer ==> (#[trigger] stages@[i]).fault() is None,
    {
        if let Err(complaint) = validate(&left[layer]) {
            return Err(LayerFault { layer, complaint });
        }
    }
    match left.pop() {
        Some(config) => Ok(config),
        None => Ok(defaults),
    }
}

} // verus!
