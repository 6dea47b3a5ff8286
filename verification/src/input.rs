//! What keys and clicks do.

use vstd::prelude::*;

use std::collections::HashSet;

use crate::desktop::Desktop;
use crate::frame::DecorationFrame;
use crate::frame;
use crate::geometry::{Point, Rect};
use crate::grabs::ResizeEdges;
use crate::grabs;
use crate::hit_test::DecorationPart;
use crate::hit_test;
use crate::model::{DesktopModel, Effect, FocusTarget, Layer, WindowId, WindowLayout};
use crate::shortcuts::{
    ActivatedShortcut, PhysicalMods, RegistryModel, ShortcutMods, ShortcutRegistry,
};
use crate::shortcuts;
use crate::theme::DecorationTheme;

verus! {

broadcast use vstd::std_specs::hash::group_hash_axioms;

/// The left mouse button.
pub const BTN_LEFT: u32 = 0x110;

/// The right mouse button.
pub const BTN_RIGHT: u32 = 0x111;

/// The symbol of the key that switches to the first terminal.
pub const FIRST_VT_SYM: u32 = 0x1008_fe01;

/// The symbol of the key that switches to the twelfth terminal.
pub const LAST_VT_SYM: u32 = 0x1008_fe0c;

/// The symbol of the escape key.
pub const ESCAPE_SYM: u32 = 0xff1b;

/// What becomes of a key.
#[derive(Debug)]
pub enum KeyAction {
    /// The client gets it.
    Forward,
    /// Nobody gets it.
    Suppress,
    ChangeVt(i32),
    Exit,
    Shortcuts(Vec<ActivatedShortcut>),
}

/// What becomes of a key, as contracts see it.
pub enum KeyModel {
    Forward,
    Suppress,
    ChangeVt(i32),
    Exit,
    Shortcuts(Seq<ActivatedShortcut>),
}

impl View for KeyAction {
    type V = KeyModel;

    open spec fn view(&self) -> KeyModel {
        match *self {
            KeyAction::Forward => KeyModel::Forward,
            KeyAction::Suppress => KeyModel::Suppress,
            KeyAction::ChangeVt(vt) => KeyModel::ChangeVt(vt),
            KeyAction::Exit => KeyModel::Exit,
            KeyAction::Shortcuts(shortcuts) => KeyModel::Shortcuts(shortcuts@),
        }
    }
}

/// The modifiers that are held, and the keys whose release clients must not
/// see because they did not see the press.
#[derive(Debug)]
pub struct KeyFilter {
    pub mods: PhysicalMods,
    pub suppressed: HashSet<u32>,
}

/// The key filter as contracts see it.
#[verifier::ext_equal]
pub struct FilterModel {
    pub mods: ShortcutMods,
    pub suppressed: Set<u32>,
}

impl View for KeyFilter {
    type V = FilterModel;

    open spec fn view(&self) -> FilterModel {
        FilterModel { mods: self.mods, suppressed: self.suppressed@ }
    }
}

/// The terminal that a pressed key asks for.
pub open spec fn terminal(mods: ShortcutMods, key: u32, sym: u32) -> Option<i32> {
    if FIRST_VT_SYM <= sym <= LAST_VT_SYM {
        Some((sym - FIRST_VT_SYM + 1) as i32)
    } else if mods.ctrl && mods.alt {
        shortcuts::vt_of(key)
    } else {
        None
    }
}

impl FilterModel {
    /// What becomes of a key. `sym` is the symbol it stands for, `activated`
    /// the shortcuts it completes, `inhibited` says whether the client takes
    /// over shortcuts, and `emergency` whether the exit shortcut is there.
    pub open spec fn decide(
        self,
        key: u32,
        pressed: bool,
        sym: u32,
        activated: Seq<ActivatedShortcut>,
        inhibited: bool,
        emergency: bool,
    ) -> (FilterModel, KeyModel) {
        if !pressed {
            if self.suppressed.contains(key) {
                (
                    FilterModel { suppressed: self.suppressed.remove(key), ..self },
                    KeyModel::Suppress,
                )
            } else {
                (self, KeyModel::Forward)
            }
        } else {
            let kept = FilterModel { suppressed: self.suppressed.insert(key), ..self };
            match terminal(self.mods, key, sym) {
                Some(vt) => (kept, KeyModel::ChangeVt(vt)),
                None => if emergency && self.mods.ctrl && self.mods.logo && sym == ESCAPE_SYM {
                    (kept, KeyModel::Exit)
                } else if activated.len() > 0 && !inhibited {
                    (kept, KeyModel::Shortcuts(activated))
                } else {
                    (self, KeyModel::Forward)
                },
            }
        }
    }
}

impl KeyFilter {
    /// No key is held.
    pub fn new() -> (r: Self)
        ensures
            r@ == (FilterModel { mods: shortcuts::no_mods(), suppressed: Set::empty() }),
    {
        KeyFilter { mods: ShortcutMods::default(), suppressed: HashSet::new() }
    }

    /// Follows a key and returns the shortcuts that it completes.
    pub fn follow(&mut self, registry: &mut ShortcutRegistry, key: u32, pressed: bool) -> (
    activated: Vec<ActivatedShortcut>)
        ensures
            final(self)@ == (FilterModel {
                mods: shortcuts::mods_after(old(self)@.mods, key, pressed),
                ..old(self)@
            }),
            ({
                let held = RegistryModel {
                    pressed: if pressed {
                        old(registry)@.pressed.insert(key)
                    } else {
                        old(registry)@.pressed.remove(key)
                    },
                    ..old(registry)@
                };
                &&& shortcuts::activated_names(activated@) == shortcuts::binding_names(
                    held.newly_held(final(self)@.mods),
                )
                &&& final(registry)@ == (RegistryModel {
                    active: held.held_names(final(self)@.mods),
                    ..held
                })
            }),
    {
        shortcuts::update_physical_mods(&mut self.mods, key, pressed);
        registry.update_key(key, pressed);
        registry.maybe_activate_physical(self.mods)
    }

    /// Decides what becomes of a key.
    pub fn decide(
        &mut self,
        key: u32,
        pressed: bool,
        sym: u32,
        activated: Vec<ActivatedShortcut>,
        inhibited: bool,
        emergency: bool,
    ) -> (action: KeyAction)
        ensures
            (final(self)@, action@) == old(self)@.decide(
                key,
                pressed,
                sym,
                activated@,
                inhibited,
                emergency,
            ),
    {
        if !pressed {
            let ghost before = self.suppressed@;
            if self.suppressed.contains(&key) {
                self.suppressed.remove(&key);
                return KeyAction::Suppress;
            }
            return KeyAction::Forward;
        }
        let vt = if FIRST_VT_SYM <= sym && sym <= LAST_VT_SYM {
            Some((sym - FIRST_VT_SYM + 1) as i32)
        } else if self.mods.ctrl && self.mods.alt {
            shortcuts::physical_vt_from_keycode(key)
        } else {
            None
        };
        let action = match vt {
            Some(vt) => KeyAction::ChangeVt(vt),
            None => if emergency && self.mods.ctrl && self.mods.logo && sym == ESCAPE_SYM {
                KeyAction::Exit
            } else if activated.len() > 0 && !inhibited {
                KeyAction::Shortcuts(activated)
            } else {
                return KeyAction::Forward;
            },
        };
        self.suppressed.insert(key);
        action
    }

    /// Forgets what is held, for when key events stop arriving.
    pub fn reset(&mut self, registry: &mut ShortcutRegistry)
        ensures
            final(self)@ == (FilterModel { mods: shortcuts::no_mods(), suppressed: Set::empty() }),
            final(registry)@ == (RegistryModel {
                pressed: Set::empty(),
                active: Set::empty(),
                ..old(registry)@
            }),
    {
        self.mods = ShortcutMods::default();
        registry.clear_pressed();
        self.suppressed.clear();
    }
}

/// A client sees the release of a key if and only if it saw its press: what
/// is kept from it when a key goes down is kept from it when it comes up.
pub proof fn clients_see_releases_of_what_they_saw_pressed(
    filter: FilterModel,
    key: u32,
    sym: u32,
    activated: Seq<ActivatedShortcut>,
    inhibited: bool,
    emergency: bool,
    later: FilterModel,
    release_sym: u32,
)
    requires
        !filter.suppressed.contains(key),
        later.suppressed.contains(key) == filter.decide(
            key,
            true,
            sym,
            activated,
            inhibited,
            emergency,
        ).0.suppressed.contains(key),
    ensures
        (filter.decide(key, true, sym, activated, inhibited, emergency).1 is Forward) == (
        later.decide(key, false, release_sym, Seq::empty(), inhibited, emergency).1 is Forward),
        !later.decide(
            key,
            false,
            release_sym,
            Seq::empty(),
            inhibited,
            emergency,
        ).0.suppressed.contains(key),
{
}

/// What the pointer may be on, to be tried in order.
#[derive(Debug, Clone, Copy, PartialEq, Eq, Structural)]
pub enum HitCandidate {
    Layer(Layer),
    Window(WindowId),
}

/// The windows as candidates, the topmost first.
pub open spec fn topmost_first(windows: Seq<WindowId>) -> Seq<HitCandidate> {
    windows.reverse().map_values(|id: WindowId| HitCandidate::Window(id))
}

/// The topmost window covers the output.
pub open spec fn covered(d: DesktopModel, output: int) -> bool {
    let windows = d.z_order(output);
    windows.len() > 0 && d.has(windows.last()) && d.window(windows.last()).fullscreen
}

/// What the pointer may be on: the layers above the windows, the windows, and
/// the layers below. A fullscreen window leaves only the overlay above it.
pub open spec fn candidates(d: DesktopModel, output: int) -> Seq<HitCandidate> {
    let windows = topmost_first(d.z_order(output));
    let overlay = HitCandidate::Layer(Layer::Overlay);
    if covered(d, output) {
        seq![overlay] + windows
    } else {
        seq![overlay, HitCandidate::Layer(Layer::Top)] + windows + seq![
            HitCandidate::Layer(Layer::Bottom),
            HitCandidate::Layer(Layer::Background),
        ]
    }
}

/// What the pointer may be on, to be tried in order.
pub fn hit_candidates(desktop: &Desktop, output: usize) -> (r: Vec<HitCandidate>)
    requires
        desktop@.wf(),
        output < desktop@.outputs.len(),
    ensures
        r@ == candidates(desktop@, output as int),
{
    let windows = desktop.z_ordered_windows(output);
    let count: usize = windows.len();
    let fullscreen = count > 0 && desktop.window_is_fullscreen(windows[count - 1]);
    let mut r: Vec<HitCandidate> = Vec::new();
    r.push(HitCandidate::Layer(Layer::Overlay));
    if !fullscreen {
        r.push(HitCandidate::Layer(Layer::Top));
    }
    let ghost above = r@;
    let ghost all = topmost_first(windows@);
    assert(above + all.take(0) =~= above);
    for i in 0..count
        invariant
            count == windows@.len(),
            all == topmost_first(windows@),
            r@ == above + all.take(i as int),
    {
        let id = windows[count - 1 - i];
        assert(all[i as int] == HitCandidate::Window(id));
        r.push(HitCandidate::Window(id));
        assert((above + all.take(i as int)).push(all[i as int]) =~= above + all.take(i + 1));
    }
    assert(all.take(count as int) =~= all);
    if !fullscreen {
        r.push(HitCandidate::Layer(Layer::Bottom));
        r.push(HitCandidate::Layer(Layer::Background));
    }
    assert(r@ =~= candidates(desktop@, output as int));
    r
}

/// Where a window and its decoration are.
#[derive(Debug, Clone, Copy, PartialEq, Eq, Structural)]
pub struct WindowFrame {
    pub client: Rect,
    pub frame: Rect,
    pub has_border: bool,
    pub has_titlebar: bool,
}

/// A decorated window has a titlebar unless windows are tiled.
pub open spec fn titled(d: DesktopModel, id: WindowId) -> bool {
    d.decorated(id) && d.settings.layout != WindowLayout::Tiling && !(d.has(id) && d.window(
        id,
    ).fullscreen)
}

/// Where a window that is on the desktop and its decoration are.
pub open spec fn framed(d: DesktopModel, id: WindowId, theme: DecorationTheme) -> Option<
    WindowFrame,
> {
    match (d.has(id), d.window(id).geometry()) {
        (true, Some(client)) => Some(
            WindowFrame {
                client,
                frame: if d.decorated(id) {
                    frame::frame_geometry(client, theme, titled(d, id)).frame
                } else {
                    client
                },
                has_border: d.decorated(id),
                has_titlebar: titled(d, id),
            },
        ),
        _ => None,
    }
}

/// The frame of a window fits into machine coordinates.
pub open spec fn frame_is_drawable(d: DesktopModel, id: WindowId, theme: DecorationTheme) -> bool {
    d.has(id) && d.window(id).geometry() is Some && d.decorated(id) ==> frame::frame_fits(
        d.window(id).geometry()->0,
        theme,
        titled(d, id),
    )
}

/// Where a window and its decoration are.
pub fn window_frame(desktop: &Desktop, id: WindowId, theme: &DecorationTheme) -> (r: Option<
    WindowFrame,
>)
    requires
        desktop@.wf(),
        frame_is_drawable(desktop@, id, *theme),
    ensures
        r == framed(desktop@, id, *theme),
{
    let window = match desktop.find(id) {
        Some(window) => window,
        None => {
            return None;
        },
    };
    let client = match window.place {
        Some(place) => Rect {
            x: place.x,
            y: place.y,
            width: window.size.w,
            height: window.size.h,
        },
        None => {
            return None;
        },
    };
    let has_border = desktop.window_has_server_decoration(id);
    let tiling = desktop.settings().layout == WindowLayout::Tiling;
    let has_titlebar = has_border && !tiling && !window.fullscreen;
    let frame = if has_border {
        DecorationFrame::compute(client, theme, has_titlebar).frame
    } else {
        client
    };
    Some(WindowFrame { client, frame, has_border, has_titlebar })
}

/// The part of a window that a position is on. `on_surface` says whether the
/// client has something there.
pub open spec fn part_under(
    f: WindowFrame,
    p: Point,
    theme: DecorationTheme,
    on_surface: bool,
) -> Option<DecorationPart> {
    if on_surface {
        Some(DecorationPart::Client)
    } else if f.has_border && f.frame.covers(p) {
        Some(
            hit_test::part_at(
                frame::frame_geometry(f.client, theme, f.has_titlebar),
                p,
                f.has_titlebar,
            ),
        )
    } else {
        None
    }
}

/// The part of a window that a position is on, if it is on the window.
pub fn window_target(
    window: WindowFrame,
    position: Point,
    theme: &DecorationTheme,
    on_surface: bool,
) -> (part: Option<DecorationPart>)
    requires
        window.has_border ==> frame::frame_fits(window.client, *theme, window.has_titlebar),
    ensures
        part == part_under(window, position, *theme, on_surface),
{
    if on_surface {
        return Some(DecorationPart::Client);
    }
    if !window.has_border || !window.frame.contains(position) {
        return None;
    }
    Some(hit_test::hit_test_frame(window.client, position, theme, window.has_titlebar))
}

/// What was clicked.
#[derive(Debug, Clone, Copy, PartialEq, Eq, Structural)]
pub enum PressTarget {
    Nothing,
    Layer { layer: u64, level: Layer, can_focus: bool },
    Window { id: WindowId, on_surface: bool, part: DecorationPart },
}

/// What becomes of a click.
#[derive(Debug, Clone, Copy, PartialEq, Eq, Structural)]
pub enum PressOutcome {
    /// The client gets it.
    Forward,
    /// Nobody gets it.
    Consumed,
    /// The window is moved with the pointer, if that is possible.
    Move,
    /// The window is resized with the pointer, if that is possible.
    Resize(ResizeEdges),
}

/// The position is in this quarter of a window.
pub open spec fn quarter(d: DesktopModel, id: WindowId, p: Point) -> ResizeEdges {
    match d.window(id).geometry() {
        Some(geometry) => grabs::quadrant(geometry, p),
        None => grabs::quadrant(crate::geometry::empty_rect(), p),
    }
}

/// What a click on a window does once the window has the focus.
pub open spec fn window_press(
    d: DesktopModel,
    id: WindowId,
    on_surface: bool,
    part: DecorationPart,
    button: u32,
    logo: bool,
    p: Point,
) -> (DesktopModel, PressOutcome) {
    if logo && on_surface {
        if button == BTN_LEFT {
            (d, PressOutcome::Move)
        } else if button == BTN_RIGHT {
            (d, PressOutcome::Resize(quarter(d, id, p)))
        } else {
            (d, PressOutcome::Forward)
        }
    } else if on_surface || button != BTN_LEFT || d.settings.layout == WindowLayout::Tiling {
        (d, PressOutcome::Forward)
    } else {
        match part {
            DecorationPart::CloseButton => (d.emit(Effect::SendClose { id }), PressOutcome::Consumed),
            DecorationPart::MinimizeButton => {
                let (next, done) = d.minimize(id);
                (
                    next,
                    if done {
                        PressOutcome::Consumed
                    } else {
                        PressOutcome::Forward
                    },
                )
            },
            DecorationPart::MaximizeButton => {
                let (next, done) = d.set_maximized(id, !d.window(id).maximized);
                (
                    next,
                    if done {
                        PressOutcome::Consumed
                    } else {
                        PressOutcome::Forward
                    },
                )
            },
            DecorationPart::Titlebar => (d, PressOutcome::Move),
            _ => match grabs::edges_of(part) {
                Some(edges) => (d, PressOutcome::Resize(edges)),
                None => (d, PressOutcome::Consumed),
            },
        }
    }
}

/// What a click does.
pub open spec fn press(
    d: DesktopModel,
    target: PressTarget,
    button: u32,
    logo: bool,
    p: Point,
) -> (DesktopModel, PressOutcome) {
    match target {
        PressTarget::Nothing => (
            d.set_keyboard_focus(FocusTarget::Nobody),
            PressOutcome::Forward,
        ),
        PressTarget::Layer { layer, level, can_focus } => (
            if can_focus {
                d.request_focus(FocusTarget::Layer(layer))
            } else if level is Bottom || level is Background {
                d.set_keyboard_focus(FocusTarget::Nobody)
            } else {
                d
            },
            PressOutcome::Forward,
        ),
        PressTarget::Window { id, on_surface, part } => window_press(
            d.focus_window(id),
            id,
            on_surface,
            part,
            button,
            logo,
            p,
        ),
    }
}

/// Applies click-to-focus and what the compositor itself does on a click.
/// `logo` says whether the logo key is held.
pub fn press_target(
    desktop: &mut Desktop,
    target: PressTarget,
    button: u32,
    logo: bool,
    position: Point,
) -> (outcome: PressOutcome)
    requires
        old(desktop)@.wf(),
        target matches PressTarget::Window { id, .. } ==> old(desktop)@.has(id) && old(desktop)@.window(id).mapped,
    ensures
        (final(desktop)@, outcome) == press(old(desktop)@, target, button, logo, position),
        final(desktop)@.wf(),
{
    match target {
        PressTarget::Nothing => {
            desktop.set_keyboard_focus(FocusTarget::Nobody);
            PressOutcome::Forward
        },
        PressTarget::Layer { layer, level, can_focus } => {
            if can_focus {
                desktop.focus_clicked_layer(layer);
            } else if level == Layer::Bottom || level == Layer::Background {
                desktop.set_keyboard_focus(FocusTarget::Nobody);
            }
            PressOutcome::Forward
        },
        PressTarget::Window { id, on_surface, part } => {
            proof {
                crate::invariants::lemma_focus_window(desktop@, id);
                crate::invariants::lemma_rearranged_window(
                    desktop@,
                    desktop@.focus_window(id),
                    id,
                );
            }
            desktop.focus_window(id);
            press_window(desktop, id, on_surface, part, button, logo, position)
        },
    }
}

fn press_window(
    desktop: &mut Desktop,
    id: WindowId,
    on_surface: bool,
    part: DecorationPart,
    button: u32,
    logo: bool,
    position: Point,
) -> (outcome: PressOutcome)
    requires
        old(desktop)@.wf(),
        old(desktop)@.has(id),
        old(desktop)@.window(id).mapped,
    ensures
        (final(desktop)@, outcome) == window_press(
            old(desktop)@,
            id,
            on_surface,
            part,
            button,
            logo,
            position,
        ),
        final(desktop)@.wf(),
{
    if logo && on_surface {
        if button == BTN_LEFT {
            return PressOutcome::Move;
        }
        if button == BTN_RIGHT {
            let geometry = match desktop.find(id) {
                Some(window) => match window.place {
                    Some(place) => Rect {
                        x: place.x,
                        y: place.y,
                        width: window.size.w,
                        height: window.size.h,
                    },
                    None => Rect { x: 0, y: 0, width: 0, height: 0 },
                },
                None => Rect { x: 0, y: 0, width: 0, height: 0 },
            };
            return PressOutcome::Resize(grabs::quadrant_edges(geometry, position));
        }
        return PressOutcome::Forward;
    }
    if on_surface || button != BTN_LEFT || desktop.settings().layout == WindowLayout::Tiling {
        return PressOutcome::Forward;
    }
    match part {
        DecorationPart::CloseButton => {
            desktop.close_window_by_id(id);
            PressOutcome::Consumed
        },
        DecorationPart::MinimizeButton => if desktop.minimize_window(id) {
            PressOutcome::Consumed
        } else {
            PressOutcome::Forward
        },
        DecorationPart::MaximizeButton => if desktop.toggle_maximize_window(id) {
            PressOutcome::Consumed
        } else {
            PressOutcome::Forward
        },
        DecorationPart::Titlebar => PressOutcome::Move,
        _ => match grabs::resize_edges(part) {
            Some(edges) => PressOutcome::Resize(edges),
            None => PressOutcome::Consumed,
        },
    }
}

/// How a constraint of the client binds the pointer.
#[derive(Debug, Clone, Copy, PartialEq, Eq, Structural)]
pub enum PointerConstraint {
    Free,
    Locked,
    Confined,
}

/// The constraint of the surface under the pointer.
#[derive(Debug, Clone, Copy, PartialEq, Eq, Structural)]
pub struct ConstraintState {
    pub active: bool,
    /// The pointer is in the region of the constraint, or it has none.
    pub in_region: bool,
    /// The pointer is locked in place rather than confined to the surface.
    pub locks: bool,
}

/// How a constraint binds the pointer.
pub open spec fn bound_by(constraint: Option<ConstraintState>) -> PointerConstraint {
    match constraint {
        Some(c) if c.active && c.in_region => if c.locks {
            PointerConstraint::Locked
        } else {
            PointerConstraint::Confined
        },
        _ => PointerConstraint::Free,
    }
}

/// How the pointer is bound: by an active constraint, within its region.
pub fn pointer_binding(constraint: Option<ConstraintState>) -> (r: PointerConstraint)
    ensures
        r == (match constraint {
            Some(c) => if !c.active || !c.in_region {
                PointerConstraint::Free
            } else if c.locks {
                PointerConstraint::Locked
            } else {
                PointerConstraint::Confined
            },
            None => PointerConstraint::Free,
        }),
        r == bound_by(constraint),
{
    match constraint {
        Some(c) => if !c.active || !c.in_region {
            PointerConstraint::Free
        } else if c.locks {
            PointerConstraint::Locked
        } else {
            PointerConstraint::Confined
        },
        None => PointerConstraint::Free,
    }
}

/// Whether a bound pointer follows a motion.
pub open spec fn follows(binding: PointerConstraint, same_surface: bool, in_region: bool) -> bool {
    binding is Free || (binding is Confined && same_surface && in_region)
}

/// Whether the pointer moves: a locked one does not, and a confined one only
/// while it stays on the surface and in the region.
pub fn pointer_moves(binding: PointerConstraint, same_surface: bool, in_region: bool) -> (r: bool)
    ensures
        r == (match binding {
            PointerConstraint::Free => true,
            PointerConstraint::Locked => false,
            PointerConstraint::Confined => same_surface && in_region,
        }),
        r == follows(binding, same_surface, in_region),
{
    match binding {
        PointerConstraint::Free => true,
        PointerConstraint::Locked => false,
        PointerConstraint::Confined => same_surface && in_region,
    }
}

/// Whether a constraint is to become active.
pub open spec fn activates(constraint: Option<ConstraintState>) -> bool {
    match constraint {
        Some(c) => c.in_region && !c.active,
        None => false,
    }
}

/// Whether a constraint begins to bind the pointer that came to its surface.
pub fn constraint_activates(constraint: Option<ConstraintState>) -> (r: bool)
    ensures
        r == (constraint matches Some(c) && !c.active && c.in_region),
        r == activates(constraint),
{
    match constraint {
        Some(c) => !c.active && c.in_region,
        None => false,
    }
}

} // verus!
