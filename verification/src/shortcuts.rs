//! Keyboard shortcuts: accelerator texts, the per-client registry, and the
//! physical keys they stand for.

use std::collections::HashSet;

use vstd::prelude::*;

use crate::seqs;
use crate::text;

verus! {

broadcast use vstd::std_specs::hash::group_hash_axioms;

/// The modifier keys a shortcut needs, or that are held.
#[derive(Debug, Clone, Copy, PartialEq, Eq, Structural)]
pub struct ShortcutMods {
    pub ctrl: bool,
    pub alt: bool,
    pub shift: bool,
    pub logo: bool,
}

/// The modifier keys that are held down.
pub type PhysicalMods = ShortcutMods;

impl Default for ShortcutMods {
    fn default() -> (mods: Self)
        ensures
            mods == no_mods(),
    {
        ShortcutMods { ctrl: false, alt: false, shift: false, logo: false }
    }
}

/// No modifier at all.
pub open spec fn no_mods() -> ShortcutMods {
    ShortcutMods { ctrl: false, alt: false, shift: false, logo: false }
}

/// A key of an accelerator that is not a modifier.
#[derive(Debug, Clone, Copy, PartialEq, Eq, Structural)]
pub enum ShortcutKey {
    Char(char),
    Return,
    Space,
    Escape,
    F(u8),
}

/// What an accelerator text asks for.
#[derive(Debug)]
pub struct Accelerator {
    pub mods: ShortcutMods,
    pub keys: Vec<ShortcutKey>,
}

/// The modifiers and keys read so far, or the complaint.
pub type Reading = Result<(ShortcutMods, Seq<ShortcutKey>), Seq<char>>;

/// The key with a fixed name, if `value` is one of the names.
pub open spec fn named_key(value: Seq<char>) -> Option<ShortcutKey> {
    if value == "return"@ || value == "enter"@ {
        Some(ShortcutKey::Return)
    } else if value == "space"@ {
        Some(ShortcutKey::Space)
    } else if value == "esc"@ || value == "escape"@ {
        Some(ShortcutKey::Escape)
    } else {
        None
    }
}

/// The function key that `value` names, if it names one.
pub open spec fn function_key(value: Seq<char>) -> Option<ShortcutKey> {
    if value.len() > 0 && value[0] == 'f' {
        match text::unsigned(value.drop_first(), 255) {
            Some(n) if 1 <= n <= 12 => Some(ShortcutKey::F(n as u8)),
            _ => None,
        }
    } else {
        None
    }
}

/// The key that a lower-case token stands for.
pub open spec fn key_of(value: Seq<char>) -> Result<ShortcutKey, Seq<char>> {
    match named_key(value) {
        Some(key) => Ok(key),
        None => match function_key(value) {
            Some(key) => Ok(key),
            None => if value.len() == 1 {
                Ok(ShortcutKey::Char(value[0]))
            } else {
                Err("unsupported key `"@ + value + "`"@)
            },
        },
    }
}

/// The modifier that a lower-case token names.
pub open spec fn with_modifier(mods: ShortcutMods, value: Seq<char>) -> Option<ShortcutMods> {
    if value == "ctrl"@ || value == "control"@ {
        Some(ShortcutMods { ctrl: true, ..mods })
    } else if value == "alt"@ || value == "mod1"@ {
        Some(ShortcutMods { alt: true, ..mods })
    } else if value == "shift"@ {
        Some(ShortcutMods { shift: true, ..mods })
    } else if value == "super"@ || value == "logo"@ || value == "meta"@ || value == "mod4"@ || value
        == "win"@ {
        Some(ShortcutMods { logo: true, ..mods })
    } else {
        None
    }
}

/// Reads one more token: blank ones say nothing, modifiers add up, at most
/// three other keys may follow and none of them twice.
pub open spec fn with_token(
    mods: ShortcutMods,
    keys: Seq<ShortcutKey>,
    token: Seq<char>,
) -> Reading {
    let value = text::lowercased(text::trimmed(token));
    if value.len() == 0 {
        Ok((mods, keys))
    } else {
        match with_modifier(mods, value) {
            Some(mods) => Ok((mods, keys)),
            None => if keys.len() == 3 {
                Err("shortcut has more than three non-modifier keys"@)
            } else {
                match key_of(value) {
                    Err(message) => Err(message),
                    Ok(key) => if keys.contains(key) {
                        Err("shortcut repeats a non-modifier key"@)
                    } else {
                        Ok((mods, keys.push(key)))
                    },
                }
            },
        }
    }
}

/// Reads the tokens one after the other; the first complaint stands.
pub open spec fn with_tokens(tokens: Seq<Seq<char>>) -> Reading
    decreases tokens.len(),
{
    if tokens.len() == 0 {
        Ok((no_mods(), Seq::empty()))
    } else {
        match with_tokens(tokens.drop_last()) {
            Err(message) => Err(message),
            Ok((mods, keys)) => with_token(mods, keys, tokens.last()),
        }
    }
}

/// What an accelerator text means: tokens between `+` or `,`, at least one
/// of them a modifier.
pub open spec fn accelerator_meaning(text: Seq<char>) -> Reading {
    match with_tokens(text::split(text, |c: char| c == ',' || c == '+')) {
        Err(message) => Err(message),
        Ok((mods, keys)) => if mods == no_mods() {
            Err("shortcut has no modifier key"@)
        } else {
            Ok((mods, keys))
        },
    }
}

proof fn lemma_error_stays(tokens: Seq<Seq<char>>, n: int)
    requires
        0 <= n <= tokens.len(),
        with_tokens(tokens.take(n)) is Err,
    ensures
        with_tokens(tokens) == with_tokens(tokens.take(n)),
    decreases tokens.len() - n,
{
    if n == tokens.len() {
        assert(tokens.take(n) =~= tokens);
    } else {
        assert(tokens.take(n + 1).drop_last() =~= tokens.take(n));
        lemma_error_stays(tokens, n + 1);
    }
}

fn parse_key(value: &Vec<char>) -> (key: Result<ShortcutKey, String>)
    ensures
        match (key, key_of(value@)) {
            (Ok(k), Ok(expected)) => k == expected,
            (Err(message), Err(expected)) => message@ == expected,
            _ => false,
        },
{
    if text::chars_are(value, "return") || text::chars_are(value, "enter") {
        return Ok(ShortcutKey::Return);
    }
    if text::chars_are(value, "space") {
        return Ok(ShortcutKey::Space);
    }
    if text::chars_are(value, "esc") || text::chars_are(value, "escape") {
        return Ok(ShortcutKey::Escape);
    }
    if value.len() > 0 && value[0] == 'f' {
        let rest = text::slice_of(value, 1, value.len());
        assert(rest@ =~= value@.drop_first());
        if let Some(n) = text::parse_unsigned(&rest, 255) {
            if 1 <= n && n <= 12 {
                return Ok(ShortcutKey::F(n as u8));
            }
        }
    }
    if value.len() == 1 {
        return Ok(ShortcutKey::Char(value[0]));
    }
    let message = "unsupported key `".to_owned().concat(text::string_of(value).as_str()).concat("`");
    Err(message)
}

fn add_modifier(mods: ShortcutMods, value: &Vec<char>) -> (next: Option<ShortcutMods>)
    ensures
        next == with_modifier(mods, value@),
{
    if text::chars_are(value, "ctrl") || text::chars_are(value, "control") {
        Some(ShortcutMods { ctrl: true, alt: mods.alt, shift: mods.shift, logo: mods.logo })
    } else if text::chars_are(value, "alt") || text::chars_are(value, "mod1") {
        Some(ShortcutMods { ctrl: mods.ctrl, alt: true, shift: mods.shift, logo: mods.logo })
    } else if text::chars_are(value, "shift") {
        Some(ShortcutMods { ctrl: mods.ctrl, alt: mods.alt, shift: true, logo: mods.logo })
    } else if text::chars_are(value, "super") || text::chars_are(value, "logo") || text::chars_are(value, "meta")
        || text::chars_are(value, "mod4") || text::chars_are(value, "win") {
        Some(ShortcutMods { ctrl: mods.ctrl, alt: mods.alt, shift: mods.shift, logo: true })
    } else {
        None
    }
}

fn contains_key(keys: &Vec<ShortcutKey>, key: ShortcutKey) -> (r: bool)
    ensures
        r == keys@.contains(key),
{
    for i in 0..keys.len()
        invariant
            forall|j: int| 0 <= j < i ==> keys@[j] != key,
    {
        if keys[i] == key {
            assert(keys@[i as int] == key);
            return true;
        }
    }
    false
}

/// Reads an accelerator text such as `Super+Shift+Q`.
pub fn parse_accelerator(text: &str) -> (accelerator: Result<Accelerator, String>)
    ensures
        match (accelerator, accelerator_meaning(text@)) {
            (Ok(a), Ok((mods, keys))) => a.mods == mods && a.keys@ == keys,
            (Err(message), Err(expected)) => message@ == expected,
            _ => false,
        },
{
    let chars = text::chars_of(text);
    let pieces = text::split_on(&chars, ',', '+');
    let ghost tokens = text::split(text@, |c: char| c == ',' || c == '+');
    let mut mods = ShortcutMods { ctrl: false, alt: false, shift: false, logo: false };
    let mut keys: Vec<ShortcutKey> = Vec::new();
    assert(tokens.take(0) =~= Seq::<Seq<char>>::empty());
    for i in 0..pieces.len()
        invariant
            text::views(pieces@) == tokens,
            with_tokens(tokens.take(i as int)) == Ok::<_, Seq<char>>((mods, keys@)),
            tokens == text::split(text@, |c: char| c == ',' || c == '+'),
    {
        let value = text::lowercase(&text::trim(&pieces[i]));
        proof {
            assert(tokens[i as int] == pieces@[i as int]@);
            assert(tokens.take(i + 1).drop_last() =~= tokens.take(i as int));
            assert(tokens.take(i + 1).last() == tokens[i as int]);
            if with_tokens(tokens.take(i + 1)) is Err {
                lemma_error_stays(tokens, i + 1);
            }
        }
        if value.len() > 0 {
            match add_modifier(mods, &value) {
                Some(next) => {
                    mods = next;
                },
                None => {
                    if keys.len() == 3 {
                        return Err("shortcut has more than three non-modifier keys".to_owned());
                    }
                    match parse_key(&value) {
                        Err(message) => {
                            return Err(message);
                        },
                        Ok(key) => {
                            if contains_key(&keys, key) {
                                return Err("shortcut repeats a non-modifier key".to_owned());
                            }
                            keys.push(key);
                        },
                    }
                },
            }
        }
    }
    proof {
        seqs::lemma_take_all(tokens);
    }
    if !mods.ctrl && !mods.alt && !mods.shift && !mods.logo {
        return Err("shortcut has no modifier key".to_owned());
    }
    Ok(Accelerator { mods, keys })
}

/// Checks that an accelerator can be bound.
pub fn validate_accelerator(accelerator: &str) -> (r: Result<(), String>)
    ensures
        match (r, accelerator_meaning(accelerator@)) {
            (Ok(_), Ok(_)) => true,
            (Err(message), Err(expected)) => message@ == expected,
            _ => false,
        },
{
    match parse_accelerator(accelerator) {
        Ok(_) => Ok(()),
        Err(message) => Err(message),
    }
}


/// The offset between kernel key codes and the key codes of key events.
pub const KEYCODE_OFFSET: u32 = 8;

/// The key event code of a kernel key code.
pub fn evdev_to_smithay(code: u32) -> (keycode: u32)
    requires
        code <= u32::MAX - KEYCODE_OFFSET,
    ensures
        keycode == code + KEYCODE_OFFSET,
{
    code + KEYCODE_OFFSET
}

/// The kernel key code of a letter or digit key on a physical keyboard.
pub open spec fn letter_key(c: char) -> Option<u32> {
    match text::lower(c) {
        '1' => Some(2u32),
        '2' => Some(3u32),
        '3' => Some(4u32),
        '4' => Some(5u32),
        '5' => Some(6u32),
        '6' => Some(7u32),
        '7' => Some(8u32),
        '8' => Some(9u32),
        '9' => Some(10u32),
        '0' => Some(11u32),
        'q' => Some(16u32),
        'w' => Some(17u32),
        'e' => Some(18u32),
        'r' => Some(19u32),
        't' => Some(20u32),
        'y' => Some(21u32),
        'u' => Some(22u32),
        'i' => Some(23u32),
        'o' => Some(24u32),
        'p' => Some(25u32),
        'a' => Some(30u32),
        's' => Some(31u32),
        'd' => Some(32u32),
        'f' => Some(33u32),
        'g' => Some(34u32),
        'h' => Some(35u32),
        'j' => Some(36u32),
        'k' => Some(37u32),
        'l' => Some(38u32),
        'z' => Some(44u32),
        'x' => Some(45u32),
        'c' => Some(46u32),
        'v' => Some(47u32),
        'b' => Some(48u32),
        'n' => Some(49u32),
        'm' => Some(50u32),
        _ => None,
    }
}

/// The kernel key code of a function key.
pub open spec fn function_row_key(n: u8) -> Option<u32> {
    if 1 <= n <= 10 {
        Some((58 + n) as u32)
    } else if n == 11 {
        Some(87u32)
    } else if n == 12 {
        Some(88u32)
    } else {
        None
    }
}

/// The key event code a key of an accelerator waits for.
pub open spec fn awaited_code(key: ShortcutKey) -> Option<u32> {
    let kernel = match key {
        ShortcutKey::Space => Some(57u32),
        ShortcutKey::Return => Some(28u32),
        ShortcutKey::Escape => Some(1u32),
        ShortcutKey::F(n) => function_row_key(n),
        ShortcutKey::Char(c) => if c == ' ' {
            Some(57u32)
        } else {
            letter_key(c)
        },
    };
    match kernel {
        Some(code) => Some((code + KEYCODE_OFFSET) as u32),
        None => None,
    }
}

/// The key event code of a function key.
pub fn physical_f_keycode(n: u8) -> (keycode: Option<u32>)
    ensures
        keycode == awaited_code(ShortcutKey::F(n)),
{
    if 1 <= n && n <= 10 {
        Some(evdev_to_smithay(58 + n as u32))
    } else if n == 11 {
        Some(evdev_to_smithay(87))
    } else if n == 12 {
        Some(evdev_to_smithay(88))
    } else {
        None
    }
}

/// The key event code of a letter or digit key.
pub fn physical_letter_keycode(c: char) -> (keycode: Option<u32>)
    ensures
        keycode == (match letter_key(c) {
            Some(code) => Some((code + KEYCODE_OFFSET) as u32),
            None => None::<u32>,
        }),
{
    let code: u32 = match text::ascii_lower(c) {
        '1' => 2,
        '2' => 3,
        '3' => 4,
        '4' => 5,
        '5' => 6,
        '6' => 7,
        '7' => 8,
        '8' => 9,
        '9' => 10,
        '0' => 11,
        'q' => 16,
        'w' => 17,
        'e' => 18,
        'r' => 19,
        't' => 20,
        'y' => 21,
        'u' => 22,
        'i' => 23,
        'o' => 24,
        'p' => 25,
        'a' => 30,
        's' => 31,
        'd' => 32,
        'f' => 33,
        'g' => 34,
        'h' => 35,
        'j' => 36,
        'k' => 37,
        'l' => 38,
        'z' => 44,
        'x' => 45,
        'c' => 46,
        'v' => 47,
        'b' => 48,
        'n' => 49,
        'm' => 50,
        _ => {
            return None;
        },
    };
    Some(evdev_to_smithay(code))
}

/// Follows the modifier keys: a press sets and a release clears the modifier
/// of either of its two keys; any other key changes nothing.
pub open spec fn mods_after(mods: ShortcutMods, keycode: u32, pressed: bool) -> ShortcutMods {
    if keycode == 37 || keycode == 105 {
        ShortcutMods { ctrl: pressed, ..mods }
    } else if keycode == 64 || keycode == 108 {
        ShortcutMods { alt: pressed, ..mods }
    } else if keycode == 50 || keycode == 62 {
        ShortcutMods { shift: pressed, ..mods }
    } else if keycode == 133 || keycode == 134 {
        ShortcutMods { logo: pressed, ..mods }
    } else {
        mods
    }
}

/// Updates the held modifiers for a key event.
pub fn update_physical_mods(mods: &mut PhysicalMods, keycode: u32, pressed: bool)
    ensures
        *final(mods) == mods_after(*old(mods), keycode, pressed),
{
    if keycode == evdev_to_smithay(29) || keycode == evdev_to_smithay(97) {
        mods.ctrl = pressed;
    } else if keycode == evdev_to_smithay(56) || keycode == evdev_to_smithay(100) {
        mods.alt = pressed;
    } else if keycode == evdev_to_smithay(42) || keycode == evdev_to_smithay(54) {
        mods.shift = pressed;
    } else if keycode == evdev_to_smithay(125) || keycode == evdev_to_smithay(126) {
        mods.logo = pressed;
    }
}

/// The virtual terminal that a function key selects.
pub fn physical_vt_from_keycode(keycode: u32) -> (vt: Option<i32>)
    ensures
        vt == vt_of(keycode),
{
    if evdev_to_smithay(59) <= keycode && keycode <= evdev_to_smithay(68) {
        Some((keycode - evdev_to_smithay(58)) as i32)
    } else if keycode == evdev_to_smithay(87) {
        Some(11)
    } else if keycode == evdev_to_smithay(88) {
        Some(12)
    } else {
        None
    }
}

/// F1 to F10 are 67 to 76 in a row, F11 and F12 are 95 and 96.
pub open spec fn vt_of(keycode: u32) -> Option<i32> {
    if 67 <= keycode <= 76 {
        Some((keycode - 66) as i32)
    } else if keycode == 95 {
        Some(11i32)
    } else if keycode == 96 {
        Some(12i32)
    } else {
        None
    }
}

/// The function key of an accelerator and the virtual terminal switch agree
/// on which physical key is which.
pub proof fn function_keys_select_their_terminal(n: u8)
    requires
        1 <= n <= 12,
    ensures
        vt_of(awaited_code(ShortcutKey::F(n))->0) == Some(n as i32),
{
}

impl ShortcutKey {
    /// Whether the key is held.
    pub open spec fn held(self, pressed: Set<u32>) -> bool {
        match awaited_code(self) {
            Some(code) => pressed.contains(code),
            None => false,
        }
    }

    fn matches_physical(self, pressed_keys: &HashSet<u32>) -> (r: bool)
        ensures
            r == self.held(pressed_keys@),
    {
        let code = match self {
            ShortcutKey::Space => Some(evdev_to_smithay(57)),
            ShortcutKey::Return => Some(evdev_to_smithay(28)),
            ShortcutKey::Escape => Some(evdev_to_smithay(1)),
            ShortcutKey::F(n) => physical_f_keycode(n),
            ShortcutKey::Char(c) => if c == ' ' {
                Some(evdev_to_smithay(57))
            } else {
                physical_letter_keycode(c)
            },
        };
        match code {
            Some(code) => pressed_keys.contains(&code),
            None => false,
        }
    }
}

/// One bound shortcut of one client.
#[derive(Debug)]
struct ShortcutBinding {
    client: String,
    id: String,
    mods: ShortcutMods,
    keys: Vec<ShortcutKey>,
}

/// A bound shortcut as the contracts see it.
pub struct BindingModel {
    pub client: Seq<char>,
    pub id: Seq<char>,
    pub mods: ShortcutMods,
    pub keys: Seq<ShortcutKey>,
}

impl BindingModel {
    /// Exactly the wanted modifiers and all wanted keys are held.
    pub open spec fn held(self, mods: ShortcutMods, pressed: Set<u32>) -> bool {
        self.mods == mods && forall|i: int|
            0 <= i < self.keys.len() ==> (#[trigger] self.keys[i]).held(pressed)
    }

    pub open spec fn name(self) -> (Seq<char>, Seq<char>) {
        (self.client, self.id)
    }

    /// There is a modifier, and at most three other keys, all different.
    pub open spec fn sound(self) -> bool {
        self.mods != no_mods() && self.keys.len() <= 3 && self.keys.no_duplicates()
    }
}

impl View for ShortcutBinding {
    type V = BindingModel;

    closed spec fn view(&self) -> BindingModel {
        BindingModel {
            client: self.client@,
            id: self.id@,
            mods: self.mods,
            keys: self.keys@,
        }
    }
}

impl ShortcutBinding {
    fn matches_physical(&self, mods: PhysicalMods, pressed_keys: &HashSet<u32>) -> (r: bool)
        ensures
            r == self@.held(mods, pressed_keys@),
    {
        if self.mods != mods {
            return false;
        }
        for i in 0..self.keys.len()
            invariant
                forall|j: int| 0 <= j < i ==> (#[trigger] self@.keys[j]).held(pressed_keys@),
        {
            let key = self.keys[i];
            if !key.matches_physical(pressed_keys) {
                assert(!self@.keys[i as int].held(pressed_keys@));
                return false;
            }
        }
        true
    }
}

/// A shortcut whose keys were just completed.
#[derive(Debug, Clone, PartialEq, Eq)]
pub struct ActivatedShortcut {
    pub client: String,
    pub id: String,
}

/// How many shortcuts one client may have.
pub const MAX_BINDINGS_PER_CLIENT: usize = 256;

/// The shortcuts of all clients and the keys that are held.
#[derive(Debug)]
pub struct ShortcutRegistry {
    bindings: Vec<ShortcutBinding>,
    pressed_keys: HashSet<u32>,
    active_bindings: Vec<(String, String)>,
}

/// The registry as the contracts see it: the bindings in the order in which
/// they were made, the held keys, and the shortcuts that are held already.
#[verifier::ext_equal]
pub struct RegistryModel {
    pub bindings: Seq<BindingModel>,
    pub pressed: Set<u32>,
    pub active: Set<(Seq<char>, Seq<char>)>,
}

spec fn models(bindings: Seq<ShortcutBinding>) -> Seq<BindingModel> {
    bindings.map_values(|binding: ShortcutBinding| binding@)
}

spec fn names(active: Seq<(String, String)>) -> Set<(Seq<char>, Seq<char>)> {
    active.map_values(|name: (String, String)| (name.0@, name.1@)).to_set()
}

impl View for ShortcutRegistry {
    type V = RegistryModel;

    closed spec fn view(&self) -> RegistryModel {
        RegistryModel {
            bindings: models(self.bindings@),
            pressed: self.pressed_keys@,
            active: names(self.active_bindings@),
        }
    }
}

/// The bindings of one client.
pub open spec fn of_client(bindings: Seq<BindingModel>, client: Seq<char>) -> Seq<BindingModel> {
    bindings.filter(|b: BindingModel| b.client == client)
}

/// The bindings other than the one named.
pub open spec fn without(
    bindings: Seq<BindingModel>,
    client: Seq<char>,
    id: Seq<char>,
) -> Seq<BindingModel> {
    bindings.filter(|b: BindingModel| b.client != client || b.id != id)
}

/// The bindings of everyone else.
pub open spec fn without_client(
    bindings: Seq<BindingModel>,
    client: Seq<char>,
) -> Seq<BindingModel> {
    bindings.filter(|b: BindingModel| b.client != client)
}

/// A binding with this name exists.
pub open spec fn bound(bindings: Seq<BindingModel>, client: Seq<char>, id: Seq<char>) -> bool {
    exists|i: int| 0 <= i < bindings.len() && (#[trigger] bindings[i]).name() == (client, id)
}

impl RegistryModel {
    /// No name is bound twice, no client has too many shortcuts, every binding
    /// is one that an accelerator can ask for, and only what is bound is
    /// active.
    pub open spec fn wf(self) -> bool {
        &&& forall|i: int, j: int|
            0 <= i < j < self.bindings.len() ==> #[trigger] self.bindings[i].name()
                != #[trigger] self.bindings[j].name()
        &&& forall|client: Seq<char>|
            (#[trigger] of_client(self.bindings, client)).len() <= MAX_BINDINGS_PER_CLIENT
        &&& forall|i: int| 0 <= i < self.bindings.len() ==> (#[trigger] self.bindings[i]).sound()
        &&& forall|name: (Seq<char>, Seq<char>)| #[trigger]
            self.active.contains(name) ==> bound(self.bindings, name.0, name.1)
    }

    /// A new name has no room left.
    pub open spec fn full_for(self, client: Seq<char>, id: Seq<char>) -> bool {
        of_client(self.bindings, client).len() >= MAX_BINDINGS_PER_CLIENT && !bound(
            self.bindings,
            client,
            id,
        )
    }

    /// The registry after the name is bound to an accelerator, or `None`
    /// where the binding is refused.
    pub open spec fn after_bind(
        self,
        client: Seq<char>,
        id: Seq<char>,
        accelerator: Seq<char>,
    ) -> Option<RegistryModel> {
        match accelerator_meaning(accelerator) {
            Ok((mods, keys)) if !self.full_for(client, id) => Some(
                RegistryModel {
                    bindings: without(self.bindings, client, id).push(
                        BindingModel { client, id, mods, keys },
                    ),
                    active: self.active.remove((client, id)),
                    ..self
                },
            ),
            _ => None,
        }
    }

    /// The registry after the name is released.
    pub open spec fn after_unbind(self, client: Seq<char>, id: Seq<char>) -> RegistryModel {
        RegistryModel {
            bindings: without(self.bindings, client, id),
            active: self.active.remove((client, id)),
            ..self
        }
    }

    /// The registry after a client left.
    pub open spec fn after_unregister(self, client: Seq<char>) -> RegistryModel {
        RegistryModel {
            bindings: without_client(self.bindings, client),
            active: self.active.filter(|name: (Seq<char>, Seq<char>)| name.0 != client),
            ..self
        }
    }

    /// The registry after a key went down or up.
    pub open spec fn after_key(self, keycode: u32, pressed: bool) -> RegistryModel {
        RegistryModel {
            pressed: if pressed {
                self.pressed.insert(keycode)
            } else {
                self.pressed.remove(keycode)
            },
            ..self
        }
    }

    /// The registry after the held keys are forgotten.
    pub open spec fn after_clear(self) -> RegistryModel {
        RegistryModel { pressed: Set::empty(), active: Set::empty(), ..self }
    }

    /// The registry after a look at what is held.
    pub open spec fn after_look(self, mods: ShortcutMods) -> RegistryModel {
        RegistryModel { active: self.held_names(mods), ..self }
    }

    /// The bindings whose keys are held, in the order in which they were made.
    pub open spec fn held(self, mods: ShortcutMods) -> Seq<BindingModel> {
        self.bindings.filter(|b: BindingModel| b.held(mods, self.pressed))
    }

    /// The names of the bindings whose keys are held.
    pub open spec fn held_names(self, mods: ShortcutMods) -> Set<(Seq<char>, Seq<char>)> {
        self.held(mods).map_values(|b: BindingModel| b.name()).to_set()
    }

    /// The bindings that are held now and were not at the last look.
    pub open spec fn newly_held(self, mods: ShortcutMods) -> Seq<BindingModel> {
        self.bindings.filter(
            |b: BindingModel| b.held(mods, self.pressed) && !self.active.contains(b.name()),
        )
    }
}


spec fn distinct(bindings: Seq<BindingModel>) -> bool {
    forall|i: int, j: int|
        0 <= i < j < bindings.len() ==> #[trigger] bindings[i].name()
            != #[trigger] bindings[j].name()
}

proof fn lemma_filter_distinct(s: Seq<BindingModel>, keep: spec_fn(BindingModel) -> bool)
    requires
        distinct(s),
    ensures
        distinct(s.filter(keep)),
    decreases s.len(),
{
    reveal(Seq::filter);
    if s.len() > 0 {
        let rest = s.drop_last();
        let last = s.last();
        assert forall|i: int, j: int| 0 <= i < j < rest.len() implies #[trigger] rest[i].name()
            != #[trigger] rest[j].name() by {
            assert(rest[i] == s[i] && rest[j] == s[j]);
        }
        lemma_filter_distinct(rest, keep);
        let kept = rest.filter(keep);
        if keep(last) {
            assert forall|i: int, j: int| 0 <= i < j < kept.push(last).len() implies #[trigger] kept.push(
                last,
            )[i].name() != #[trigger] kept.push(last)[j].name() by {
                if j == kept.len() {
                    assert(kept.contains(kept[i]));
                    seqs::lemma_filter_contains(rest, keep, kept[i]);
                    let k = choose|k: int| 0 <= k < rest.len() && rest[k] == kept[i];
                    assert(s[k].name() != s[s.len() - 1].name());
                } else {
                    assert(kept[i].name() != kept[j].name());
                }
            }
        }
    }
}

proof fn lemma_client_count(b: Seq<BindingModel>, client: Seq<char>, id: Seq<char>)
    ensures
        of_client(without(b, client, id), client).len() + (if bound(b, client, id) {
            1int
        } else {
            0int
        }) <= of_client(b, client).len(),
    decreases b.len(),
{
    reveal(Seq::filter);
    if b.len() > 0 {
        let rest = b.drop_last();
        let last = b.last();
        lemma_client_count(rest, client, id);
        if bound(b, client, id) && last.name() != (client, id) {
            let i = choose|i: int| 0 <= i < b.len() && (#[trigger] b[i]).name() == (client, id);
            assert(rest[i].name() == (client, id));
        }
        if last.client != client || last.id != id {
            seqs::lemma_filter_push(
                without(rest, client, id),
                last,
                |b: BindingModel| b.client == client,
            );
        }
    }
}

proof fn lemma_other_client(
    b: Seq<BindingModel>,
    client: Seq<char>,
    id: Seq<char>,
    other: Seq<char>,
)
    requires
        other != client,
    ensures
        of_client(without(b, client, id), other) == of_client(b, other),
{
    let p = |b: BindingModel| b.client != client || b.id != id;
    let q = |b: BindingModel| b.client == other;
    seqs::lemma_filter_filter(b, p, q);
    seqs::lemma_filter_agree(b, |x: BindingModel| p(x) && q(x), q);
}

proof fn lemma_bind_keeps_wf(
    m: RegistryModel,
    client: Seq<char>,
    id: Seq<char>,
    accelerator: Seq<char>,
)
    requires
        m.wf(),
        m.after_bind(client, id, accelerator) is Some,
    ensures
        m.after_bind(client, id, accelerator)->0.wf(),
{
    let next = m.after_bind(client, id, accelerator)->0;
    let rest = without(m.bindings, client, id);
    let keep = |b: BindingModel| b.client != client || b.id != id;
    let added = next.bindings.last();
    lemma_filter_distinct(m.bindings, keep);
    assert forall|i: int, j: int| 0 <= i < j < next.bindings.len() implies #[trigger] next.bindings[i].name()
        != #[trigger] next.bindings[j].name() by {
        if j == rest.len() {
            assert(rest.contains(rest[i]));
            seqs::lemma_filter_contains(m.bindings, keep, rest[i]);
        } else {
            assert(rest[i].name() != rest[j].name());
        }
    }
    assert forall|c: Seq<char>|
        (#[trigger] of_client(next.bindings, c)).len() <= MAX_BINDINGS_PER_CLIENT by {
        seqs::lemma_filter_push(rest, added, |b: BindingModel| b.client == c);
        if c == client {
            lemma_client_count(m.bindings, client, id);
        } else {
            lemma_other_client(m.bindings, client, id, c);
        }
        assert(of_client(m.bindings, c).len() <= MAX_BINDINGS_PER_CLIENT);
    }
    lemma_meaning_sound(accelerator);
    assert forall|i: int| 0 <= i < next.bindings.len() implies (
    #[trigger] next.bindings[i]).sound() by {
        if i < rest.len() {
            assert(rest.contains(rest[i]));
            seqs::lemma_filter_contains(m.bindings, keep, rest[i]);
        }
    }
    assert forall|name: (Seq<char>, Seq<char>)| #[trigger] next.active.contains(name) implies bound(
        next.bindings,
        name.0,
        name.1,
    ) by {
        assert(m.active.contains(name));
        lemma_filtered_bound(m.bindings, keep, name);
        let i = choose|i: int| 0 <= i < rest.len() && (#[trigger] rest[i]).name() == name;
        assert(next.bindings[i].name() == name);
    }
}

/// What is read of an accelerator has at most three other keys, all different.
proof fn lemma_tokens_sound(tokens: Seq<Seq<char>>)
    ensures
        with_tokens(tokens) matches Ok((mods, keys)) ==> keys.len() <= 3 && keys.no_duplicates(),
    decreases tokens.len(),
{
    if tokens.len() > 0 {
        lemma_tokens_sound(tokens.drop_last());
    }
}

pub proof fn lemma_meaning_sound(accelerator: Seq<char>)
    ensures
        accelerator_meaning(accelerator) matches Ok((mods, keys)) ==> mods != no_mods()
            && keys.len() <= 3 && keys.no_duplicates(),
{
    lemma_tokens_sound(text::split(accelerator, |c: char| c == ',' || c == '+'));
}

/// A name stays bound where its bindings are kept.
proof fn lemma_filtered_bound(
    bindings: Seq<BindingModel>,
    keep: spec_fn(BindingModel) -> bool,
    name: (Seq<char>, Seq<char>),
)
    requires
        bound(bindings, name.0, name.1),
        forall|b: BindingModel| b.name() == name ==> #[trigger] keep(b),
    ensures
        bound(bindings.filter(keep), name.0, name.1),
{
    let i = choose|i: int| 0 <= i < bindings.len() && (#[trigger] bindings[i]).name() == name;
    let kept = bindings.filter(keep);
    assert(bindings.contains(bindings[i]));
    seqs::lemma_filter_contains(bindings, keep, bindings[i]);
    let k = choose|k: int| 0 <= k < kept.len() && kept[k] == bindings[i];
    assert(kept[k].name() == name);
}

proof fn lemma_filtered_wf(
    m: RegistryModel,
    keep: spec_fn(BindingModel) -> bool,
    active: Set<(Seq<char>, Seq<char>)>,
)
    requires
        m.wf(),
        forall|name: (Seq<char>, Seq<char>)| #[trigger]
            active.contains(name) ==> m.active.contains(name) && forall|b: BindingModel|
                b.name() == name ==> #[trigger] keep(b),
    ensures
        (RegistryModel { bindings: m.bindings.filter(keep), active, ..m }).wf(),
{
    let next = RegistryModel { bindings: m.bindings.filter(keep), active, ..m };
    assert forall|i: int| 0 <= i < next.bindings.len() implies (
    #[trigger] next.bindings[i]).sound() by {
        assert(next.bindings.contains(next.bindings[i]));
        seqs::lemma_filter_contains(m.bindings, keep, next.bindings[i]);
    }
    assert forall|name: (Seq<char>, Seq<char>)| #[trigger] next.active.contains(name) implies bound(
        next.bindings,
        name.0,
        name.1,
    ) by {
        lemma_filtered_bound(m.bindings, keep, name);
    }
    lemma_filter_distinct(m.bindings, keep);
    assert forall|c: Seq<char>|
        (#[trigger] of_client(m.bindings.filter(keep), c)).len() <= MAX_BINDINGS_PER_CLIENT by {
        let q = |b: BindingModel| b.client == c;
        let p = keep;
        seqs::lemma_filter_filter(m.bindings, p, q);
        seqs::lemma_filter_filter(m.bindings, q, p);
        seqs::lemma_filter_agree(
            m.bindings,
            |x: BindingModel| p(x) && q(x),
            |x: BindingModel| q(x) && p(x),
        );
        seqs::lemma_filter_len(of_client(m.bindings, c), p);
        assert(of_client(m.bindings, c).len() <= MAX_BINDINGS_PER_CLIENT);
    }
}

/// The names of activated shortcuts.
pub open spec fn activated_names(shortcuts: Seq<ActivatedShortcut>) -> Seq<
    (Seq<char>, Seq<char>),
> {
    shortcuts.map_values(|s: ActivatedShortcut| (s.client@, s.id@))
}

/// The names of bindings.
pub open spec fn binding_names(bindings: Seq<BindingModel>) -> Seq<(Seq<char>, Seq<char>)> {
    bindings.map_values(|b: BindingModel| b.name())
}

impl Default for ShortcutRegistry {
    fn default() -> (registry: Self)
        ensures
            registry@ == (RegistryModel {
                bindings: Seq::empty(),
                pressed: Set::empty(),
                active: Set::empty(),
            }),
            registry@.wf(),
    {
        let registry = ShortcutRegistry {
            bindings: Vec::new(),
            pressed_keys: HashSet::new(),
            active_bindings: Vec::new(),
        };
        assert(registry@.bindings =~= Seq::empty());
        assert(registry@.active =~= Set::empty());
        assert forall|client: Seq<char>|
            (#[trigger] of_client(registry@.bindings, client)).len()
                <= MAX_BINDINGS_PER_CLIENT by {
            seqs::lemma_filter_len(registry@.bindings, |b: BindingModel| b.client == client);
        }
        registry
    }
}

impl ShortcutRegistry {
    /// How many shortcuts are bound.
    pub fn binding_count(&self) -> (count: usize)
        ensures
            count == self@.bindings.len(),
    {
        self.bindings.len()
    }

    fn is_full_for(&self, client: &str, id: &str) -> (full: bool)
        ensures
            full == self@.full_for(client@, id@),
    {
        let ghost all = self@.bindings;
        let ghost mine = |b: BindingModel| b.client == client@;
        let mut count: usize = 0;
        let mut known = false;
        for i in 0..self.bindings.len()
            invariant
                all == self@.bindings,
                all.len() == self.bindings@.len(),
                mine == (|b: BindingModel| b.client == client@),
                count == all.take(i as int).filter(mine).len(),
                count <= i,
                known == exists|j: int| 0 <= j < i && (#[trigger] all[j]).name() == (client@, id@),
        {
            let binding = &self.bindings[i];
            assert(all[i as int] == binding@);
            proof {
                seqs::lemma_filter_take(all, i as int, mine);
            }
            if text::text_eq(binding.client.as_str(), client) {
                count = count + 1;
                if text::text_eq(binding.id.as_str(), id) {
                    assert(all[i as int].name() == (client@, id@));
                    known = true;
                }
            }
        }
        proof {
            seqs::lemma_take_all(all);
        }
        count >= MAX_BINDINGS_PER_CLIENT && !known
    }

    fn remove_binding(&mut self, client: &str, id: &str)
        ensures
            final(self)@ == old(self)@.after_unbind(client@, id@),
    {
        let ghost all = self@.bindings;
        let ghost keep = |b: BindingModel| b.client != client@ || b.id != id@;
        let mut bindings: Vec<ShortcutBinding> = Vec::new();
        std::mem::swap(&mut bindings, &mut self.bindings);
        let mut kept: Vec<ShortcutBinding> = Vec::new();
        for binding in iter: bindings
            invariant
                models(iter.seq()) == all,
                keep == (|b: BindingModel| b.client != client@ || b.id != id@),
                models(kept@) == all.take(iter.index() as int).filter(keep),
        {
            proof {
                assert(all[iter.index() as int] == binding@);
                seqs::lemma_filter_take(all, iter.index() as int, keep);
            }
            if !(text::text_eq(binding.client.as_str(), client) && text::text_eq(
                binding.id.as_str(),
                id,
            )) {
                let ghost before = kept@;
                kept.push(binding);
                assert(models(kept@) =~= models(before).push(binding@));
            }
        }
        proof {
            seqs::lemma_take_all(all);
        }
        self.bindings = kept;
        let ghost name = (client@, id@);
        let ghost old_active = names(self.active_bindings@);
        let mut active: Vec<(String, String)> = Vec::new();
        std::mem::swap(&mut active, &mut self.active_bindings);
        let ghost listed = active@;
        let mut left: Vec<(String, String)> = Vec::new();
        for entry in iter: active
            invariant
                iter.seq() == listed,
                name == (client@, id@),
                forall|n: (Seq<char>, Seq<char>)| #[trigger]
                    names(left@).contains(n) <==> n != name && names(
                        listed.take(iter.index() as int),
                    ).contains(n),
        {
            proof {
                lemma_names_push(listed.take(iter.index() as int), entry);
                assert(listed.take(iter.index() as int).push(entry) =~= listed.take(
                    iter.index() + 1,
                ));
                lemma_names_push(left@, entry);
            }
            if !(text::text_eq(entry.0.as_str(), client) && text::text_eq(entry.1.as_str(), id)) {
                left.push(entry);
            }
        }
        proof {
            seqs::lemma_take_all(listed);
            assert(names(left@) =~= old_active.remove(name));
        }
        self.active_bindings = left;
    }

    /// Binds a shortcut of a client, replacing the one it had under this id.
    /// Refuses what is no accelerator, and new ids of a client with too many.
    pub fn bind(&mut self, client: &str, id: &str, accelerator: &str) -> (accepted: bool)
        requires
            old(self)@.wf(),
        ensures
            final(self)@.wf(),
            match old(self)@.after_bind(client@, id@, accelerator@) {
                Some(next) => accepted && final(self)@ == next,
                None => !accepted && final(self)@ == old(self)@,
            },
    {
        if self.is_full_for(client, id) {
            return false;
        }
        match parse_accelerator(accelerator) {
            Err(_) => false,
            Ok(parsed) => {
                proof {
                    every_registry_is_sound(self@);
                }
                self.remove_binding(client, id);
                let ghost before = self.bindings@;
                let binding = ShortcutBinding {
                    client: client.to_owned(),
                    id: id.to_owned(),
                    mods: parsed.mods,
                    keys: parsed.keys,
                };
                self.bindings.push(binding);
                assert(models(self.bindings@) =~= models(before).push(binding@));
                true
            },
        }
    }

    /// Releases a shortcut of a client.
    pub fn unbind(&mut self, client: &str, id: &str)
        requires
            old(self)@.wf(),
        ensures
            final(self)@.wf(),
            final(self)@ == old(self)@.after_unbind(client@, id@),
    {
        proof {
            every_registry_is_sound(self@);
        }
        self.remove_binding(client, id);
    }

    /// Releases everything a client bound.
    pub fn unregister_client(&mut self, client: &str)
        requires
            old(self)@.wf(),
        ensures
            final(self)@.wf(),
            final(self)@ == old(self)@.after_unregister(client@),
    {
        let ghost all = self@.bindings;
        let ghost keep = |b: BindingModel| b.client != client@;
        proof {
            every_registry_is_sound(self@);
            assert(self@.after_unregister(client@).wf());
        }
        let mut bindings: Vec<ShortcutBinding> = Vec::new();
        std::mem::swap(&mut bindings, &mut self.bindings);
        let mut kept: Vec<ShortcutBinding> = Vec::new();
        for binding in iter: bindings
            invariant
                models(iter.seq()) == all,
                keep == (|b: BindingModel| b.client != client@),
                models(kept@) == all.take(iter.index() as int).filter(keep),
        {
            proof {
                assert(all[iter.index() as int] == binding@);
                seqs::lemma_filter_take(all, iter.index() as int, keep);
            }
            if !text::text_eq(binding.client.as_str(), client) {
                let ghost before = kept@;
                kept.push(binding);
                assert(models(kept@) =~= models(before).push(binding@));
            }
        }
        proof {
            seqs::lemma_take_all(all);
        }
        self.bindings = kept;
        let ghost old_active = names(self.active_bindings@);
        let mut active: Vec<(String, String)> = Vec::new();
        std::mem::swap(&mut active, &mut self.active_bindings);
        let ghost listed = active@;
        let mut left: Vec<(String, String)> = Vec::new();
        for entry in iter: active
            invariant
                iter.seq() == listed,
                forall|n: (Seq<char>, Seq<char>)| #[trigger]
                    names(left@).contains(n) <==> n.0 != client@ && names(
                        listed.take(iter.index() as int),
                    ).contains(n),
        {
            proof {
                lemma_names_push(listed.take(iter.index() as int), entry);
                assert(listed.take(iter.index() as int).push(entry) =~= listed.take(
                    iter.index() + 1,
                ));
                lemma_names_push(left@, entry);
            }
            if !text::text_eq(entry.0.as_str(), client) {
                left.push(entry);
            }
        }
        proof {
            seqs::lemma_take_all(listed);
            assert(names(left@) =~= old_active.filter(
                |name: (Seq<char>, Seq<char>)| name.0 != client@,
            ));
        }
        self.active_bindings = left;
    }

    /// Forgets the held keys, for when key events stop arriving.
    pub fn clear_pressed(&mut self)
        ensures
            final(self)@ == old(self)@.after_clear(),
            old(self)@.wf() ==> final(self)@.wf(),
    {
        proof {
            if self@.wf() {
                every_registry_is_sound(self@);
            }
        }
        self.pressed_keys.clear();
        self.active_bindings.clear();
        assert(names(self.active_bindings@) =~= Set::empty());
    }

    /// Follows a key.
    pub fn update_key(&mut self, keycode: u32, pressed: bool)
        ensures
            final(self)@ == old(self)@.after_key(keycode, pressed),
            old(self)@.wf() ==> final(self)@.wf(),
    {
        proof {
            if self@.wf() {
                every_registry_is_sound(self@);
            }
        }
        if pressed {
            self.pressed_keys.insert(keycode);
        } else {
            self.pressed_keys.remove(&keycode);
        }
    }

    fn is_active(&self, binding: &ShortcutBinding) -> (r: bool)
        ensures
            r == self@.active.contains(binding@.name()),
    {
        let ghost listed = self.active_bindings@.map_values(
            |name: (String, String)| (name.0@, name.1@),
        );
        for i in 0..self.active_bindings.len()
            invariant
                listed == self.active_bindings@.map_values(
                    |name: (String, String)| (name.0@, name.1@),
                ),
                forall|j: int| 0 <= j < i ==> #[trigger] listed[j] != binding@.name(),
        {
            let entry = &self.active_bindings[i];
            assert(listed[i as int] == (entry.0@, entry.1@));
            if text::text_eq(entry.0.as_str(), binding.client.as_str()) && text::text_eq(
                entry.1.as_str(),
                binding.id.as_str(),
            ) {
                assert(listed.contains(binding@.name()));
                return true;
            }
        }
        assert(!listed.contains(binding@.name()));
        false
    }

    /// The shortcuts that the held keys complete. A shortcut comes once: it
    /// comes again only after its keys were not held at some call in between.
    pub fn maybe_activate_physical(&mut self, mods: PhysicalMods) -> (activated: Vec<
        ActivatedShortcut,
    >)
        ensures
            activated_names(activated@) == binding_names(old(self)@.newly_held(mods)),
            final(self)@ == old(self)@.after_look(mods),
            old(self)@.wf() ==> final(self)@.wf(),
    {
        let ghost model = self@;
        proof {
            if model.wf() {
                every_registry_is_sound(model);
                assert(model.after_look(mods).wf());
            }
        }
        let ghost all = self@.bindings;
        let ghost held = |b: BindingModel| b.held(mods, model.pressed);
        let ghost fresh = |b: BindingModel|
            b.held(mods, model.pressed) && !model.active.contains(b.name());
        let mut activated: Vec<ActivatedShortcut> = Vec::new();
        let mut active: Vec<(String, String)> = Vec::new();
        for i in 0..self.bindings.len()
            invariant
                model == self@,
                all == self@.bindings,
                all.len() == self.bindings@.len(),
                held == (|b: BindingModel| b.held(mods, model.pressed)),
                fresh == (|b: BindingModel|
                    b.held(mods, model.pressed) && !model.active.contains(b.name())),
                activated_names(activated@) == binding_names(all.take(i as int).filter(fresh)),
                active@.map_values(|name: (String, String)| (name.0@, name.1@)) == binding_names(
                    all.take(i as int).filter(held),
                ),
        {
            let binding = &self.bindings[i];
            proof {
                assert(all[i as int] == binding@);
                seqs::lemma_filter_take(all, i as int, held);
                seqs::lemma_filter_take(all, i as int, fresh);
            }
            if binding.matches_physical(mods, &self.pressed_keys) {
                if !self.is_active(binding) {
                    let ghost before = activated@;
                    let shortcut = ActivatedShortcut {
                        client: binding.client.clone(),
                        id: binding.id.clone(),
                    };
                    activated.push(shortcut);
                    assert(activated_names(activated@) =~= activated_names(before).push(
                        binding@.name(),
                    ));
                    assert(binding_names(all.take(i as int).filter(fresh).push(binding@))
                        =~= binding_names(all.take(i as int).filter(fresh)).push(binding@.name()));
                }
                let ghost before = active@;
                let entry = (binding.client.clone(), binding.id.clone());
                active.push(entry);
                assert(active@.map_values(|name: (String, String)| (name.0@, name.1@))
                    =~= before.map_values(|name: (String, String)| (name.0@, name.1@)).push(
                    binding@.name(),
                ));
                assert(binding_names(all.take(i as int).filter(held).push(binding@))
                    =~= binding_names(all.take(i as int).filter(held)).push(binding@.name()));
            }
        }
        proof {
            seqs::lemma_take_all(all);
        }
        self.active_bindings = active;
        activated
    }
}

proof fn lemma_names_push(active: Seq<(String, String)>, entry: (String, String))
    ensures
        names(active.push(entry)) == names(active).insert((entry.0@, entry.1@)),
{
    let f = |name: (String, String)| (name.0@, name.1@);
    let before = active.map_values(f);
    let after = active.push(entry).map_values(f);
    assert(after =~= before.push((entry.0@, entry.1@)));
    assert forall|n: (Seq<char>, Seq<char>)|
        after.to_set().contains(n) <==> #[trigger] before.to_set().insert(
            (entry.0@, entry.1@),
        ).contains(n) by {
        if before.contains(n) {
            let i = choose|i: int| 0 <= i < before.len() && before[i] == n;
            assert(after[i] == n);
        }
        assert(after[before.len() as int] == (entry.0@, entry.1@));
        if after.contains(n) && n != (entry.0@, entry.1@) {
            let i = choose|i: int| 0 <= i < after.len() && after[i] == n;
            assert(before[i] == n);
        }
    }
    assert(after.to_set() =~= before.to_set().insert((entry.0@, entry.1@)));
}

/// Whatever is done with a registry, no name is bound twice, no client has
/// more than its share of bindings, every binding has a modifier and at most
/// three other keys, all different, and only what is bound is active: an empty
/// registry is like that, and every step keeps it.
pub proof fn every_registry_is_sound(m: RegistryModel)
    requires
        m.wf(),
    ensures
        (RegistryModel {
            bindings: Seq::empty(),
            pressed: Set::empty(),
            active: Set::empty(),
        }).wf(),
        forall|client: Seq<char>, id: Seq<char>, accelerator: Seq<char>|
            (#[trigger] m.after_bind(client, id, accelerator)) matches Some(next) ==> next.wf(),
        forall|client: Seq<char>, id: Seq<char>| (#[trigger] m.after_unbind(client, id)).wf(),
        forall|client: Seq<char>| (#[trigger] m.after_unregister(client)).wf(),
        forall|keycode: u32, pressed: bool| (#[trigger] m.after_key(keycode, pressed)).wf(),
        m.after_clear().wf(),
        forall|mods: ShortcutMods| (#[trigger] m.after_look(mods)).wf(),
{
    assert forall|client: Seq<char>|
        (#[trigger] of_client(Seq::<BindingModel>::empty(), client)).len()
            <= MAX_BINDINGS_PER_CLIENT by {
        seqs::lemma_filter_len(Seq::<BindingModel>::empty(), |b: BindingModel| b.client == client);
    }
    assert forall|client: Seq<char>, id: Seq<char>, accelerator: Seq<char>|
        (#[trigger] m.after_bind(client, id, accelerator)) is Some implies m.after_bind(
        client,
        id,
        accelerator,
    )->0.wf() by {
        lemma_bind_keeps_wf(m, client, id, accelerator);
    }
    assert forall|client: Seq<char>, id: Seq<char>|
        (#[trigger] m.after_unbind(client, id)).wf() by {
        lemma_filtered_wf(
            m,
            |b: BindingModel| b.client != client || b.id != id,
            m.active.remove((client, id)),
        );
    }
    assert forall|client: Seq<char>| (#[trigger] m.after_unregister(client)).wf() by {
        lemma_filtered_wf(
            m,
            |b: BindingModel| b.client != client,
            m.active.filter(|name: (Seq<char>, Seq<char>)| name.0 != client),
        );
    }
    assert forall|mods: ShortcutMods| (#[trigger] m.after_look(mods)).wf() by {
        let next = m.after_look(mods);
        let held = |b: BindingModel| b.held(mods, m.pressed);
        assert forall|name: (Seq<char>, Seq<char>)| #[trigger]
            next.active.contains(name) implies bound(next.bindings, name.0, name.1) by {
            let listed = m.held(mods).map_values(|b: BindingModel| b.name());
            let k = choose|k: int| 0 <= k < listed.len() && listed[k] == name;
            let b = m.held(mods)[k];
            assert(m.held(mods).contains(b));
            seqs::lemma_filter_contains(m.bindings, held, b);
            let i = choose|i: int| 0 <= i < m.bindings.len() && m.bindings[i] == b;
            assert(m.bindings[i].name() == name);
        }
    }
}

/// Held shortcuts come once: looking again without a key event in between
/// activates nothing.
pub proof fn activation_is_edge_triggered(m: RegistryModel, mods: ShortcutMods)
    ensures
        m.after_look(mods).newly_held(mods).len() == 0,
{
    let next = m.after_look(mods);
    let fresh = |b: BindingModel|
        b.held(mods, next.pressed) && !next.active.contains(b.name());
    let held = |b: BindingModel| b.held(mods, m.pressed);
    if next.newly_held(mods).len() > 0 {
        let b = next.newly_held(mods)[0];
        assert(next.newly_held(mods).contains(b));
        seqs::lemma_filter_contains(next.bindings, fresh, b);
        seqs::lemma_filter_contains(m.bindings, held, b);
        let k = choose|k: int| 0 <= k < m.held(mods).len() && m.held(mods)[k] == b;
        assert(m.held(mods).map_values(|b: BindingModel| b.name())[k] == b.name());
        assert(m.held(mods).map_values(|b: BindingModel| b.name()).contains(b.name()));
    }
}

/// A client leaving takes its own shortcuts with it and nobody else's.
pub proof fn unregistering_is_scoped_to_the_client(
    m: RegistryModel,
    client: Seq<char>,
    other: Seq<char>,
)
    requires
        other != client,
    ensures
        of_client(m.after_unregister(client).bindings, client).len() == 0,
        of_client(m.after_unregister(client).bindings, other) == of_client(m.bindings, other),
{
    let p = |b: BindingModel| b.client != client;
    let q = |b: BindingModel| b.client == client;
    let r = |b: BindingModel| b.client == other;
    let left = m.after_unregister(client).bindings;
    if of_client(left, client).len() > 0 {
        let b = of_client(left, client)[0];
        assert(of_client(left, client).contains(b));
        seqs::lemma_filter_contains(left, q, b);
        seqs::lemma_filter_contains(m.bindings, p, b);
    }
    seqs::lemma_filter_filter(m.bindings, p, r);
    seqs::lemma_filter_agree(m.bindings, |x: BindingModel| p(x) && r(x), r);
}

/// Binding under one client's name leaves the shortcuts of every other
/// client as they were, also those under the same id.
pub proof fn binding_is_scoped_to_the_client(
    m: RegistryModel,
    client: Seq<char>,
    id: Seq<char>,
    accelerator: Seq<char>,
    other: Seq<char>,
)
    requires
        other != client,
        m.after_bind(client, id, accelerator) is Some,
    ensures
        of_client(m.after_bind(client, id, accelerator)->0.bindings, other) == of_client(
            m.bindings,
            other,
        ),
{
    let added = m.after_bind(client, id, accelerator)->0.bindings.last();
    seqs::lemma_filter_push(
        without(m.bindings, client, id),
        added,
        |b: BindingModel| b.client == other,
    );
    lemma_other_client(m.bindings, client, id, other);
}

} // verus!
