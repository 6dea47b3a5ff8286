//! Which keys do what.

use vstd::prelude::*;

use crate::input::{FilterModel, KeyModel};
use crate::seqs;
use crate::shortcuts::{
    ActivatedShortcut, BindingModel, RegistryModel, ShortcutKey, ShortcutMods,
};
use crate::shortcuts;
use crate::text;

verus! {

/// A key that the binding asks for is held.
pub open spec fn down(key: ShortcutKey, pressed: Set<u32>) -> bool {
    shortcuts::awaited_code(key) matches Some(code) && pressed.contains(code)
}

/// A binding is activated exactly if the held modifiers are those that it asks
/// for, no more and no less, all of its keys are held, and it was not active
/// at the last look.
pub proof fn bindings_need_exactly_their_modifiers(m: RegistryModel, mods: ShortcutMods, k: int)
    requires
        0 <= k < m.bindings.len(),
    ensures
        ({
            let b = m.bindings[k];
            m.newly_held(mods).contains(b) <==> {
                &&& b.mods.ctrl == mods.ctrl
                &&& b.mods.alt == mods.alt
                &&& b.mods.shift == mods.shift
                &&& b.mods.logo == mods.logo
                &&& forall|i: int| 0 <= i < b.keys.len() ==> down(#[trigger] b.keys[i], m.pressed)
                &&& !m.active.contains((b.client, b.id))
            }
        }),
{
    let b = m.bindings[k];
    let keep = |b: BindingModel| b.held(mods, m.pressed) && !m.active.contains(b.name());
    assert(m.bindings.contains(b));
    seqs::lemma_filter_contains(m.bindings, keep, b);
    assert forall|i: int| 0 <= i < b.keys.len() implies (#[trigger] b.keys[i]).held(m.pressed)
        == down(b.keys[i], m.pressed) by {}
    if forall|i: int| 0 <= i < b.keys.len() ==> down(#[trigger] b.keys[i], m.pressed) {
        assert forall|i: int| 0 <= i < b.keys.len() implies (#[trigger] b.keys[i]).held(
            m.pressed,
        ) by {
            assert(down(b.keys[i], m.pressed));
        }
    }
    if b.held(mods, m.pressed) {
        assert forall|i: int| 0 <= i < b.keys.len() implies down(
            #[trigger] b.keys[i],
            m.pressed,
        ) by {
            assert(b.keys[i].held(m.pressed));
        }
    }
    assert(b.mods == mods <==> b.mods.ctrl == mods.ctrl && b.mods.alt == mods.alt && b.mods.shift
        == mods.shift && b.mods.logo == mods.logo);
}

/// Everything that one look activates is bound, asks for exactly the held
/// modifiers, and so for the same ones.
pub proof fn one_look_activates_one_set_of_modifiers(
    m: RegistryModel,
    mods: ShortcutMods,
    i: int,
    j: int,
)
    requires
        0 <= i < m.newly_held(mods).len(),
        0 <= j < m.newly_held(mods).len(),
    ensures
        m.bindings.contains(m.newly_held(mods)[i]),
        m.newly_held(mods)[i].mods.ctrl == mods.ctrl,
        m.newly_held(mods)[i].mods.alt == mods.alt,
        m.newly_held(mods)[i].mods.shift == mods.shift,
        m.newly_held(mods)[i].mods.logo == mods.logo,
        m.newly_held(mods)[i].mods == m.newly_held(mods)[j].mods,
{
    let keep = |b: BindingModel| b.held(mods, m.pressed) && !m.active.contains(b.name());
    let held = m.newly_held(mods);
    assert(held.contains(held[i]));
    assert(held.contains(held[j]));
    seqs::lemma_filter_contains(m.bindings, keep, held[i]);
    seqs::lemma_filter_contains(m.bindings, keep, held[j]);
}

/// After a look exactly the bindings whose modifiers and keys are held are
/// active, and nothing else has changed.
pub proof fn a_look_notes_what_is_held(m: RegistryModel, mods: ShortcutMods, k: int)
    requires
        m.wf(),
        0 <= k < m.bindings.len(),
    ensures
        ({
            let b = m.bindings[k];
            let next = m.after_look(mods);
            &&& next.bindings == m.bindings
            &&& next.pressed == m.pressed
            &&& next.active.contains((b.client, b.id)) <==> b.mods.ctrl == mods.ctrl && b.mods.alt
                == mods.alt && b.mods.shift == mods.shift && b.mods.logo == mods.logo && forall|
                i: int,
            |
                0 <= i < b.keys.len() ==> down(#[trigger] b.keys[i], m.pressed)
        }),
{
    let b = m.bindings[k];
    let keep = |b: BindingModel| b.held(mods, m.pressed);
    let held = m.held(mods);
    let listed = held.map_values(|b: BindingModel| b.name());
    assert(m.bindings.contains(b));
    seqs::lemma_filter_contains(m.bindings, keep, b);
    if held.contains(b) {
        let i = choose|i: int| 0 <= i < held.len() && held[i] == b;
        assert(listed[i] == b.name());
        assert(listed.contains(b.name()));
    }
    if listed.to_set().contains(b.name()) {
        let i = choose|i: int| 0 <= i < listed.len() && listed[i] == b.name();
        assert(held.contains(held[i]));
        seqs::lemma_filter_contains(m.bindings, keep, held[i]);
        let n = choose|n: int| 0 <= n < m.bindings.len() && m.bindings[n] == held[i];
        if n < k {
            assert(m.bindings[n].name() != m.bindings[k].name());
        } else if k < n {
            assert(m.bindings[k].name() != m.bindings[n].name());
        }
        assert(held.contains(b));
    }
    assert forall|i: int| 0 <= i < b.keys.len() implies (#[trigger] b.keys[i]).held(m.pressed)
        == down(b.keys[i], m.pressed) by {}
    if forall|i: int| 0 <= i < b.keys.len() ==> down(#[trigger] b.keys[i], m.pressed) {
        assert forall|i: int| 0 <= i < b.keys.len() implies (#[trigger] b.keys[i]).held(
            m.pressed,
        ) by {
            assert(down(b.keys[i], m.pressed));
        }
    }
    if b.held(mods, m.pressed) {
        assert forall|i: int| 0 <= i < b.keys.len() implies down(
            #[trigger] b.keys[i],
            m.pressed,
        ) by {
            assert(b.keys[i].held(m.pressed));
        }
    }
}

/// The keys of the keyboard stand in rows: in the order of the row, one number
/// after the other.
pub proof fn keys_are_numbered_along_their_rows(i: int)
    ensures
        ({
            let row = seq!['1', '2', '3', '4', '5', '6', '7', '8', '9', '0'];
            0 <= i < 10 ==> shortcuts::awaited_code(ShortcutKey::Char(row[i])) == Some(
                (10 + i) as u32,
            )
        }),
        ({
            let row = seq!['q', 'w', 'e', 'r', 't', 'y', 'u', 'i', 'o', 'p'];
            0 <= i < 10 ==> shortcuts::awaited_code(ShortcutKey::Char(row[i])) == Some(
                (24 + i) as u32,
            )
        }),
        ({
            let row = seq!['a', 's', 'd', 'f', 'g', 'h', 'j', 'k', 'l'];
            0 <= i < 9 ==> shortcuts::awaited_code(ShortcutKey::Char(row[i])) == Some(
                (38 + i) as u32,
            )
        }),
        ({
            let row = seq!['z', 'x', 'c', 'v', 'b', 'n', 'm'];
            0 <= i < 7 ==> shortcuts::awaited_code(ShortcutKey::Char(row[i])) == Some(
                (52 + i) as u32,
            )
        }),
{
}

/// A letter is the same key however it is written.
pub proof fn capital_letters_are_the_same_keys(c: char, small: char)
    requires
        'A' <= c <= 'Z',
        small as u32 == c as u32 + 32,
    ensures
        shortcuts::awaited_code(ShortcutKey::Char(c)) == shortcuts::awaited_code(
            ShortcutKey::Char(small),
        ),
{
    assert(((c as u32) + 32) as char == small);
}

/// The keys with names, and the function keys: ten in a row, then two more.
pub proof fn named_keys_are_where_they_are(n: u8)
    ensures
        shortcuts::awaited_code(ShortcutKey::Space) == Some(65u32),
        shortcuts::awaited_code(ShortcutKey::Char(' ')) == Some(65u32),
        shortcuts::awaited_code(ShortcutKey::Return) == Some(36u32),
        shortcuts::awaited_code(ShortcutKey::Escape) == Some(9u32),
        1 <= n <= 10 ==> shortcuts::awaited_code(ShortcutKey::F(n)) == Some((66 + n) as u32),
        n == 11 ==> shortcuts::awaited_code(ShortcutKey::F(n)) == Some(95u32),
        n == 12 ==> shortcuts::awaited_code(ShortcutKey::F(n)) == Some(96u32),
        n == 0 || n > 12 ==> shortcuts::awaited_code(ShortcutKey::F(n)) is None,
{
}

/// A modifier follows its two keys, and no other key changes it.
pub proof fn modifiers_follow_their_two_keys(mods: ShortcutMods, key: u32, pressed: bool)
    ensures
        ({
            let after = shortcuts::mods_after(mods, key, pressed);
            &&& after.ctrl == (if key == 29 + 8 || key == 97 + 8 {
                pressed
            } else {
                mods.ctrl
            })
            &&& after.alt == (if key == 56 + 8 || key == 100 + 8 {
                pressed
            } else {
                mods.alt
            })
            &&& after.shift == (if key == 42 + 8 || key == 54 + 8 {
                pressed
            } else {
                mods.shift
            })
            &&& after.logo == (if key == 125 + 8 || key == 126 + 8 {
                pressed
            } else {
                mods.logo
            })
        }),
{
}

/// The names of the modifiers. Each adds its own and leaves the others.
pub proof fn modifiers_are_known_by_their_names(mods: ShortcutMods)
    ensures
        shortcuts::with_modifier(mods, "ctrl"@) == Some(ShortcutMods { ctrl: true, ..mods }),
        shortcuts::with_modifier(mods, "control"@) == Some(ShortcutMods { ctrl: true, ..mods }),
        shortcuts::with_modifier(mods, "alt"@) == Some(ShortcutMods { alt: true, ..mods }),
        shortcuts::with_modifier(mods, "mod1"@) == Some(ShortcutMods { alt: true, ..mods }),
        shortcuts::with_modifier(mods, "shift"@) == Some(ShortcutMods { shift: true, ..mods }),
        shortcuts::with_modifier(mods, "super"@) == Some(ShortcutMods { logo: true, ..mods }),
        shortcuts::with_modifier(mods, "logo"@) == Some(ShortcutMods { logo: true, ..mods }),
        shortcuts::with_modifier(mods, "meta"@) == Some(ShortcutMods { logo: true, ..mods }),
        shortcuts::with_modifier(mods, "mod4"@) == Some(ShortcutMods { logo: true, ..mods }),
        shortcuts::with_modifier(mods, "win"@) == Some(ShortcutMods { logo: true, ..mods }),
{
    reveal_strlit("ctrl");
    reveal_strlit("control");
    reveal_strlit("alt");
    reveal_strlit("mod1");
    reveal_strlit("shift");
    reveal_strlit("super");
    reveal_strlit("logo");
    reveal_strlit("meta");
    reveal_strlit("mod4");
    reveal_strlit("win");
    assert("alt"@[0] != "ctrl"@[0] && "mod1"@[0] == 'm' && "super"@[0] == 's' && "super"@[1] == 'u');
    assert("shift"@[1] == 'h' && "logo"@[0] == 'l' && "meta"@[1] == 'e' && "mod4"@[3] == '4');
    assert("win"@[0] == 'w' && "mod1"@[3] == '1' && "ctrl"@[0] == 'c' && "control"@[0] == 'c');
    assert("shift"@[0] == 's' && "alt"@[0] == 'a' && "meta"@[0] == 'm' && "mod4"@[0] == 'm');
    assert("mod1"@[1] == 'o' && "mod4"@[1] == 'o');
    assert("ctrl"@.len() == 4 && "control"@.len() == 7);
}

/// An accelerator that is accepted asks for a modifier and for at most three
/// other keys, all different.
pub proof fn accelerators_have_a_modifier(text: Seq<char>)
    ensures
        shortcuts::accelerator_meaning(text) matches Ok((mods, keys)) ==> (mods.ctrl || mods.alt
            || mods.shift || mods.logo) && keys.len() <= 3 && keys.no_duplicates(),
{
    shortcuts::lemma_meaning_sound(text);
}

/// Binding a name gives it the modifiers and keys that the accelerator means,
/// whatever it had before, and leaves every other binding as it was. It is
/// refused exactly if the accelerator means nothing, or the client has 256
/// bindings and none of that name.
pub proof fn a_bound_name_has_what_was_asked_for(
    m: RegistryModel,
    client: Seq<char>,
    id: Seq<char>,
    accelerator: Seq<char>,
    b: BindingModel,
)
    requires
        b.client != client || b.id != id,
    ensures
        m.after_bind(client, id, accelerator) is None <==> shortcuts::accelerator_meaning(
            accelerator,
        ) is Err || (m.bindings.filter(|b: BindingModel| b.client == client).len() >= 256 && forall|
            i: int,
        |
            0 <= i < m.bindings.len() ==> (#[trigger] m.bindings[i]).client != client
                || m.bindings[i].id != id),
        m.after_bind(client, id, accelerator) matches Some(next) ==> {
            let (mods, keys) = shortcuts::accelerator_meaning(accelerator)->Ok_0;
            &&& next.bindings.contains(BindingModel { client, id, mods, keys })
            &&& next.bindings.contains(b) <==> m.bindings.contains(b)
            &&& !next.active.contains((client, id))
            &&& next.pressed == m.pressed
        },
{
    if shortcuts::bound(m.bindings, client, id) {
        let i = choose|i: int|
            0 <= i < m.bindings.len() && (#[trigger] m.bindings[i]).name() == (client, id);
        assert(m.bindings[i].client == client && m.bindings[i].id == id);
    } else {
        assert forall|i: int| 0 <= i < m.bindings.len() implies (
        #[trigger] m.bindings[i]).client != client || m.bindings[i].id != id by {
            assert(m.bindings[i].name() != (client, id));
        }
    }
    assert(m.bindings.filter(|b: BindingModel| b.client == client) == shortcuts::of_client(
        m.bindings,
        client,
    ));
    match m.after_bind(client, id, accelerator) {
        Some(next) => {
            let (mods, keys) = shortcuts::accelerator_meaning(accelerator)->Ok_0;
            let added = BindingModel { client, id, mods, keys };
            let keep = |b: BindingModel| b.client != client || b.id != id;
            let rest = m.bindings.filter(keep);
            assert(next.bindings == rest.push(added));
            assert(next.bindings[rest.len() as int] == added);
            seqs::lemma_filter_contains(m.bindings, keep, b);
            if rest.contains(b) {
                let i = choose|i: int| 0 <= i < rest.len() && rest[i] == b;
                assert(next.bindings[i] == b);
            }
            if next.bindings.contains(b) {
                let i = choose|i: int| 0 <= i < next.bindings.len() && next.bindings[i] == b;
                assert(rest[i] == b);
            }
        },
        None => {},
    }
}

/// Releasing a name removes its binding and no other.
pub proof fn unbinding_removes_one_name(
    m: RegistryModel,
    client: Seq<char>,
    id: Seq<char>,
    b: BindingModel,
)
    ensures
        m.after_unbind(client, id).bindings.contains(b) <==> m.bindings.contains(b) && !(b.client
            == client && b.id == id),
        !m.after_unbind(client, id).active.contains((client, id)),
        m.after_unbind(client, id).pressed == m.pressed,
{
    seqs::lemma_filter_contains(
        m.bindings,
        |b: BindingModel| b.client != client || b.id != id,
        b,
    );
}

/// A key is held from its press to its release, and other keys stay as they
/// are. Forgetting the held keys leaves none, and no binding active.
pub proof fn keys_are_held_until_released(m: RegistryModel, key: u32, other: u32, pressed: bool)
    ensures
        m.after_key(key, pressed).pressed.contains(key) <==> pressed,
        other != key ==> (m.after_key(key, pressed).pressed.contains(other)
            <==> m.pressed.contains(other)),
        m.after_key(key, pressed).bindings == m.bindings,
        m.after_key(key, pressed).active == m.active,
        !m.after_clear().pressed.contains(key),
        m.after_clear().bindings == m.bindings,
        forall|name: (Seq<char>, Seq<char>)| !(#[trigger] m.after_clear().active.contains(name)),
{
}

/// What a pressed key does: the keys for terminals switch, also as function
/// keys with control and alt held; control, logo and escape leave where that
/// is possible; then come the shortcuts, unless the client takes them over;
/// everything else goes to the client.
pub proof fn pressed_keys_do_one_thing(
    f: FilterModel,
    key: u32,
    sym: u32,
    activated: Seq<ActivatedShortcut>,
    inhibited: bool,
    emergency: bool,
)
    ensures
        ({
            let action = f.decide(key, true, sym, activated, inhibited, emergency).1;
            let symbol = 0x1008_fe01 <= sym <= 0x1008_fe0c;
            let row = f.mods.ctrl && f.mods.alt && (67 <= key <= 76 || key == 95 || key == 96);
            &&& symbol ==> action == KeyModel::ChangeVt((sym - 0x1008_fe00) as i32)
            &&& !symbol && f.mods.ctrl && f.mods.alt && 67 <= key <= 76 ==> action
                == KeyModel::ChangeVt((key - 66) as i32)
            &&& !symbol && f.mods.ctrl && f.mods.alt && key == 95 ==> action == KeyModel::ChangeVt(
                11,
            )
            &&& !symbol && f.mods.ctrl && f.mods.alt && key == 96 ==> action == KeyModel::ChangeVt(
                12,
            )
            &&& action is ChangeVt ==> symbol || row
            &&& action is Exit <==> !symbol && !row && emergency && f.mods.ctrl && f.mods.logo
                && sym == 0xff1b
            &&& !symbol && !row && !(action is Exit) && activated.len() > 0 && !inhibited
                ==> action == KeyModel::Shortcuts(activated)
            &&& !symbol && !row && !(action is Exit) && (activated.len() == 0 || inhibited)
                ==> action is Forward
        }),
{
}

/// A function key is named by an f and its number, other keys by their
/// character, and the three that have names by those.
pub proof fn keys_are_known_by_their_names(n: nat, c: char)
    ensures
        1 <= n <= 12 ==> shortcuts::function_key(seq!['f'] + text::decimal(n)) == Some(
            ShortcutKey::F(n as u8),
        ),
        13 <= n <= 255 ==> shortcuts::function_key(seq!['f'] + text::decimal(n)) is None,
        shortcuts::key_of(seq![c]) == Ok::<ShortcutKey, Seq<char>>(ShortcutKey::Char(c)),
        shortcuts::key_of("return"@) == Ok::<ShortcutKey, Seq<char>>(ShortcutKey::Return),
        shortcuts::key_of("enter"@) == Ok::<ShortcutKey, Seq<char>>(ShortcutKey::Return),
        shortcuts::key_of("space"@) == Ok::<ShortcutKey, Seq<char>>(ShortcutKey::Space),
        shortcuts::key_of("esc"@) == Ok::<ShortcutKey, Seq<char>>(ShortcutKey::Escape),
        shortcuts::key_of("escape"@) == Ok::<ShortcutKey, Seq<char>>(ShortcutKey::Escape),
{
    let name = seq!['f'] + text::decimal(n);
    assert(name.drop_first() =~= text::decimal(n));
    if n <= 255 {
        text::decimal_reads_back(n, 255);
    }
    reveal_strlit("return");
    reveal_strlit("enter");
    reveal_strlit("space");
    reveal_strlit("esc");
    reveal_strlit("escape");
    assert("return"@.len() == 6 && "enter"@.len() == 5 && "space"@.len() == 5 && "esc"@.len() == 3
        && "escape"@.len() == 6);
    assert("return"@[0] == 'r' && "enter"@[0] == 'e' && "space"@[0] == 's' && "escape"@[0] == 'e');
    let one = seq![c];
    assert(one.drop_first() =~= Seq::<char>::empty());
}

} // verus!
