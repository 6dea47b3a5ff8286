//! How texts, shortcuts and changes of the settings are read.

use vstd::prelude::*;

use crate::bindings;
use crate::blur::RegionRect;
use crate::blur;
use crate::changes;
use crate::config::{
    BindingConfig, CompositorConfig, DecorationConfig, WindowConfig, WindowRuleConfig,
};
use crate::geometry::Rect;
use crate::geometry;
use crate::input;
use crate::layers;
use crate::model::WindowId;
use crate::protocol::{BindingModel, ShortcutCommand};
use crate::rules::AppliedModel;
use crate::shortcuts::{ShortcutKey, ShortcutMods};
use crate::shortcuts;
use crate::state::StateModel;
use crate::state;
use crate::text;

verus! {

proof fn lemma_trim_start(whole: Seq<char>)
    ensures
        ({
            let t = text::trim_start(whole);
            &&& t.len() <= whole.len()
            &&& t == whole.skip(whole.len() - t.len())
            &&& t.len() > 0 ==> !text::white(t[0])
            &&& forall|i: int|
                0 <= i < whole.len() - t.len() ==> text::white(#[trigger] whole[i])
        }),
    decreases whole.len(),
{
    if whole.len() > 0 && text::white(whole[0]) {
        let rest = whole.drop_first();
        lemma_trim_start(rest);
        let t = text::trim_start(whole);
        assert(t =~= whole.skip(whole.len() - t.len()));
        assert forall|i: int| 0 <= i < whole.len() - t.len() implies text::white(
            #[trigger] whole[i],
        ) by {
            if i > 0 {
                assert(rest[i - 1] == whole[i]);
            }
        }
    } else {
        assert(whole =~= whole.skip(0));
    }
}

proof fn lemma_trim_end(whole: Seq<char>)
    ensures
        ({
            let t = text::trim_end(whole);
            &&& t.len() <= whole.len()
            &&& t == whole.take(t.len() as int)
            &&& t.len() > 0 ==> !text::white(t.last())
            &&& forall|i: int|
                t.len() <= i < whole.len() ==> text::white(#[trigger] whole[i])
        }),
    decreases whole.len(),
{
    if whole.len() > 0 && text::white(whole.last()) {
        let rest = whole.drop_last();
        lemma_trim_end(rest);
        let t = text::trim_end(whole);
        assert(t =~= whole.take(t.len() as int));
        assert forall|i: int| t.len() <= i < whole.len() implies text::white(
            #[trigger] whole[i],
        ) by {
            if i < rest.len() {
                assert(rest[i] == whole[i]);
            }
        }
    } else {
        assert(whole =~= whole.take(whole.len() as int));
    }
}

/// Trimming takes blanks from both ends of a text, as many as there are, and
/// nothing else.
pub proof fn trimming_takes_the_blanks_at_both_ends(whole: Seq<char>)
    ensures
        ({
            let t = text::trimmed(whole);
            &&& t.len() > 0 ==> t[0] != ' ' && t.last() != ' ' && t[0] != '\n' && t.last() != '\n'
                && t[0] != '\t' && t.last() != '\t'
            &&& exists|from: int|
                #![trigger whole.subrange(from, from + t.len())]
                0 <= from && from + t.len() <= whole.len() && t == whole.subrange(
                    from,
                    from + t.len(),
                ) && (forall|i: int| 0 <= i < from ==> text::white(#[trigger] whole[i])) && (
                forall|i: int|
                    from + t.len() <= i < whole.len() ==> text::white(#[trigger] whole[i]))
        }),
{
    let s = text::trim_start(whole);
    let t = text::trimmed(whole);
    lemma_trim_start(whole);
    lemma_trim_end(s);
    let from = whole.len() - s.len();
    assert(t =~= whole.subrange(from, from + t.len()));
    assert forall|i: int| from + t.len() <= i < whole.len() implies text::white(
        #[trigger] whole[i],
    ) by {
        assert(s[i - from] == whole[i]);
    }
    if t.len() > 0 {
        assert(t[0] == s[0]);
    }
}

/// Texts between plus signs: their parts are what stands between two signs.
pub proof fn parts_stand_between_separators(left: Seq<char>, right: Seq<char>)
    requires
        !right.contains('+'),
    ensures
        text::split(left + "+"@ + right, bindings::plus()) == text::split(
            left,
            bindings::plus(),
        ).push(right),
        text::split(right, bindings::plus()) == seq![right],
    decreases right.len(),
{
    reveal_strlit("+");
    let whole = left + "+"@ + right;
    text::lemma_split_nonempty(left, bindings::plus());
    if right.len() == 0 {
        assert(whole.drop_last() =~= left);
        assert(whole.last() == '+');
        assert(right =~= Seq::<char>::empty());
    } else {
        let shorter = right.drop_last();
        assert(!shorter.contains('+')) by {
            if shorter.contains('+') {
                let i = choose|i: int| 0 <= i < shorter.len() && shorter[i] == '+';
                assert(right[i] == '+');
            }
        }
        parts_stand_between_separators(left, shorter);
        assert(whole.drop_last() =~= left + "+"@ + shorter);
        assert(whole.last() == right.last());
        assert(right[right.len() - 1] != '+');
        assert(shorter.push(right.last()) =~= right);
        let before = text::split(left, bindings::plus());
        assert(before.push(shorter).update(before.len() as int, right) =~= before.push(right));
        assert(seq![shorter].update(0, right) =~= seq![right]);
    }
}

/// A configured shortcut is offered to clients under the command that it has:
/// its number or its command line is the argument.
pub proof fn configured_shortcuts_are_offered(
    b: BindingConfig,
    action: Seq<char>,
    value: u64,
    line: Seq<char>,
)
    requires
        b@.action == Some(action) && b@.command is None || b@.action is None && b@.command == Some(
            line,
        ) && b@.value is None,
        b@.value is Some ==> b@.value == Some(value),
    ensures
        b@.action is None ==> (bindings::shortcut_of(b) matches Some(s) && s.command
            == ShortcutCommand::Execute && s.argument == Some(line) && s.accelerator
            == text::joined(b@.keys, "+"@)),
        b@.action is Some && action == "close"@ && b@.value is None ==> (bindings::shortcut_of(
            b,
        ) matches Some(s) && s.command == ShortcutCommand::Close && s.argument is None),
        b@.action is Some && action == "workspace"@ && b@.value is Some ==> (bindings::shortcut_of(
            b,
        ) matches Some(s) && s.command == ShortcutCommand::Workspace && s.argument == Some(
            text::decimal(value as nat),
        )),
        b@.action is Some && action == "move-to-workspace"@ && b@.value is Some ==> (
        bindings::shortcut_of(b) matches Some(s) && s.command == ShortcutCommand::MoveToWorkspace
            && s.argument == Some(text::decimal(value as nat))),
{
    reveal_strlit("close");
    reveal_strlit("workspace");
    reveal_strlit("move-to-workspace");
    assert("close"@.len() == 5 && "workspace"@.len() == 9 && "move-to-workspace"@.len() == 17);
}

/// A shortcut that a client sets up is written into the settings with its own
/// action.
pub proof fn shortcuts_of_clients_are_written_down(s: BindingModel, value: u64, line: Seq<char>)
    ensures
        s.command == ShortcutCommand::Close && s.argument is None ==> (bindings::setting_of(
            s,
        ) matches Some(b) && b.action == Some("close"@) && b.command is None && b.value is None),
        s.command == ShortcutCommand::Workspace && s.argument == Some(text::decimal(value as nat))
            ==> (bindings::setting_of(s) matches Some(b) && b.action == Some("workspace"@)
            && b.command is None && b.value == Some(value)),
        s.command == ShortcutCommand::MoveToWorkspace && s.argument == Some(
            text::decimal(value as nat),
        ) ==> (bindings::setting_of(s) matches Some(b) && b.action == Some("move-to-workspace"@)
            && b.command is None && b.value == Some(value)),
        s.command == ShortcutCommand::Execute && s.argument == Some(line) && !text::blank(line)
            ==> (bindings::setting_of(s) matches Some(b) && b.action is None && b.command == Some(
            line,
        ) && b.value is None),
        s.command != ShortcutCommand::Close && s.argument is None ==> bindings::setting_of(s)
            is None,
{
    text::decimal_reads_back(value as nat, u64::MAX as nat);
}

/// The keys for another terminal lead there, and the function keys do while Ctrl
/// and Alt are held.
pub proof fn terminals_are_reached_by_their_keys(mods: ShortcutMods, key: u32, n: u32)
    requires
        1 <= n <= 12,
    ensures
        input::terminal(mods, key, (0x1008_fe00 + n) as u32) == Some(n as i32),
        mods.ctrl && mods.alt && n <= 10 ==> input::terminal(mods, (66 + n) as u32, 0) == Some(
            n as i32,
        ),
        !(mods.ctrl && mods.alt) ==> input::terminal(mods, key, 0) is None,
{
}

/// Two settings of windows are the same only if all their parts are.
pub proof fn every_part_of_the_window_settings_counts(a: WindowConfig, b: WindowConfig)
    ensures
        a.default_width != b.default_width ==> !changes::same_window(a, b),
        a.default_height != b.default_height ==> !changes::same_window(a, b),
        a.server_side_decorations != b.server_side_decorations ==> !changes::same_window(a, b),
        a.layout != b.layout ==> !changes::same_window(a, b),
        a.work_area_padding != b.work_area_padding ==> !changes::same_window(a, b),
        a.gap != b.gap ==> !changes::same_window(a, b),
        !a.master_ratio.same(b.master_ratio) ==> !changes::same_window(a, b),
{
}

/// Two settings of frames are the same only if all their parts are.
pub proof fn every_part_of_the_frame_settings_counts(a: DecorationConfig, b: DecorationConfig)
    ensures
        a.mode != b.mode ==> !changes::same_decorations(a, b),
        a.titlebar_height != b.titlebar_height ==> !changes::same_decorations(a, b),
        a.border_width != b.border_width ==> !changes::same_decorations(a, b),
        a.corner_radius != b.corner_radius ==> !changes::same_decorations(a, b),
        a.active_titlebar@ != b.active_titlebar@ ==> !changes::same_decorations(a, b),
        a.inactive_titlebar@ != b.inactive_titlebar@ ==> !changes::same_decorations(a, b),
        a.active_border@ != b.active_border@ ==> !changes::same_decorations(a, b),
        a.inactive_border@ != b.inactive_border@ ==> !changes::same_decorations(a, b),
        a.close_button@ != b.close_button@ ==> !changes::same_decorations(a, b),
        a.maximize_button@ != b.maximize_button@ ==> !changes::same_decorations(a, b),
        a.minimize_button@ != b.minimize_button@ ==> !changes::same_decorations(a, b),
        a.buttons.layout@ != b.buttons.layout@ ==> !changes::same_decorations(a, b),
        a.buttons.side != b.buttons.side ==> !changes::same_decorations(a, b),
{
}

/// Two rules are the same only if they select the same windows and say the same
/// of them.
pub proof fn every_part_of_a_rule_counts(a: WindowRuleConfig, b: WindowRuleConfig)
    requires
        changes::same_rule(a, b),
    ensures
        a.floating == b.floating,
        a.tiled == b.tiled,
        a.always_on_top == b.always_on_top,
        a.decoration == b.decoration,
        (a.size is Some) == (b.size is Some),
        a.size is Some ==> a.size->0@[0] == b.size->0@[0] && a.size->0@[1] == b.size->0@[1],
        (a.position is Some) == (b.position is Some),
        a.position is Some ==> a.position->0@[0] == b.position->0@[0] && a.position->0@[1]
            == b.position->0@[1],
        (a.app_id is Some) == (b.app_id is Some),
        a.app_id is Some ==> a.app_id->0@ == b.app_id->0@,
        (a.title is Some) == (b.title is Some),
        a.title is Some ==> a.title->0@ == b.title->0@,
        (a.regex is Some) == (b.regex is Some),
        a.regex is Some ==> a.regex->0@ == b.regex->0@,
        (a.workspace is Some) == (b.workspace is Some),
        a.workspace is Some ==> a.workspace->0@ == b.workspace->0@,
        (a.output is Some) == (b.output is Some),
        a.output is Some ==> a.output->0@ == b.output->0@,
        (a.opacity is Some) == (b.opacity is Some),
        a.opacity is Some ==> a.opacity->0.same(b.opacity->0),
{
}

/// Frames are decided anew if who draws them was changed, and windows are
/// arranged anew if anything of windows or frames was.
pub proof fn changes_take_effect_where_they_matter(a: CompositorConfig, b: CompositorConfig)
    ensures
        state::redecorates(a, b) <==> a.decorations.mode != b.decorations.mode
            || a.window.server_side_decorations != b.window.server_side_decorations,
        a.window.gap != b.window.gap ==> state::rearranges(a, b),
        a.window.layout != b.window.layout ==> state::rearranges(a, b),
        a.window.work_area_padding != b.window.work_area_padding ==> state::rearranges(a, b),
        !a.window.master_ratio.same(b.window.master_ratio) ==> state::rearranges(a, b),
        a.decorations.titlebar_height != b.decorations.titlebar_height ==> state::rearranges(a, b),
        a.decorations.border_width != b.decorations.border_width ==> state::rearranges(a, b),
        state::redecorates(a, b) ==> state::rearranges(a, b),
        state::rearranges(a, b) ==> !changes::same_config(a, b),
{
}

/// A workspace is selected by its number or, if there is none with that number,
/// by its name.
pub proof fn workspaces_are_selected_by_number_first(s: StateModel, number: u64)
    ensures
        s.desktop.workspace_place(number) is Some ==> s.workspace_selected(
            text::decimal(number as nat),
        ) == Some(number),
        s.desktop.workspace_place(number) is None ==> s.workspace_selected(
            text::decimal(number as nat),
        ) == s.workspace_named(text::decimal(number as nat), 0),
{
    text::decimal_reads_back(number as nat, u64::MAX as nat);
}

/// The first workspace with a name is the one that has it.
pub proof fn workspaces_are_found_by_name(s: StateModel, name: Seq<char>, from: int)
    requires
        0 <= from,
    ensures
        match s.workspace_named(name, from) {
            Some(id) => exists|i: int|
                from <= i < s.desktop.workspaces.len() && (#[trigger] s.desktop.workspaces[i]).name
                    == name && s.desktop.workspaces[i].id == id,
            None => forall|i: int|
                from <= i < s.desktop.workspaces.len() ==> (#[trigger] s.desktop.workspaces[i]).name
                    != name,
        },
    decreases s.desktop.workspaces.len() - from,
{
    if from < s.desktop.workspaces.len() {
        if s.desktop.workspaces[from].name == name {
            assert(s.desktop.workspaces[from].id == s.workspace_named(name, from)->0);
        } else {
            workspaces_are_found_by_name(s, name, from + 1);
        }
    }
}

/// What the rules say of a window in words stays with it.
pub proof fn windows_are_described_by_their_rules(
    id: WindowId,
    title: Seq<char>,
    app_id: Option<Seq<char>>,
    applied: AppliedModel,
)
    ensures
        ({
            let d = state::described(id, title, app_id, applied);
            &&& d.id == id && d.title == title && d.app_id == app_id
            &&& d.workspace == applied.workspace
            &&& d.output == applied.output
            &&& d.position == applied.position
        }),
{
}

/// The hull of two rectangles holds both, and each of its sides is a side of one
/// of them.
pub proof fn hulls_hold_both_and_no_more(a: Rect, b: Rect, x: int, y: int)
    ensures
        ({
            let h = geometry::hull(a, b);
            &&& a.holds(x, y) || b.holds(x, y) ==> h.x <= x < h.x + h.width && h.y <= y < h.y
                + h.height
            &&& h.x == a.x || h.x == b.x
            &&& h.y == a.y || h.y == b.y
            &&& h.x + h.width == a.x + a.width || h.x + h.width == b.x + b.width
            &&& h.y + h.height == a.y + a.height || h.y + h.height == b.y + b.height
        }),
{
}

/// The bounds of one added rectangle are that rectangle.
pub proof fn the_bounds_of_one_rectangle_are_its_own(rect: Rect)
    ensures
        ({
            let b = blur::bounds(seq![RegionRect { added: true, rect }]);
            &&& b.x == rect.x && b.y == rect.y
            &&& b.width == rect.width && b.height == rect.height
        }),
{
    let one = seq![RegionRect { added: true, rect }];
    assert(one.drop_last() =~= Seq::<RegionRect>::empty());
    assert(blur::edges(one.drop_last()) is None);
    assert(one.last().rect == rect);
}

/// Of two names the one with the smaller character where they first differ comes
/// first, and the beginning of a name comes before the whole.
pub proof fn names_are_ordered_by_their_first_difference(
    common: Seq<char>,
    a: char,
    b: char,
    left: Seq<char>,
    right: Seq<char>,
)
    ensures
        (a as u32) < (b as u32) ==> layers::comes_before(
            common + (seq![a] + left),
            common + (seq![b] + right),
        ),
        (a as u32) > (b as u32) ==> !layers::comes_before(
            common + (seq![a] + left),
            common + (seq![b] + right),
        ),
        layers::comes_before(common, common + (seq![b] + right)),
        !layers::comes_before(common + (seq![a] + left), common),
        !layers::comes_before(common, common),
    decreases common.len(),
{
    let x = common + (seq![a] + left);
    let y = common + (seq![b] + right);
    if common.len() == 0 {
        assert(x[0] == a && y[0] == b);
    } else {
        let rest = common.skip(1);
        names_are_ordered_by_their_first_difference(rest, a, b, left, right);
        assert(x[0] == common[0] && y[0] == common[0]);
        assert(x.skip(1) =~= rest + (seq![a] + left));
        assert(y.skip(1) =~= rest + (seq![b] + right));
    }
}

/// An accelerator has three keys besides its modifiers at most: a fourth is
/// refused, and so is one that is there already; any other is added at the end.
pub proof fn accelerators_have_three_keys_at_most(
    mods: ShortcutMods,
    keys: Seq<ShortcutKey>,
    token: Seq<char>,
    key: ShortcutKey,
)
    requires
        text::lowercased(text::trimmed(token)).len() > 0,
        shortcuts::with_modifier(mods, text::lowercased(text::trimmed(token))) is None,
        shortcuts::key_of(text::lowercased(text::trimmed(token))) == Ok::<
            ShortcutKey,
            Seq<char>,
        >(key),
    ensures
        keys.len() == 3 ==> shortcuts::with_token(mods, keys, token) is Err,
        keys.len() < 3 && keys.contains(key) ==> shortcuts::with_token(mods, keys, token) is Err,
        keys.len() < 3 && !keys.contains(key) ==> shortcuts::with_token(mods, keys, token) == Ok::<
            (ShortcutMods, Seq<ShortcutKey>),
            Seq<char>,
        >((mods, keys.push(key))),
{
}

} // verus!
