//! What window rules, settings and configured shortcuts come to.

use vstd::prelude::*;

use crate::bindings::{ActionModel, StaticModel};
use crate::bindings;
use crate::config::BindingConfig;
use crate::geometry::{Location, Rect, Size};
use crate::invariants;
use crate::model::{DesktopModel, Effect, ManagedWindow, WindowId, WindowLayout};
use crate::protocol::EventModel;
use crate::regexes;
use crate::rules::{AppliedModel, RuleModel, RuleSetModel};
use crate::rules;
use crate::state::{StateModel, TextModel};
use crate::state;
use crate::text;

verus! {

/// A rule is for a window if everything that it asks for is true of it: the
/// application, the title, and an expression that is found in either. A rule
/// that asks for nothing is for every window.
pub proof fn rules_match_all_that_they_ask_for(
    rule: RuleModel,
    title: Seq<char>,
    app_id: Option<Seq<char>>,
)
    requires
        rule.class is None,
        rule.role is None,
        rule.window_type is None,
    ensures
        rule.app_id matches Some(wanted) && app_id != Some(wanted) ==> !rule.selects(title, app_id),
        rule.title matches Some(wanted) && title != wanted ==> !rule.selects(title, app_id),
        rule.regex matches Some(pattern) && !regexes::regex_matches(pattern, title) && !(
        app_id matches Some(id) && regexes::regex_matches(pattern, id)) ==> !rule.selects(
            title,
            app_id,
        ),
        (rule.app_id is None || rule.app_id == app_id) && (rule.title is None || rule.title == Some(
            title,
        )) && (rule.regex is None || regexes::regex_matches(rule.regex->0, title) || (app_id is Some
            && regexes::regex_matches(rule.regex->0, app_id->0))) ==> rule.selects(title, app_id),
{
}

/// A rule changes what it speaks of and nothing else. To be tiled is not to
/// float; a rule that says both is taken by the latter.
pub proof fn rules_change_what_they_speak_of(before: AppliedModel, rule: RuleModel)
    ensures
        ({
            let after = before.apply(rule);
            &&& rule.floating is Some ==> after.floating == rule.floating
            &&& rule.floating is None && rule.tiled == Some(true) ==> after.floating == Some(false)
            &&& rule.floating is None && rule.tiled == Some(false) ==> after.floating == Some(true)
            &&& rule.floating is None && rule.tiled is None ==> after.floating == before.floating
            &&& after.workspace == (if rule.workspace is Some {
                rule.workspace
            } else {
                before.workspace
            })
            &&& after.output == (if rule.output is Some {
                rule.output
            } else {
                before.output
            })
            &&& after.size == (if rule.size is Some {
                rule.size
            } else {
                before.size
            })
            &&& after.position == (if rule.position is Some {
                rule.position
            } else {
                before.position
            })
            &&& after.opacity == (if rule.opacity is Some {
                rule.opacity
            } else {
                before.opacity
            })
            &&& after.always_on_top == (if rule.always_on_top is Some {
                rule.always_on_top
            } else {
                before.always_on_top
            })
            &&& after.decoration == (if rule.decoration is Some {
                rule.decoration
            } else {
                before.decoration
            })
        }),
{
}

/// Where two rules for a window disagree, the later one decides. Rules that
/// are not for it decide nothing.
pub proof fn the_last_matching_rule_decides(
    rules: Seq<RuleModel>,
    title: Seq<char>,
    app_id: Option<Seq<char>>,
    k: int,
)
    requires
        0 <= k < rules.len(),
        rules[k].selects(title, app_id),
    ensures
        ({
            let said = rules::nothing_said().hear(rules, title, app_id);
            &&& rules[k].size is Some && (forall|j: int|
                k < j < rules.len() && (#[trigger] rules[j]).selects(title, app_id)
                    ==> rules[j].size is None) ==> said.size == rules[k].size
            &&& rules[k].position is Some && (forall|j: int|
                k < j < rules.len() && (#[trigger] rules[j]).selects(title, app_id)
                    ==> rules[j].position is None) ==> said.position == rules[k].position
            &&& rules[k].workspace is Some && (forall|j: int|
                k < j < rules.len() && (#[trigger] rules[j]).selects(title, app_id)
                    ==> rules[j].workspace is None) ==> said.workspace == rules[k].workspace
            &&& rules[k].output is Some && (forall|j: int|
                k < j < rules.len() && (#[trigger] rules[j]).selects(title, app_id)
                    ==> rules[j].output is None) ==> said.output == rules[k].output
            &&& rules[k].opacity is Some && (forall|j: int|
                k < j < rules.len() && (#[trigger] rules[j]).selects(title, app_id)
                    ==> rules[j].opacity is None) ==> said.opacity == rules[k].opacity
            &&& rules[k].floating is Some && (forall|j: int|
                k < j < rules.len() && (#[trigger] rules[j]).selects(title, app_id)
                    ==> rules[j].floating is None && rules[j].tiled is None) ==> said.floating
                == rules[k].floating
        }),
    decreases rules.len(),
{
    let rest = rules.drop_last();
    if k < rules.len() - 1 {
        the_last_matching_rule_decides(rest, title, app_id, k);
        let last = rules[rules.len() - 1];
        assert(last == rules.last());
        assert forall|j: int| k < j < rest.len() implies #[trigger] rest[j] == rules[j] by {}
        let said = rules::nothing_said().hear(rules, title, app_id);
        let before = rules::nothing_said().hear(rest, title, app_id);
        if rules[k].size is Some && (forall|j: int|
            k < j < rules.len() && (#[trigger] rules[j]).selects(title, app_id)
                ==> rules[j].size is None) {
            assert(before.size == rules[k].size);
        }
    }
}

/// The rules of clients are heard after the configured ones.
pub proof fn clients_have_the_last_word(
    set: RuleSetModel,
    title: Seq<char>,
    app_id: Option<Seq<char>>,
)
    ensures
        set.temporary.len() == 0 ==> set.resolve(title, app_id) == rules::nothing_said().hear(
            set.configured,
            title,
            app_id,
        ),
        set.temporary.len() == 1 && set.temporary[0].rules.len() == 1 && set.temporary[0].rules[0].rule.selects(
            title,
            app_id,
        ) ==> set.resolve(title, app_id) == rules::nothing_said().hear(
            set.configured,
            title,
            app_id,
        ).apply(set.temporary[0].rules[0].rule),
{
    if set.temporary.len() == 0 {
        assert(set.configured + rules::flattened(set.temporary) =~= set.configured);
    }
    if set.temporary.len() == 1 && set.temporary[0].rules.len() == 1 {
        let rule = set.temporary[0].rules[0].rule;
        assert(set.temporary.drop_last() =~= Seq::empty());
        let all = set.configured + rules::flattened(set.temporary);
        assert(rules::flattened(set.temporary.drop_last()) =~= Seq::empty());
        assert(rules::flattened(set.temporary) =~= seq![rule]);
        assert(all =~= set.configured.push(rule));
        assert(all.drop_last() =~= set.configured);
    }
}

/// A new floating window whose rules give a size is told a size as wide as the
/// first number of the setting and as high as the second.
pub proof fn rules_give_the_width_first(
    s: StateModel,
    id: WindowId,
    title: Seq<char>,
    app_id: Option<Seq<char>>,
    applied: AppliedModel,
    fixed_size: bool,
)
    requires
        s.desktop.wf(),
        s.desktop.has(id),
        applied.size is Some,
        applied.floating == Some(true) || (applied.floating is None && s.desktop.settings.layout
            == WindowLayout::Floating),
    ensures
        s.configured(id, title, app_id, applied, fixed_size).desktop.effects.contains(
            Effect::ProposeSize {
                id,
                size: Some(Size { w: applied.size->0@[0], h: applied.size->0@[1] }),
            },
        ),
{
    super::placing::new_floating_windows_are_told_their_size(
        s.desktop,
        id,
        state::outcome_of(applied),
        fixed_size,
    );
}

/// What the rules say of a new window reaches it, setting by setting.
pub proof fn rules_reach_new_windows(
    s: StateModel,
    id: WindowId,
    title: Seq<char>,
    app_id: Option<Seq<char>>,
    applied: AppliedModel,
    fixed_size: bool,
)
    requires
        s.desktop.wf(),
        s.desktop.has(id),
    ensures
        ({
            let window = s.configured(id, title, app_id, applied, fixed_size).desktop.window(id);
            &&& window.floating == applied.floating
            &&& window.opacity == applied.opacity
            &&& window.always_on_top == applied.always_on_top
            &&& window.decoration == applied.decoration
        }),
{
    super::placing::rules_reach_the_window(s.desktop, id, state::outcome_of(applied), fixed_size);
}

proof fn lemma_text_place(texts: Seq<TextModel>, id: WindowId, from: int)
    requires
        0 <= from,
    ensures
        match state::text_place(texts, id, from) {
            Some(i) => from <= i < texts.len() && texts[i].id == id && forall|j: int|
                from <= j < i ==> (#[trigger] texts[j]).id != id,
            None => forall|j: int| from <= j < texts.len() ==> (#[trigger] texts[j]).id != id,
        },
    decreases texts.len() - from,
{
    if from < texts.len() && texts[from].id != id {
        lemma_text_place(texts, id, from + 1);
    }
}

/// What is noted of a window is found again, and other windows keep theirs.
pub proof fn texts_are_found_again(texts: Seq<TextModel>, noted: TextModel, other: WindowId)
    ensures
        state::text_of(state::with_text(texts, noted), noted.id) == noted,
        other != noted.id ==> state::text_of(state::with_text(texts, noted), other)
            == state::text_of(texts, other),
{
    let next = state::with_text(texts, noted);
    lemma_text_place(texts, noted.id, 0);
    lemma_text_place(next, noted.id, 0);
    lemma_text_place(texts, other, 0);
    lemma_text_place(next, other, 0);
    match state::text_place(texts, noted.id, 0) {
        Some(i) => {
            assert(next[i].id == noted.id);
            let k = state::text_place(next, noted.id, 0)->0;
            if k < i {
                assert(texts[k].id != noted.id);
            }
        },
        None => {
            let n = texts.len() as int;
            assert(next[n].id == noted.id);
            let k = state::text_place(next, noted.id, 0)->0;
            if k < n {
                assert(texts[k].id != noted.id);
            }
        },
    }
    if other != noted.id {
        match state::text_place(texts, other, 0) {
            Some(i) => {
                assert(next[i] == texts[i]);
                let k = state::text_place(next, other, 0)->0;
                if k < i {
                    assert(next[k] == texts[k] || next[k] == noted);
                    assert(texts[k].id != other);
                }
            },
            None => {
                match state::text_place(next, other, 0) {
                    Some(k) => {
                        if k < texts.len() {
                            assert(texts[k].id != other);
                        }
                    },
                    None => {},
                }
            },
        }
    }
}

/// A floating window whose rules give it a position opens there: the first
/// number is how far it is from the left, the second how far from the top.
pub proof fn rules_give_the_distance_from_the_left_first(
    s: StateModel,
    id: WindowId,
    title: Seq<char>,
    app_id: Option<Seq<char>>,
    now: u64,
)
    requires
        s.desktop.wf(),
        s.desktop.has(id),
        s.desktop.floats(id),
        !s.desktop.window(id).mapped,
        state::text_of(s.texts, id).position is Some,
    ensures
        ({
            let position = state::text_of(s.texts, id).position->0@;
            s.mapped(id, title, app_id, now).desktop.window(id).place == Some(
                Location { x: position[0], y: position[1] },
            )
        }),
{
    let noted = state::text_of(s.texts, id);
    let position = noted.position->0@;
    super::placing::floating_windows_open_where_their_rules_say(
        s.desktop,
        id,
        s.home_of(noted),
        match noted.output {
            Some(name) => s.output_named(name),
            None => None,
        },
        Location { x: position[0], y: position[1] },
        now,
    );
}

proof fn lemma_workspace_named(s: StateModel, name: Seq<char>, from: int)
    requires
        0 <= from,
    ensures
        match s.workspace_named(name, from) {
            Some(id) => exists|k: int|
                from <= k < s.desktop.workspaces.len() && (
                #[trigger] s.desktop.workspaces[k]).name == name && s.desktop.workspaces[k].id
                    == id && forall|j: int|
                    from <= j < k ==> (#[trigger] s.desktop.workspaces[j]).name != name,
            None => forall|j: int|
                from <= j < s.desktop.workspaces.len() ==> (
                #[trigger] s.desktop.workspaces[j]).name != name,
        },
    decreases s.desktop.workspaces.len() - from,
{
    if from < s.desktop.workspaces.len() {
        if s.desktop.workspaces[from].name == name {
            assert(s.desktop.workspaces[from].id == s.workspace_named(name, from)->0);
        } else {
            lemma_workspace_named(s, name, from + 1);
            match s.workspace_named(name, from + 1) {
                Some(id) => {
                    let k = choose|k: int|
                        from + 1 <= k < s.desktop.workspaces.len() && (
                        #[trigger] s.desktop.workspaces[k]).name == name
                            && s.desktop.workspaces[k].id == id && forall|j: int|
                            from + 1 <= j < k ==> (#[trigger] s.desktop.workspaces[j]).name != name;
                    assert(s.desktop.workspaces[k].name == name);
                },
                None => {},
            }
        }
    }
}

/// A new window goes to the workspace that its rules name, by number if there
/// is one with it, else by name. Without a rule, or where there is no such
/// workspace, it goes to the workspace on the focused output.
pub proof fn rules_choose_the_workspace(s: StateModel, noted: TextModel, k: int, n: u64)
    requires
        s.desktop.wf(),
        0 <= k < s.desktop.workspaces.len(),
    ensures
        noted.workspace is None ==> s.home_of(noted) == s.desktop.focused_workspace(),
        noted.workspace == Some(text::decimal(n as nat)) && s.desktop.workspaces[k].id == n
            ==> s.home_of(noted) == n,
        noted.workspace matches Some(name) && text::unsigned(name, u64::MAX as nat) is None
            && s.desktop.workspaces[k].name == name && (forall|j: int|
            0 <= j < k ==> (#[trigger] s.desktop.workspaces[j]).name != name) ==> s.home_of(noted)
            == s.desktop.workspaces[k].id,
        noted.workspace matches Some(name) && text::unsigned(name, u64::MAX as nat) is None && (
        forall|j: int|
            0 <= j < s.desktop.workspaces.len() ==> (#[trigger] s.desktop.workspaces[j]).name
                != name) ==> s.home_of(noted) == s.desktop.focused_workspace(),
{
    text::decimal_reads_back(n as nat, u64::MAX as nat);
    invariants::lemma_workspace_from(s.desktop, n, 0);
    if let Some(name) = noted.workspace {
        lemma_workspace_named(s, name, 0);
        match s.workspace_named(name, 0) {
            Some(id) => {
                let m = choose|m: int|
                    0 <= m < s.desktop.workspaces.len() && (
                    #[trigger] s.desktop.workspaces[m]).name == name && s.desktop.workspaces[m].id
                        == id && forall|j: int|
                        0 <= j < m ==> (#[trigger] s.desktop.workspaces[j]).name != name;
                assert(s.desktop.workspaces[m].name == name);
            },
            None => {},
        }
    }
}

/// A window is mapped on the workspace that its rules chose.
pub proof fn windows_open_on_their_workspace(
    s: StateModel,
    id: WindowId,
    title: Seq<char>,
    app_id: Option<Seq<char>>,
    now: u64,
)
    requires
        s.desktop.wf(),
        s.desktop.has(id),
        s.desktop.floats(id),
        !s.desktop.window(id).mapped,
        state::text_of(s.texts, id).position is Some,
    ensures
        ({
            let next = s.mapped(id, title, app_id, now);
            &&& next.desktop.window(id).mapped
            &&& next.desktop.window(id).workspace == s.home_of(state::text_of(s.texts, id))
            &&& state::text_of(next.texts, id).title == title
            &&& state::text_of(next.texts, id).app_id == app_id
        }),
{
    let noted = state::text_of(s.texts, id);
    let position = noted.position->0@;
    super::placing::floating_windows_open_where_their_rules_say(
        s.desktop,
        id,
        s.home_of(noted),
        match noted.output {
            Some(name) => s.output_named(name),
            None => None,
        },
        Location { x: position[0], y: position[1] },
        now,
    );
    texts_are_found_again(s.texts, TextModel { id, title, app_id, ..noted }, id);
}

/// Clients are told of a window what is known of it: where it is, or was when
/// it was minimized, and as large as it was drawn.
pub proof fn clients_are_told_what_is_known(s: StateModel, w: ManagedWindow)
    ensures
        ({
            let info = s.info(w);
            &&& info.id == w.id
            &&& info.title == state::text_of(s.texts, w.id).title
            &&& info.app_id == state::text_of(s.texts, w.id).app_id
            &&& info.focused <==> s.desktop.focused_window == Some(w.id)
            &&& info.minimized <==> w.minimized is Some
            &&& info.maximized <==> w.maximized
            &&& w.minimized matches Some(at) ==> info.geometry == (Rect {
                x: at.x,
                y: at.y,
                width: w.size.w,
                height: w.size.h,
            })
            &&& w.minimized is None && w.place is Some ==> info.geometry == (Rect {
                x: w.place->0.x,
                y: w.place->0.y,
                width: w.size.w,
                height: w.size.h,
            })
            &&& w.minimized is None && w.place is None ==> info.geometry == (Rect {
                x: 0,
                y: 0,
                width: 0,
                height: 0,
            })
        }),
{
}

/// A configured shortcut does what its setting says: it closes, runs its
/// command, shows the workspace of its value, or moves the window there.
pub proof fn configured_shortcuts_do_what_they_say(b: BindingConfig, command: Seq<char>, value: u64)
    ensures
        b.action matches Some(action) && action@ == "close"@ && b.command is None && b.value is None
            ==> bindings::action_of(b) == Some(ActionModel::Close),
        b.action is None && (b.command matches Some(c) && c@ == command) && b.value is None
            ==> bindings::action_of(b) == Some(ActionModel::Exec(command)),
        b.action matches Some(action) && action@ == "workspace"@ && b.command is None && b.value
            == Some(value) ==> bindings::action_of(b) == Some(ActionModel::Workspace(value)),
        b.action matches Some(action) && action@ == "move-to-workspace"@ && b.command is None
            && b.value == Some(value) ==> bindings::action_of(b) == Some(
            ActionModel::MoveToWorkspace(value),
        ),
        b.action is Some && b.command is Some ==> bindings::action_of(b) is None,
        b.action is None && b.command is None ==> bindings::action_of(b) is None,
        b.command is Some && b.value is Some ==> bindings::action_of(b) is None,
{
    reveal_strlit("close");
    reveal_strlit("workspace");
    reveal_strlit("move-to-workspace");
    assert("close"@.len() == 5 && "workspace"@.len() == 9 && "move-to-workspace"@.len() == 17);
}

/// An activated shortcut of a client is reported to that client and does
/// nothing else.
pub proof fn shortcuts_of_clients_are_reported(
    s: StateModel,
    client: Seq<char>,
    id: Seq<char>,
    now: u64,
)
    requires
        client != "blair-config"@,
    ensures
        ({
            let (next, command) = s.activated(client, id, now);
            &&& command is None
            &&& next.desktop == s.desktop
            &&& next.events == s.events.push(EventModel::ShortcutActivated { client, shortcut: id })
        }),
{
}

/// An activated shortcut of the configuration acts: it asks the focused window
/// to close, hands out its command, shows its workspace, or moves the focused
/// window there.
pub proof fn configured_shortcuts_act(s: StateModel, id: Seq<char>, now: u64, k: int)
    requires
        0 <= k < s.bound.len(),
        s.bound[k].id == id,
        forall|j: int| 0 <= j < k ==> (#[trigger] s.bound[j]).id != id,
    ensures
        ({
            let (next, command) = s.activated("blair-config"@, id, now);
            let w = s.desktop.focused_window;
            let action = s.bound[k].action;
            &&& action matches ActionModel::Exec(c) ==> command == Some(c) && next == s
            &&& !(action is Exec) ==> command is None
            &&& action is Close && w is Some && s.desktop.has(w->0) && s.desktop.window(w->0).mapped
                ==> next.desktop.effects == s.desktop.effects.push(Effect::SendClose { id: w->0 })
            &&& action is Close && w is None ==> next.desktop == s.desktop
            &&& action matches ActionModel::Workspace(n) ==> next.desktop
                == s.desktop.with_workspaces_up_to(n).switch_workspace(n, now).0
            &&& action matches ActionModel::MoveToWorkspace(n) ==> (w is Some ==> next.desktop
                == s.desktop.with_workspaces_up_to(n).move_to_workspace(w->0, n).0) && (w is None
                ==> next.desktop == s.desktop)
        }),
{
    lemma_static_action(s.bound, id, 0, k);
}

proof fn lemma_static_action(bound: Seq<StaticModel>, id: Seq<char>, from: int, k: int)
    requires
        0 <= from <= k < bound.len(),
        bound[k].id == id,
        forall|j: int| 0 <= j < k ==> (#[trigger] bound[j]).id != id,
    ensures
        bindings::static_action(bound, id, from) == Some(bound[k].action),
    decreases k - from,
{
    if from < k {
        lemma_static_action(bound, id, from + 1, k);
    }
}

/// Workspaces are made up to a number only where that many are configured or
/// they come as needed; those that are there stay.
pub proof fn workspaces_are_made_as_needed(d: DesktopModel, id: u64, k: int)
    requires
        d.wf(),
        0 <= k < d.workspaces.len(),
    ensures
        ({
            let next = d.with_workspaces_up_to(id);
            &&& id < d.next_workspace_id ==> next == d
            &&& id > d.settings.workspace_count && !d.settings.dynamic_workspaces ==> next == d
            &&& next.workspaces.len() >= d.workspaces.len()
            &&& next.workspaces[k] == d.workspaces[k]
            &&& id >= d.next_workspace_id && (id <= d.settings.workspace_count
                || d.settings.dynamic_workspaces) ==> next.workspaces.len() == d.workspaces.len()
                + (id - d.next_workspace_id + 1)
        }),
{
    if id >= d.next_workspace_id {
        lemma_numbered(d, (id - d.next_workspace_id + 1) as nat, k);
    }
}

proof fn lemma_numbered(d: DesktopModel, n: nat, k: int)
    requires
        0 <= k < d.workspaces.len(),
    ensures
        d.with_numbered_workspaces(n).workspaces.len() == d.workspaces.len() + n,
        d.with_numbered_workspaces(n).workspaces[k] == d.workspaces[k],
    decreases n,
{
    if n > 0 {
        lemma_numbered(d, (n - 1) as nat, k);
    }
}

/// A new workspace comes last, under the next number, with its name, or its
/// number where the name is blank, and nothing on it.
pub proof fn new_workspaces_are_empty(d: DesktopModel, name: Seq<char>)
    requires
        d.next_workspace_id < u64::MAX,
    ensures
        ({
            let next = d.with_new_workspace(name);
            let made = next.workspaces.last();
            &&& next.workspaces.len() == d.workspaces.len() + 1
            &&& made.id == d.next_workspace_id
            &&& next.next_workspace_id == d.next_workspace_id + 1
            &&& !text::blank(name) ==> made.name == name
            &&& text::blank(name) ==> made.name == text::decimal(made.id as nat)
            &&& made.focused_window is None && made.focus_history.len() == 0 && made.output is None
        }),
{
}

} // verus!
