//! Shortcuts that are configured rather than bound by a client.

use vstd::prelude::*;

use crate::config::BindingConfig;
use crate::config;
use crate::protocol::{BindingModel, ShortcutBinding, ShortcutCommand};
use crate::shortcuts::{RegistryModel, ShortcutRegistry};
use crate::text;

verus! {

/// The name under which configured shortcuts are bound.
pub const CONFIG_BINDING_OWNER: &'static str = "blair-config";

/// What a configured shortcut does.
#[derive(Debug)]
pub enum StaticBindingAction {
    Close,
    Exec(String),
    Workspace(u64),
    MoveToWorkspace(u64),
}

/// What a configured shortcut does, as contracts see it.
pub enum ActionModel {
    Close,
    Exec(Seq<char>),
    Workspace(u64),
    MoveToWorkspace(u64),
}

impl View for StaticBindingAction {
    type V = ActionModel;

    open spec fn view(&self) -> ActionModel {
        match *self {
            StaticBindingAction::Close => ActionModel::Close,
            StaticBindingAction::Exec(command) => ActionModel::Exec(command@),
            StaticBindingAction::Workspace(id) => ActionModel::Workspace(id),
            StaticBindingAction::MoveToWorkspace(id) => ActionModel::MoveToWorkspace(id),
        }
    }
}

/// A configured shortcut that is bound.
#[derive(Debug)]
pub struct StaticBinding {
    pub id: String,
    pub action: StaticBindingAction,
}

/// A configured shortcut that is bound, as contracts see it.
pub struct StaticModel {
    pub id: Seq<char>,
    pub action: ActionModel,
}

impl View for StaticBinding {
    type V = StaticModel;

    open spec fn view(&self) -> StaticModel {
        StaticModel { id: self.id@, action: self.action@ }
    }
}

/// The bound shortcuts as contracts see them.
pub open spec fn static_models(bindings: Seq<StaticBinding>) -> Seq<StaticModel> {
    bindings.map_values(|b: StaticBinding| b@)
}

/// What a configured shortcut does, if it is a usable one.
pub open spec fn action_of(binding: BindingConfig) -> Option<ActionModel> {
    match (binding.action, binding.command, binding.value) {
        (Some(action), None, None) => if action@ == "close"@ {
            Some(ActionModel::Close)
        } else {
            None
        },
        (Some(action), None, Some(value)) => if action@ == "workspace"@ {
            Some(ActionModel::Workspace(value))
        } else if action@ == "move-to-workspace"@ {
            Some(ActionModel::MoveToWorkspace(value))
        } else {
            None
        },
        (None, Some(command), None) => Some(ActionModel::Exec(command@)),
        _ => None,
    }
}

/// What a configured shortcut does, if it is a usable one.
pub fn configured_action(binding: &BindingConfig) -> (r: Option<StaticBindingAction>)
    ensures
        match (r, action_of(*binding)) {
            (Some(action), Some(expected)) => action@ == expected,
            (None, None) => true,
            _ => false,
        },
{
    match (&binding.action, &binding.command, binding.value) {
        (Some(action), None, None) => if text::text_eq(action.as_str(), "close") {
            Some(StaticBindingAction::Close)
        } else {
            None
        },
        (Some(action), None, Some(value)) => if text::text_eq(action.as_str(), "workspace") {
            Some(StaticBindingAction::Workspace(value))
        } else if text::text_eq(action.as_str(), "move-to-workspace") {
            Some(StaticBindingAction::MoveToWorkspace(value))
        } else {
            None
        },
        (None, Some(command), None) => Some(StaticBindingAction::Exec(command.clone())),
        _ => None,
    }
}

/// The registry and the bound shortcuts once the first `n` configured ones
/// took the place of those before. Each is bound under its number.
pub open spec fn rebound(registry: RegistryModel, bindings: Seq<BindingConfig>, n: nat) -> (
    RegistryModel,
    Seq<StaticModel>,
)
    decreases n,
{
    if n == 0 {
        (registry.after_unregister(CONFIG_BINDING_OWNER@), Seq::empty())
    } else {
        let (so_far, bound) = rebound(registry, bindings, (n - 1) as nat);
        let id = text::decimal((n - 1) as nat);
        match action_of(bindings[n - 1]) {
            None => (so_far, bound),
            Some(action) => match so_far.after_bind(
                CONFIG_BINDING_OWNER@,
                id,
                bindings[n - 1].written(),
            ) {
                Some(next) => (next, bound.push(StaticModel { id, action })),
                None => (so_far, bound),
            },
        }
    }
}

/// Binds the configured shortcuts in place of those before.
pub fn bind_configured(registry: &mut ShortcutRegistry, bindings: &Vec<BindingConfig>) -> (bound:
    Vec<StaticBinding>)
    requires
        old(registry)@.wf(),
    ensures
        (final(registry)@, static_models(bound@)) == rebound(
            old(registry)@,
            bindings@,
            bindings@.len(),
        ),
        final(registry)@.wf(),
{
    let ghost start = registry@;
    registry.unregister_client(CONFIG_BINDING_OWNER);
    let mut bound: Vec<StaticBinding> = Vec::new();
    assert(static_models(bound@) =~= Seq::<StaticModel>::empty());
    for i in 0..bindings.len()
        invariant
            registry@.wf(),
            (registry@, static_models(bound@)) == rebound(start, bindings@, i as nat),
    {
        let ghost before = bound@;
        if let Some(action) = configured_action(&bindings[i]) {
            let id = text::u64_text(i as u64);
            let accelerator = bindings[i].accelerator();
            if registry.bind(CONFIG_BINDING_OWNER, id.as_str(), accelerator.as_str()) {
                let entry = StaticBinding { id, action };
                let ghost model = entry@;
                bound.push(entry);
                assert(static_models(bound@) =~= static_models(before).push(model));
            }
        }
    }
    bound
}

/// The first bound shortcut from `from` on with an id.
pub open spec fn static_action(bound: Seq<StaticModel>, id: Seq<char>, from: int) -> Option<
    ActionModel,
>
    decreases bound.len() - from,
{
    if from < 0 || from >= bound.len() {
        None
    } else if bound[from].id == id {
        Some(bound[from].action)
    } else {
        static_action(bound, id, from + 1)
    }
}

/// Finds what the bound shortcut with an id does.
pub fn find_action<'a>(bound: &'a Vec<StaticBinding>, id: &str) -> (r: Option<
    &'a StaticBindingAction,
>)
    ensures
        match (r, static_action(static_models(bound@), id@, 0)) {
            (Some(action), Some(expected)) => action@ == expected,
            (None, None) => true,
            _ => false,
        },
{
    let mut i: usize = 0;
    while i < bound.len()
        invariant
            i <= bound@.len(),
            static_action(static_models(bound@), id@, 0) == static_action(
                static_models(bound@),
                id@,
                i as int,
            ),
        decreases bound@.len() - i,
    {
        assert(static_models(bound@)[i as int] == bound@[i as int]@);
        if text::text_eq(bound[i].id.as_str(), id) {
            return Some(&bound[i].action);
        }
        i = i + 1;
    }
    None
}

/// A configured shortcut for clients, if it is a usable one.
pub open spec fn shortcut_of(binding: BindingConfig) -> Option<BindingModel> {
    match action_of(binding) {
        Some(ActionModel::Close) => Some(
            BindingModel {
                accelerator: binding.written(),
                command: ShortcutCommand::Close,
                argument: None,
            },
        ),
        Some(ActionModel::Workspace(value)) => Some(
            BindingModel {
                accelerator: binding.written(),
                command: ShortcutCommand::Workspace,
                argument: Some(text::decimal(value as nat)),
            },
        ),
        Some(ActionModel::MoveToWorkspace(value)) => Some(
            BindingModel {
                accelerator: binding.written(),
                command: ShortcutCommand::MoveToWorkspace,
                argument: Some(text::decimal(value as nat)),
            },
        ),
        Some(ActionModel::Exec(command)) => Some(
            BindingModel {
                accelerator: binding.written(),
                command: ShortcutCommand::Execute,
                argument: Some(command),
            },
        ),
        None => None,
    }
}

fn describe(binding: &BindingConfig) -> (r: Option<ShortcutBinding>)
    ensures
        match (r, shortcut_of(*binding)) {
            (Some(shortcut), Some(expected)) => shortcut@ == expected,
            (None, None) => true,
            _ => false,
        },
{
    match configured_action(binding) {
        None => None,
        Some(action) => {
            let accelerator = binding.accelerator();
            Some(
                match action {
                    StaticBindingAction::Close => ShortcutBinding {
                        accelerator,
                        command: ShortcutCommand::Close,
                        argument: None,
                    },
                    StaticBindingAction::Workspace(value) => ShortcutBinding {
                        accelerator,
                        command: ShortcutCommand::Workspace,
                        argument: Some(text::u64_text(value)),
                    },
                    StaticBindingAction::MoveToWorkspace(value) => ShortcutBinding {
                        accelerator,
                        command: ShortcutCommand::MoveToWorkspace,
                        argument: Some(text::u64_text(value)),
                    },
                    StaticBindingAction::Exec(command) => ShortcutBinding {
                        accelerator,
                        command: ShortcutCommand::Execute,
                        argument: Some(command),
                    },
                },
            )
        },
    }
}

/// The usable ones of the first `n` configured shortcuts.
pub open spec fn shortcuts_of(bindings: Seq<BindingConfig>, n: nat) -> Seq<BindingModel>
    decreases n,
{
    if n == 0 {
        Seq::empty()
    } else {
        let before = shortcuts_of(bindings, (n - 1) as nat);
        match shortcut_of(bindings[n - 1]) {
            Some(shortcut) => before.push(shortcut),
            None => before,
        }
    }
}

/// The shortcuts as contracts see them.
pub open spec fn shortcut_models(shortcuts: Seq<ShortcutBinding>) -> Seq<BindingModel> {
    shortcuts.map_values(|s: ShortcutBinding| s@)
}

/// The configured shortcuts for clients.
pub fn configured_shortcuts(bindings: &Vec<BindingConfig>) -> (shortcuts: Vec<ShortcutBinding>)
    ensures
        shortcut_models(shortcuts@) == shortcuts_of(bindings@, bindings@.len()),
{
    let mut shortcuts: Vec<ShortcutBinding> = Vec::new();
    assert(shortcut_models(shortcuts@) =~= Seq::<BindingModel>::empty());
    for i in 0..bindings.len()
        invariant
            shortcut_models(shortcuts@) == shortcuts_of(bindings@, i as nat),
    {
        let ghost before = shortcuts@;
        if let Some(shortcut) = describe(&bindings[i]) {
            let ghost model = shortcut@;
            shortcuts.push(shortcut);
            assert(shortcut_models(shortcuts@) =~= shortcut_models(before).push(model));
        }
    }
    shortcuts
}

/// The character between the keys of an accelerator.
pub open spec fn plus() -> spec_fn(char) -> bool {
    |c: char| c == '+' || c == '+'
}

/// A key that is written out.
pub open spec fn written_out() -> spec_fn(Seq<char>) -> bool {
    |key: Seq<char>| key.len() > 0
}

/// Without the white space around it.
pub open spec fn trimmed() -> spec_fn(Seq<char>) -> Seq<char> {
    |key: Seq<char>| text::trimmed(key)
}

/// The keys of an accelerator.
pub open spec fn keys_of(accelerator: Seq<char>) -> Seq<Seq<char>> {
    text::split(accelerator, plus()).map_values(trimmed()).filter(written_out())
}

fn split_keys(accelerator: &str) -> (keys: Vec<String>)
    ensures
        text::strings(keys@) == keys_of(accelerator@),
{
    let chars = text::chars_of(accelerator);
    let pieces = text::split_on(&chars, '+', '+');
    let ghost all = text::split(accelerator@, plus()).map_values(trimmed());
    proof {
        assert((|c: char| c == '+' || c == '+') =~= plus());
        assert(all.len() == pieces@.len());
    }
    let mut keys: Vec<String> = Vec::new();
    proof {
        reveal(Seq::filter);
        assert(text::strings(keys@) =~= all.take(0).filter(written_out()));
    }
    for i in 0..pieces.len()
        invariant
            all == text::split(accelerator@, plus()).map_values(trimmed()),
            text::views(pieces@) == text::split(accelerator@, plus()),
            text::strings(keys@) == all.take(i as int).filter(written_out()),
    {
        let ghost before = keys@;
        let key = text::trim(&pieces[i]);
        proof {
            assert(text::views(pieces@)[i as int] == pieces@[i as int]@);
            assert(all[i as int] == key@);
            crate::seqs::lemma_filter_take(all, i as int, written_out());
        }
        if key.len() > 0 {
            let name = text::string_of(&key);
            keys.push(name);
            assert(text::strings(keys@) =~= text::strings(before).push(key@));
        }
    }
    proof {
        crate::seqs::lemma_take_all(all);
    }
    keys
}

/// A configured shortcut without the form it is kept in.
pub struct BindingSetting {
    pub keys: Seq<Seq<char>>,
    pub action: Option<Seq<char>>,
    pub command: Option<Seq<char>>,
    pub value: Option<u64>,
}

impl View for BindingConfig {
    type V = BindingSetting;

    open spec fn view(&self) -> BindingSetting {
        BindingSetting {
            keys: text::strings(self.keys@),
            action: text::option(self.action),
            command: text::option(self.command),
            value: self.value,
        }
    }
}

/// How a shortcut that a client asks for is configured, if its argument
/// fits its command.
pub open spec fn setting_of(shortcut: BindingModel) -> Option<BindingSetting> {
    let keys = keys_of(shortcut.accelerator);
    match (shortcut.command, shortcut.argument) {
        (ShortcutCommand::Close, None) => Some(
            BindingSetting { keys, action: Some("close"@), command: None, value: None },
        ),
        (ShortcutCommand::Workspace, Some(argument)) => match text::unsigned(
            argument,
            u64::MAX as nat,
        ) {
            Some(value) => Some(
                BindingSetting {
                    keys,
                    action: Some("workspace"@),
                    command: None,
                    value: Some(value as u64),
                },
            ),
            None => None,
        },
        (ShortcutCommand::MoveToWorkspace, Some(argument)) => match text::unsigned(
            argument,
            u64::MAX as nat,
        ) {
            Some(value) => Some(
                BindingSetting {
                    keys,
                    action: Some("move-to-workspace"@),
                    command: None,
                    value: Some(value as u64),
                },
            ),
            None => None,
        },
        (ShortcutCommand::Execute, Some(argument)) => if text::blank(argument) {
            None
        } else {
            Some(BindingSetting { keys, action: None, command: Some(argument), value: None })
        },
        _ => None,
    }
}

fn setting_for(shortcut: ShortcutBinding) -> (r: Option<BindingConfig>)
    ensures
        match (r, setting_of(shortcut@)) {
            (Some(binding), Some(expected)) => binding@ == expected,
            (None, None) => true,
            _ => false,
        },
{
    let keys = split_keys(shortcut.accelerator.as_str());
    match (shortcut.command, shortcut.argument) {
        (ShortcutCommand::Close, None) => Some(
            BindingConfig { keys, action: Some("close".to_owned()), command: None, value: None },
        ),
        (ShortcutCommand::Workspace, Some(argument)) => match text::parse_unsigned(
            &text::chars_of(argument.as_str()),
            u64::MAX,
        ) {
            Some(value) => Some(
                BindingConfig {
                    keys,
                    action: Some("workspace".to_owned()),
                    command: None,
                    value: Some(value),
                },
            ),
            None => None,
        },
        (ShortcutCommand::MoveToWorkspace, Some(argument)) => match text::parse_unsigned(
            &text::chars_of(argument.as_str()),
            u64::MAX,
        ) {
            Some(value) => Some(
                BindingConfig {
                    keys,
                    action: Some("move-to-workspace".to_owned()),
                    command: None,
                    value: Some(value),
                },
            ),
            None => None,
        },
        (ShortcutCommand::Execute, Some(argument)) => if text::is_blank(argument.as_str()) {
            None
        } else {
            Some(BindingConfig { keys, action: None, command: Some(argument), value: None })
        },
        _ => None,
    }
}

/// The settings of configured shortcuts.
pub open spec fn settings_of(bindings: Seq<BindingConfig>) -> Seq<BindingSetting> {
    bindings.map_values(|b: BindingConfig| b@)
}

impl BindingSetting {
    /// One of the keys is missing.
    pub open spec fn lacks_keys(self) -> bool {
        self.keys.len() == 0 || exists|i: int|
            0 <= i < self.keys.len() && text::blank(#[trigger] self.keys[i])
    }

    /// The action is one there is, with what it needs.
    pub open spec fn acts(self) -> bool {
        match (self.action, self.command) {
            (None, Some(command)) => self.value is None && !text::blank(command),
            (Some(action), None) => (action == "close"@ && self.value is None) || ((action
                == "workspace"@ || action == "move-to-workspace"@) && self.value is Some
                && self.value->0 > 0),
            _ => false,
        }
    }

    /// Nothing is wrong with the setting.
    pub open spec fn valid(self) -> bool {
        &&& !self.lacks_keys()
        &&& crate::shortcuts::accelerator_meaning(text::joined(self.keys, "+"@)) is Ok
        &&& self.acts()
    }
}

/// A configured shortcut passes its check if and only if its setting is
/// valid, whatever its number is.
pub proof fn validity_is_a_matter_of_the_setting(binding: BindingConfig, index: nat)
    ensures
        (binding.fault(index) is None) == binding@.valid(),
{
    assert(binding.lacks_keys() == binding@.lacks_keys()) by {
        if binding.lacks_keys() && binding.keys@.len() > 0 {
            let i = choose|i: int|
                0 <= i < binding.keys@.len() && text::blank((#[trigger] binding.keys@[i])@);
            assert(text::blank(binding@.keys[i]));
        }
        if binding@.lacks_keys() && binding@.keys.len() > 0 {
            let i = choose|i: int|
                0 <= i < binding@.keys.len() && text::blank(#[trigger] binding@.keys[i]);
            assert(text::blank(binding.keys@[i]@));
        }
    }
}

/// Turns the shortcuts that a client asks for into settings, or refuses all
/// of them if one is not valid.
pub fn configure_shortcuts(shortcuts: Vec<ShortcutBinding>) -> (r: Option<Vec<BindingConfig>>)
    ensures
        match r {
            Some(bindings) => bindings@.len() == shortcuts@.len() && forall|i: int|
                0 <= i < shortcuts@.len() ==> Some((#[trigger] bindings@[i])@) == setting_of(
                    shortcuts@[i]@,
                ) && bindings@[i]@.valid(),
            None => exists|i: int|
                0 <= i < shortcuts@.len() && !(setting_of((#[trigger] shortcuts@[i])@) matches Some(
                    setting,
                ) && setting.valid()),
        },
{
    let mut bindings: Vec<BindingConfig> = Vec::new();
    let total: usize = shortcuts.len();
    for shortcut in iter: shortcuts
        invariant
            iter.seq() == shortcuts@,
            total == shortcuts@.len(),
            bindings@.len() == iter.index(),
            forall|i: int|
                0 <= i < bindings@.len() ==> Some((#[trigger] bindings@[i])@) == setting_of(
                    shortcuts@[i]@,
                ) && bindings@[i]@.valid(),
    {
        let ghost i = iter.index() as int;
        assert(shortcut == shortcuts@[i]);
        let ghost asked = shortcuts@[i]@;
        let binding = match setting_for(shortcut) {
            Some(binding) => binding,
            None => {
                assert(setting_of(shortcuts@[i]@) is None);
                return None;
            },
        };
        let count: usize = bindings.len();
        proof {
            validity_is_a_matter_of_the_setting(binding, (count + 1) as nat);
        }
        if binding.validate(count + 1).is_err() {
            assert(!(setting_of(shortcuts@[i]@) matches Some(setting) && setting.valid()));
            return None;
        }
        bindings.push(binding);
    }
    Some(bindings)
}

/// A text without separators only makes the last piece longer.
proof fn lemma_split_append(a: Seq<char>, b: Seq<char>)
    requires
        forall|i: int| 0 <= i < b.len() ==> #[trigger] b[i] != '+',
    ensures
        text::split(a, plus()).len() > 0,
        text::split(a + b, plus()) == text::split(a, plus()).update(
            text::split(a, plus()).len() - 1,
            text::split(a, plus()).last() + b,
        ),
    decreases b.len(),
{
    text::lemma_split_nonempty(a, plus());
    let before = text::split(a, plus());
    if b.len() == 0 {
        assert(a + b =~= a);
        assert(before.last() + b =~= before.last());
        assert(before.update(before.len() - 1, before.last()) =~= before);
    } else {
        let rest = b.drop_last();
        lemma_split_append(a, rest);
        assert((a + b).drop_last() =~= a + rest);
        assert((a + b).last() == b[b.len() - 1]);
        assert(before.last() + b =~= (before.last() + rest).push(b.last()));
        assert(text::split(a + b, plus()) =~= before.update(
            before.len() - 1,
            before.last() + b,
        ));
    }
}

/// Keys that are written together are taken apart again.
proof fn lemma_split_joined(keys: Seq<Seq<char>>)
    requires
        keys.len() > 0,
        forall|k: int, i: int|
            0 <= k < keys.len() && 0 <= i < keys[k].len() ==> #[trigger] keys[k][i] != '+',
    ensures
        text::split(text::joined(keys, "+"@), plus()) == keys,
    decreases keys.len(),
{
    reveal_strlit("+");
    let last = keys.last();
    assert forall|i: int| 0 <= i < last.len() implies #[trigger] last[i] != '+' by {
        assert(keys[keys.len() - 1][i] != '+');
    }
    if keys.len() == 1 {
        let nothing = Seq::<char>::empty();
        lemma_split_append(nothing, last);
        assert(nothing + last =~= last);
        assert(text::split(nothing, plus()) =~= seq![nothing]);
        assert(text::split(last, plus()) =~= keys);
    } else {
        let rest = keys.drop_last();
        assert forall|k: int, i: int|
            0 <= k < rest.len() && 0 <= i < rest[k].len() implies #[trigger] rest[k][i] != '+' by {
            assert(keys[k][i] != '+');
        }
        lemma_split_joined(rest);
        let start = text::joined(rest, "+"@);
        let marked = start + "+"@;
        assert(marked.drop_last() =~= start);
        assert(marked.last() == '+');
        assert(text::split(marked, plus()) == rest.push(Seq::<char>::empty()));
        lemma_split_append(marked, last);
        assert(Seq::<char>::empty() + last =~= last);
        assert(text::split(marked + last, plus()) =~= keys);
    }
}

/// The keys are written without white space around them, and none of them
/// holds the character between keys.
pub open spec fn plainly_written(keys: Seq<Seq<char>>) -> bool {
    &&& forall|k: int|
        0 <= k < keys.len() ==> (#[trigger] keys[k]).len() > 0 && text::trimmed(keys[k]) == keys[k]
    &&& forall|k: int, i: int|
        0 <= k < keys.len() && 0 <= i < keys[k].len() ==> #[trigger] keys[k][i] != '+'
}

/// Plainly written keys that are written together are taken apart again.
proof fn lemma_plain_keys(keys: Seq<Seq<char>>)
    requires
        keys.len() > 0,
        plainly_written(keys),
    ensures
        keys_of(text::joined(keys, "+"@)) == keys,
{
    lemma_split_joined(keys);
    assert(keys.map_values(trimmed()) =~= keys) by {
        assert forall|k: int| 0 <= k < keys.len() implies keys.map_values(trimmed())[k]
            == #[trigger] keys[k] by {}
    }
    assert forall|key: Seq<char>| keys.contains(key) implies #[trigger] written_out()(key) by {
        let k = choose|k: int| 0 <= k < keys.len() && keys[k] == key;
        assert(keys[k].len() > 0);
    }
    crate::seqs::lemma_filter_all(keys, written_out());
}

/// A valid configured shortcut whose keys are plainly written is configured
/// as it was when a client sends it back as it got it.
pub proof fn configured_shortcuts_survive_a_round_trip(binding: BindingConfig)
    requires
        binding@.valid(),
        plainly_written(binding@.keys),
    ensures
        shortcut_of(binding) is Some,
        setting_of(shortcut_of(binding)->0) == Some(binding@),
{
    lemma_plain_keys(binding@.keys);
    reveal_strlit("close");
    reveal_strlit("workspace");
    reveal_strlit("move-to-workspace");
    assert("close"@.len() == 5 && "workspace"@.len() == 9 && "move-to-workspace"@.len() == 17);
    match binding.value {
        Some(value) => {
            text::decimal_reads_back(value as nat, u64::MAX as nat);
        },
        None => {},
    }
}

/// The accelerator is plainly written keys with a `+` between them, and where
/// the argument is a number it is written without a sign or leading zeros.
pub open spec fn plain_shortcut(shortcut: BindingModel) -> bool {
    &&& exists|keys: Seq<Seq<char>>|
        keys.len() > 0 && #[trigger] plainly_written(keys) && shortcut.accelerator == text::joined(
            keys,
            "+"@,
        )
    &&& match (shortcut.command, shortcut.argument) {
        (ShortcutCommand::Workspace, Some(argument)) => plain_number(argument),
        (ShortcutCommand::MoveToWorkspace, Some(argument)) => plain_number(argument),
        _ => true,
    }
}

/// The text is how a number is written.
pub open spec fn plain_number(argument: Seq<char>) -> bool {
    exists|value: u64| argument == #[trigger] text::decimal(value as nat)
}

proof fn lemma_shortcut_reads_back(shortcut: BindingModel, binding: BindingConfig)
    requires
        plain_shortcut(shortcut),
        setting_of(shortcut) == Some(binding@),
    ensures
        shortcut_of(binding) == Some(shortcut),
{
    let keys = choose|keys: Seq<Seq<char>>|
        keys.len() > 0 && #[trigger] plainly_written(keys) && shortcut.accelerator == text::joined(
            keys,
            "+"@,
        );
    lemma_plain_keys(keys);
    assert(binding.written() == shortcut.accelerator);
    reveal_strlit("close");
    reveal_strlit("workspace");
    reveal_strlit("move-to-workspace");
    assert("close"@.len() == 5 && "workspace"@.len() == 9 && "move-to-workspace"@.len() == 17);
    match shortcut.argument {
        Some(argument) => {
            if plain_number(argument) {
                let value = choose|value: u64| argument == #[trigger] text::decimal(value as nat);
                text::decimal_reads_back(value as nat, u64::MAX as nat);
            }
        },
        None => {},
    }
}

/// Clients get back what they configured: once plainly written shortcuts are
/// accepted, the configured shortcuts are those, in the same order.
pub proof fn accepted_shortcuts_read_back(
    shortcuts: Seq<BindingModel>,
    bindings: Seq<BindingConfig>,
)
    requires
        shortcuts.len() == bindings.len(),
        forall|i: int| 0 <= i < shortcuts.len() ==> plain_shortcut(#[trigger] shortcuts[i]),
        forall|i: int|
            0 <= i < shortcuts.len() ==> Some((#[trigger] bindings[i])@) == setting_of(
                shortcuts[i],
            ),
    ensures
        shortcuts_of(bindings, bindings.len()) == shortcuts,
{
    lemma_first_read_back(shortcuts, bindings, bindings.len());
    crate::seqs::lemma_take_all(shortcuts);
}

proof fn lemma_first_read_back(
    shortcuts: Seq<BindingModel>,
    bindings: Seq<BindingConfig>,
    n: nat,
)
    requires
        n <= shortcuts.len() == bindings.len(),
        forall|i: int| 0 <= i < shortcuts.len() ==> plain_shortcut(#[trigger] shortcuts[i]),
        forall|i: int|
            0 <= i < shortcuts.len() ==> Some((#[trigger] bindings[i])@) == setting_of(
                shortcuts[i],
            ),
    ensures
        shortcuts_of(bindings, n) == shortcuts.take(n as int),
    decreases n,
{
    if n == 0 {
        assert(shortcuts.take(0) =~= Seq::<BindingModel>::empty());
    } else {
        lemma_first_read_back(shortcuts, bindings, (n - 1) as nat);
        assert(Some(bindings[n - 1]@) == setting_of(shortcuts[n - 1]));
        lemma_shortcut_reads_back(shortcuts[n - 1], bindings[n - 1]);
        assert(shortcuts.take(n as int) =~= shortcuts.take(n - 1).push(shortcuts[n - 1]));
    }
}

} // verus!
