//! Rules for new windows: the configured ones, then those of clients.

use vstd::prelude::*;

use crate::config::WindowRuleConfig;
use crate::reals::Real32;
use crate::regexes;
use crate::text;

verus! {

/// A client may register this many rules.
pub const MAX_RULES_PER_CLIENT: usize = 256;

/// A rule as contracts see it.
pub struct RuleModel {
    pub app_id: Option<Seq<char>>,
    pub title: Option<Seq<char>>,
    pub class: Option<Seq<char>>,
    pub regex: Option<Seq<char>>,
    pub role: Option<Seq<char>>,
    pub window_type: Option<Seq<char>>,
    pub floating: Option<bool>,
    pub tiled: Option<bool>,
    pub workspace: Option<Seq<char>>,
    pub output: Option<Seq<char>>,
    pub size: Option<[i32; 2]>,
    pub position: Option<[i32; 2]>,
    pub opacity: Option<Real32>,
    pub always_on_top: Option<bool>,
    pub decoration: Option<bool>,
}

impl View for WindowRuleConfig {
    type V = RuleModel;

    open spec fn view(&self) -> RuleModel {
        RuleModel {
            app_id: text::option(self.app_id),
            title: text::option(self.title),
            class: text::option(self.class),
            regex: text::option(self.regex),
            role: text::option(self.role),
            window_type: text::option(self.window_type),
            floating: self.floating,
            tiled: self.tiled,
            workspace: text::option(self.workspace),
            output: text::option(self.output),
            size: self.size,
            position: self.position,
            opacity: self.opacity,
            always_on_top: self.always_on_top,
            decoration: self.decoration,
        }
    }
}

/// A copy of a rule.
pub fn copy_rule(rule: &WindowRuleConfig) -> (r: WindowRuleConfig)
    ensures
        r@ == rule@,
{
    WindowRuleConfig {
        app_id: text::copy_of(&rule.app_id),
        title: text::copy_of(&rule.title),
        class: text::copy_of(&rule.class),
        regex: text::copy_of(&rule.regex),
        role: text::copy_of(&rule.role),
        window_type: text::copy_of(&rule.window_type),
        floating: rule.floating,
        tiled: rule.tiled,
        workspace: text::copy_of(&rule.workspace),
        output: text::copy_of(&rule.output),
        size: rule.size,
        position: rule.position,
        opacity: rule.opacity,
        always_on_top: rule.always_on_top,
        decoration: rule.decoration,
    }
}

impl RuleModel {
    /// The regular expression, if there is one, is valid.
    pub open spec fn compiles(self) -> bool {
        self.regex is Some ==> regexes::regex_compiles(self.regex->0)
    }

    /// The regular expression, if there is one, matches the title or the
    /// application.
    pub open spec fn regex_finds(self, title: Seq<char>, app_id: Option<Seq<char>>) -> bool {
        self.regex is Some ==> regexes::regex_matches(self.regex->0, title) || (app_id is Some
            && regexes::regex_matches(self.regex->0, app_id->0))
    }

    /// The rule is for a window with the title and application, given
    /// whether its regular expression, if it has one, finds something. What
    /// only windows of another windowing system have is never found.
    pub open spec fn selects_given(
        self,
        title: Seq<char>,
        app_id: Option<Seq<char>>,
        found: bool,
    ) -> bool {
        &&& self.app_id is Some ==> app_id == self.app_id
        &&& self.title is Some ==> self.title->0 == title
        &&& self.class is None
        &&& self.role is None
        &&& self.window_type is None
        &&& found
    }

    /// The rule is for a window with the title and application.
    pub open spec fn selects(self, title: Seq<char>, app_id: Option<Seq<char>>) -> bool {
        self.selects_given(title, app_id, self.regex_finds(title, app_id))
    }
}

/// What the rules say about a window.
#[derive(Debug)]
pub struct AppliedWindowRule {
    pub floating: Option<bool>,
    pub workspace: Option<String>,
    pub output: Option<String>,
    pub size: Option<[i32; 2]>,
    pub position: Option<[i32; 2]>,
    pub opacity: Option<Real32>,
    pub always_on_top: Option<bool>,
    pub decoration: Option<bool>,
}

/// What the rules say about a window, as contracts see it.
pub struct AppliedModel {
    pub floating: Option<bool>,
    pub workspace: Option<Seq<char>>,
    pub output: Option<Seq<char>>,
    pub size: Option<[i32; 2]>,
    pub position: Option<[i32; 2]>,
    pub opacity: Option<Real32>,
    pub always_on_top: Option<bool>,
    pub decoration: Option<bool>,
}

impl View for AppliedWindowRule {
    type V = AppliedModel;

    open spec fn view(&self) -> AppliedModel {
        AppliedModel {
            floating: self.floating,
            workspace: text::option(self.workspace),
            output: text::option(self.output),
            size: self.size,
            position: self.position,
            opacity: self.opacity,
            always_on_top: self.always_on_top,
            decoration: self.decoration,
        }
    }
}

/// No rule has said anything yet.
pub open spec fn nothing_said() -> AppliedModel {
    AppliedModel {
        floating: None,
        workspace: None,
        output: None,
        size: None,
        position: None,
        opacity: None,
        always_on_top: None,
        decoration: None,
    }
}

/// What a rule says, or else what was said before.
pub open spec fn or<A>(said: Option<A>, before: Option<A>) -> Option<A> {
    if said is Some {
        said
    } else {
        before
    }
}

impl AppliedModel {
    /// What is said once a further rule has been heard.
    pub open spec fn apply(self, rule: RuleModel) -> AppliedModel {
        AppliedModel {
            floating: match (rule.floating, rule.tiled) {
                (Some(floating), _) => Some(floating),
                (None, Some(tiled)) => Some(!tiled),
                (None, None) => self.floating,
            },
            workspace: or(rule.workspace, self.workspace),
            output: or(rule.output, self.output),
            size: or(rule.size, self.size),
            position: or(rule.position, self.position),
            opacity: or(rule.opacity, self.opacity),
            always_on_top: or(rule.always_on_top, self.always_on_top),
            decoration: or(rule.decoration, self.decoration),
        }
    }

    /// What is said once the rules that are for the window have been heard.
    pub open spec fn hear(
        self,
        rules: Seq<RuleModel>,
        title: Seq<char>,
        app_id: Option<Seq<char>>,
    ) -> AppliedModel
        decreases rules.len(),
    {
        if rules.len() == 0 {
            self
        } else {
            let before = self.hear(rules.drop_last(), title, app_id);
            if rules.last().selects(title, app_id) {
                before.apply(rules.last())
            } else {
                before
            }
        }
    }
}

impl Default for AppliedWindowRule {
    fn default() -> (r: Self)
        ensures
            r@ == nothing_said(),
    {
        AppliedWindowRule {
            floating: None,
            workspace: None,
            output: None,
            size: None,
            position: None,
            opacity: None,
            always_on_top: None,
            decoration: None,
        }
    }
}

impl AppliedWindowRule {
    /// Hears a further rule.
    pub fn apply(&mut self, rule: &WindowRuleConfig)
        ensures
            final(self)@ == old(self)@.apply(rule@),
    {
        match (rule.floating, rule.tiled) {
            (Some(floating), _) => {
                self.floating = Some(floating);
            },
            (None, Some(tiled)) => {
                self.floating = Some(!tiled);
            },
            (None, None) => {},
        }
        if rule.workspace.is_some() {
            self.workspace = text::copy_of(&rule.workspace);
        }
        if rule.output.is_some() {
            self.output = text::copy_of(&rule.output);
        }
        if rule.size.is_some() {
            self.size = rule.size;
        }
        if rule.position.is_some() {
            self.position = rule.position;
        }
        if rule.opacity.is_some() {
            self.opacity = rule.opacity;
        }
        if rule.always_on_top.is_some() {
            self.always_on_top = rule.always_on_top;
        }
        if rule.decoration.is_some() {
            self.decoration = rule.decoration;
        }
    }
}

/// A rule whose regular expression is valid.
#[derive(Debug)]
pub struct CompiledRule {
    config: WindowRuleConfig,
}

impl View for CompiledRule {
    type V = RuleModel;

    closed spec fn view(&self) -> RuleModel {
        self.config@
    }
}

/// The regular expression of a rule is not valid.
#[derive(Debug, Clone, Copy, PartialEq, Eq, Structural)]
pub struct InvalidRegex;

/// The characters of an optional borrowed text.
pub open spec fn borrowed(value: Option<&str>) -> Option<Seq<char>> {
    match value {
        Some(text) => Some(text@),
        None => None,
    }
}

impl CompiledRule {
    /// Takes a rule if its regular expression is valid.
    pub fn new(config: WindowRuleConfig) -> (r: Result<Self, InvalidRegex>)
        ensures
            match r {
                Ok(rule) => config@.compiles() && rule@ == config@,
                Err(_) => !config@.compiles(),
            },
    {
        let compiles = match &config.regex {
            Some(pattern) => regexes::compiles(pattern.as_str()),
            None => true,
        };
        if compiles {
            Ok(CompiledRule { config })
        } else {
            Err(InvalidRegex)
        }
    }

    /// Whether the rule is for a window, given whether its regular
    /// expression, if it has one, finds something.
    pub fn matches_with(&self, title: &str, app_id: Option<&str>, found: bool) -> (r: bool)
        ensures
            r == self@.selects_given(title@, borrowed(app_id), found),
    {
        if let Some(expected) = &self.config.app_id {
            match app_id {
                Some(id) => {
                    if !text::text_eq(expected.as_str(), id) {
                        return false;
                    }
                },
                None => {
                    return false;
                },
            }
        }
        if let Some(expected) = &self.config.title {
            if !text::text_eq(expected.as_str(), title) {
                return false;
            }
        }
        self.config.class.is_none() && self.config.role.is_none()
            && self.config.window_type.is_none() && found
    }

    /// Whether the rule is for a window.
    pub fn matches(&self, title: &str, app_id: Option<&str>) -> (r: bool)
        ensures
            r == self@.selects(title@, borrowed(app_id)),
    {
        let found = match &self.config.regex {
            Some(pattern) => regexes::finds(pattern.as_str(), title) || (match app_id {
                Some(id) => regexes::finds(pattern.as_str(), id),
                None => false,
            }),
            None => true,
        };
        self.matches_with(title, app_id, found)
    }
}

/// A rule that a client registered under a name.
#[derive(Debug)]
struct NamedRule {
    id: String,
    rule: CompiledRule,
}

/// The rules of a client.
#[derive(Debug)]
struct ClientRules {
    client: String,
    rules: Vec<NamedRule>,
}

/// A rule that a client registered under a name, as contracts see it.
pub struct NamedModel {
    pub id: Seq<char>,
    pub rule: RuleModel,
}

/// The rules of a client as contracts see them.
#[verifier::ext_equal]
pub struct ClientModel {
    pub client: Seq<char>,
    pub rules: Seq<NamedModel>,
}

/// All rules as contracts see them.
#[verifier::ext_equal]
pub struct RuleSetModel {
    pub configured: Seq<RuleModel>,
    pub temporary: Seq<ClientModel>,
}

/// The first place of a name from `from` on.
pub open spec fn rule_place(rules: Seq<NamedModel>, id: Seq<char>, from: int) -> Option<int>
    decreases rules.len() - from,
{
    if from < 0 || from >= rules.len() {
        None
    } else if rules[from].id == id {
        Some(from)
    } else {
        rule_place(rules, id, from + 1)
    }
}

/// The first place of a client from `from` on.
pub open spec fn client_place(clients: Seq<ClientModel>, client: Seq<char>, from: int) -> Option<
    int,
>
    decreases clients.len() - from,
{
    if from < 0 || from >= clients.len() {
        None
    } else if clients[from].client == client {
        Some(from)
    } else {
        client_place(clients, client, from + 1)
    }
}

/// Anything but the rule with a name.
pub open spec fn named_otherwise(id: Seq<char>) -> spec_fn(NamedModel) -> bool {
    |rule: NamedModel| rule.id != id
}

/// All rules of the clients, in a row.
pub open spec fn flattened(clients: Seq<ClientModel>) -> Seq<RuleModel>
    decreases clients.len(),
{
    if clients.len() == 0 {
        Seq::empty()
    } else {
        flattened(clients.drop_last()) + clients.last().rules.map_values(|n: NamedModel| n.rule)
    }
}

impl RuleSetModel {
    /// Clients are listed once and only with rules, not too many of them and
    /// under different names.
    pub open spec fn wf(self) -> bool {
        &&& forall|i: int, j: int|
            0 <= i < j < self.temporary.len() ==> (#[trigger] self.temporary[i]).client != (
            #[trigger] self.temporary[j]).client
        &&& forall|i: int|
            0 <= i < self.temporary.len() ==> 0 < (#[trigger] self.temporary[i]).rules.len()
                <= MAX_RULES_PER_CLIENT
        &&& forall|i: int, a: int, b: int|
            0 <= i < self.temporary.len() && 0 <= a < b < self.temporary[i].rules.len() ==> (
            #[trigger] self.temporary[i].rules[a]).id != (#[trigger] self.temporary[i].rules[b]).id
    }

    /// A client registers a rule under a name; one that it registered under
    /// that name before is replaced. Says whether that was possible.
    pub open spec fn registered(
        self,
        client: Seq<char>,
        id: Seq<char>,
        rule: RuleModel,
        compiles: bool,
    ) -> (RuleSetModel, bool) {
        let named = NamedModel { id, rule };
        if !compiles {
            (self, false)
        } else {
            match client_place(self.temporary, client, 0) {
                None => (
                    RuleSetModel {
                        temporary: self.temporary.push(ClientModel { client, rules: seq![named] }),
                        ..self
                    },
                    true,
                ),
                Some(place) => {
                    let rules = self.temporary[place].rules;
                    match rule_place(rules, id, 0) {
                        Some(i) => (
                            self.with_rules(place, rules.update(i, named)),
                            true,
                        ),
                        None => if rules.len() >= MAX_RULES_PER_CLIENT {
                            (self, false)
                        } else {
                            (self.with_rules(place, rules.push(named)), true)
                        },
                    }
                },
            }
        }
    }

    /// A client with other rules.
    pub open spec fn with_rules(self, place: int, rules: Seq<NamedModel>) -> RuleSetModel {
        RuleSetModel {
            temporary: self.temporary.update(
                place,
                ClientModel { rules, ..self.temporary[place] },
            ),
            ..self
        }
    }

    /// A client withdraws the rule with a name.
    pub open spec fn unregistered(self, client: Seq<char>, id: Seq<char>) -> RuleSetModel {
        match client_place(self.temporary, client, 0) {
            None => self,
            Some(place) => {
                let rules = self.temporary[place].rules.filter(named_otherwise(id));
                if rules.len() == 0 {
                    RuleSetModel { temporary: self.temporary.remove(place), ..self }
                } else {
                    self.with_rules(place, rules)
                }
            },
        }
    }

    /// A client is gone, and its rules with it.
    pub open spec fn without_client(self, client: Seq<char>) -> RuleSetModel {
        match client_place(self.temporary, client, 0) {
            None => self,
            Some(place) => RuleSetModel { temporary: self.temporary.remove(place), ..self },
        }
    }

    /// What the rules say about a window: the configured rules are heard
    /// first, then those of the clients.
    pub open spec fn resolve(self, title: Seq<char>, app_id: Option<Seq<char>>) -> AppliedModel {
        nothing_said().hear(self.configured + flattened(self.temporary), title, app_id)
    }
}

spec fn rule_models(rules: Seq<CompiledRule>) -> Seq<RuleModel> {
    rules.map_values(|r: CompiledRule| r@)
}

spec fn named_models(rules: Seq<NamedRule>) -> Seq<NamedModel> {
    rules.map_values(|r: NamedRule| NamedModel { id: r.id@, rule: r.rule@ })
}

spec fn client_models(clients: Seq<ClientRules>) -> Seq<ClientModel> {
    clients.map_values(
        |c: ClientRules| ClientModel { client: c.client@, rules: named_models(c.rules@) },
    )
}

/// Configured rules followed by temporary rules of clients.
#[derive(Debug)]
pub struct RuleSet {
    configured: Vec<CompiledRule>,
    temporary: Vec<ClientRules>,
}

impl View for RuleSet {
    type V = RuleSetModel;

    closed spec fn view(&self) -> RuleSetModel {
        RuleSetModel {
            configured: rule_models(self.configured@),
            temporary: client_models(self.temporary@),
        }
    }
}

impl Default for RuleSet {
    fn default() -> (r: Self)
        ensures
            r@.configured.len() == 0,
            r@.temporary.len() == 0,
            r@.wf(),
    {
        RuleSet { configured: Vec::new(), temporary: Vec::new() }
    }
}

/// The rules as contracts see them.
pub open spec fn models(rules: Seq<WindowRuleConfig>) -> Seq<RuleModel> {
    rules.map_values(|r: WindowRuleConfig| r@)
}

/// The rule has a valid regular expression, or none.
pub open spec fn compiling() -> spec_fn(RuleModel) -> bool {
    |r: RuleModel| r.compiles()
}

/// The rules that take part: those with an invalid regular expression do not.
pub open spec fn compilable(rules: Seq<WindowRuleConfig>) -> Seq<RuleModel> {
    models(rules).filter(compiling())
}

proof fn lemma_rule_place(rules: Seq<NamedModel>, id: Seq<char>, from: int)
    requires
        0 <= from,
    ensures
        match rule_place(rules, id, from) {
            Some(i) => from <= i < rules.len() && rules[i].id == id,
            None => forall|j: int| from <= j < rules.len() ==> (#[trigger] rules[j]).id != id,
        },
    decreases rules.len() - from,
{
    if from < rules.len() && rules[from].id != id {
        lemma_rule_place(rules, id, from + 1);
    }
}

proof fn lemma_client_place(clients: Seq<ClientModel>, client: Seq<char>, from: int)
    requires
        0 <= from,
    ensures
        match client_place(clients, client, from) {
            Some(i) => from <= i < clients.len() && clients[i].client == client,
            None => forall|j: int| from <= j < clients.len() ==> (
            #[trigger] clients[j]).client != client,
        },
    decreases clients.len() - from,
{
    if from < clients.len() && clients[from].client != client {
        lemma_client_place(clients, client, from + 1);
    }
}

proof fn lemma_registered(
    set: RuleSetModel,
    client: Seq<char>,
    id: Seq<char>,
    rule: RuleModel,
    compiles: bool,
)
    requires
        set.wf(),
    ensures
        set.registered(client, id, rule, compiles).0.wf(),
{
    lemma_client_place(set.temporary, client, 0);
    let next = set.registered(client, id, rule, compiles).0;
    match client_place(set.temporary, client, 0) {
        None => {},
        Some(place) => {
            let rules = set.temporary[place].rules;
            lemma_rule_place(rules, id, 0);
            assert forall|i: int, a: int, b: int|
                0 <= i < next.temporary.len() && 0 <= a < b
                    < next.temporary[i].rules.len() implies (
            #[trigger] next.temporary[i].rules[a]).id != (#[trigger] next.temporary[i].rules[b]).id by {
                if i != place {
                    assert(set.temporary[i].rules[a].id != set.temporary[i].rules[b].id);
                } else {
                    assert(a < rules.len());
                    if b < rules.len() {
                        assert(set.temporary[place].rules[a].id
                            != set.temporary[place].rules[b].id);
                    }
                }
            }
        },
    }
}

/// Filtering keeps names apart.
proof fn lemma_kept_apart(rules: Seq<NamedModel>, keep: spec_fn(NamedModel) -> bool)
    requires
        forall|a: int, b: int|
            0 <= a < b < rules.len() ==> (#[trigger] rules[a]).id != (#[trigger] rules[b]).id,
    ensures
        forall|a: int, b: int|
            0 <= a < b < rules.filter(keep).len() ==> (#[trigger] rules.filter(keep)[a]).id != (
            #[trigger] rules.filter(keep)[b]).id,
        rules.filter(keep).len() <= rules.len(),
    decreases rules.len(),
{
    reveal(Seq::filter);
    if rules.len() > 0 {
        let rest = rules.drop_last();
        assert forall|a: int, b: int| 0 <= a < b < rest.len() implies (#[trigger] rest[a]).id != (
        #[trigger] rest[b]).id by {
            assert(rules[a].id != rules[b].id);
        }
        lemma_kept_apart(rest, keep);
        let kept = rest.filter(keep);
        if keep(rules.last()) {
            let next = kept.push(rules.last());
            assert forall|a: int, b: int| 0 <= a < b < next.len() implies (
            #[trigger] next[a]).id != (#[trigger] next[b]).id by {
                if b < kept.len() {
                    assert(kept[a].id != kept[b].id);
                } else {
                    assert(kept.contains(kept[a]));
                    crate::seqs::lemma_filter_contains(rest, keep, kept[a]);
                    let k = choose|k: int| 0 <= k < rest.len() && rest[k] == kept[a];
                    assert(rules[k].id != rules[rules.len() - 1].id);
                }
            }
        }
    }
}

proof fn lemma_unregistered(set: RuleSetModel, client: Seq<char>, id: Seq<char>)
    requires
        set.wf(),
    ensures
        set.unregistered(client, id).wf(),
        set.without_client(client).wf(),
{
    lemma_client_place(set.temporary, client, 0);
    match client_place(set.temporary, client, 0) {
        None => {},
        Some(place) => {
            lemma_without(set, place);
            let old_rules = set.temporary[place].rules;
            let rules = old_rules.filter(named_otherwise(id));
            assert forall|a: int, b: int| 0 <= a < b < old_rules.len() implies (
            #[trigger] old_rules[a]).id != (#[trigger] old_rules[b]).id by {
                assert(set.temporary[place].rules[a].id != set.temporary[place].rules[b].id);
            }
            lemma_kept_apart(old_rules, named_otherwise(id));
            let next = set.with_rules(place, rules);
            assert forall|i: int, a: int, b: int|
                0 <= i < next.temporary.len() && 0 <= a < b
                    < next.temporary[i].rules.len() implies (
            #[trigger] next.temporary[i].rules[a]).id != (#[trigger] next.temporary[i].rules[b]).id by {
                if i != place {
                    assert(set.temporary[i].rules[a].id != set.temporary[i].rules[b].id);
                } else {
                    assert(rules[a].id != rules[b].id);
                }
            }
        },
    }
}

proof fn lemma_without(set: RuleSetModel, place: int)
    requires
        set.wf(),
        0 <= place < set.temporary.len(),
    ensures
        (RuleSetModel { temporary: set.temporary.remove(place), ..set }).wf(),
{
    let next = RuleSetModel { temporary: set.temporary.remove(place), ..set };
    assert forall|i: int, j: int| 0 <= i < j < next.temporary.len() implies (
    #[trigger] next.temporary[i]).client != (#[trigger] next.temporary[j]).client by {
        let a = if i < place {
            i
        } else {
            i + 1
        };
        let b = if j < place {
            j
        } else {
            j + 1
        };
        assert(set.temporary[a].client != set.temporary[b].client);
    }
    assert forall|i: int, a: int, b: int|
        0 <= i < next.temporary.len() && 0 <= a < b < next.temporary[i].rules.len() implies (
    #[trigger] next.temporary[i].rules[a]).id != (#[trigger] next.temporary[i].rules[b]).id by {
        let k = if i < place {
            i
        } else {
            i + 1
        };
        assert(set.temporary[k].rules[a].id != set.temporary[k].rules[b].id);
    }
}

impl RuleSet {
    /// Replaces the configured rules; those with an invalid regular
    /// expression are left out.
    pub fn set_configured(&mut self, rules: &Vec<WindowRuleConfig>)
        requires
            old(self)@.wf(),
        ensures
            final(self)@ == (RuleSetModel {
                configured: compilable(rules@),
                ..old(self)@
            }),
            final(self)@.wf(),
    {
        let ghost keep = compiling();
        let ghost all = models(rules@);
        let mut configured: Vec<CompiledRule> = Vec::new();
        proof {
            reveal(Seq::filter);
            assert(rule_models(configured@) =~= all.take(0).filter(keep));
        }
        for i in 0..rules.len()
            invariant
                keep == compiling(),
                all == models(rules@),
                rule_models(configured@) == all.take(i as int).filter(keep),
        {
            let ghost before = configured@;
            proof {
                crate::seqs::lemma_filter_take(all, i as int, keep);
                assert(all[i as int] == rules@[i as int]@);
            }
            if let Ok(rule) = CompiledRule::new(copy_rule(&rules[i])) {
                configured.push(rule);
                assert(rule_models(configured@) =~= rule_models(before).push(rule@));
            }
        }
        proof {
            crate::seqs::lemma_take_all(all);
        }
        self.configured = configured;
    }

    fn find_client(&self, client: &str) -> (place: Option<usize>)
        ensures
            match place {
                Some(i) => i < self.temporary@.len() && client_place(
                    self@.temporary,
                    client@,
                    0,
                ) == Some(i as int),
                None => client_place(self@.temporary, client@, 0) is None,
            },
    {
        let mut i: usize = 0;
        while i < self.temporary.len()
            invariant
                i <= self.temporary@.len(),
                client_place(self@.temporary, client@, 0) == client_place(
                    self@.temporary,
                    client@,
                    i as int,
                ),
            decreases self.temporary@.len() - i,
        {
            assert(self@.temporary[i as int].client == self.temporary@[i as int].client@);
            if text::text_eq(self.temporary[i].client.as_str(), client) {
                return Some(i);
            }
            i = i + 1;
        }
        None
    }

    fn find_rule(rules: &Vec<NamedRule>, id: &str) -> (place: Option<usize>)
        ensures
            match place {
                Some(i) => i < rules@.len() && rule_place(named_models(rules@), id@, 0) == Some(
                    i as int,
                ),
                None => rule_place(named_models(rules@), id@, 0) is None,
            },
    {
        let mut i: usize = 0;
        while i < rules.len()
            invariant
                i <= rules@.len(),
                rule_place(named_models(rules@), id@, 0) == rule_place(
                    named_models(rules@),
                    id@,
                    i as int,
                ),
            decreases rules@.len() - i,
        {
            if text::text_eq(rules[i].id.as_str(), id) {
                return Some(i);
            }
            i = i + 1;
        }
        None
    }

    /// Registers a rule that is known to be valid under a name.
    fn register_compiled(&mut self, client: &str, id: &str, rule: CompiledRule) -> (r: bool)
        requires
            old(self)@.wf(),
        ensures
            (final(self)@, r) == old(self)@.registered(client@, id@, rule@, true),
            final(self)@.wf(),
    {
        let ghost start = self@;
        proof {
            lemma_registered(start, client@, id@, rule@, true);
            lemma_client_place(start.temporary, client@, 0);
        }
        let ghost named = NamedModel { id: id@, rule: rule@ };
        match self.find_client(client) {
            None => {
                let entry = NamedRule { id: id.to_owned(), rule };
                let mut rules: Vec<NamedRule> = Vec::new();
                rules.push(entry);
                assert(named_models(rules@) =~= seq![named]);
                let ghost before = self.temporary@;
                self.temporary.push(ClientRules { client: client.to_owned(), rules });
                assert(self@.temporary =~= start.temporary.push(
                    ClientModel { client: client@, rules: seq![named] },
                ));
                true
            },
            Some(place) => {
                let ghost rules = self.temporary@[place as int].rules@;
                assert(start.temporary[place as int].rules == named_models(rules));
                proof {
                    lemma_rule_place(named_models(rules), id@, 0);
                }
                match Self::find_rule(&self.temporary[place].rules, id) {
                    Some(i) => {
                        let entry = NamedRule { id: id.to_owned(), rule };
                        self.temporary[place].rules[i] = entry;
                        assert(named_models(self.temporary@[place as int].rules@)
                            =~= named_models(rules).update(i as int, named));
                        assert(self@ =~= start.with_rules(
                            place as int,
                            named_models(rules).update(i as int, named),
                        ));
                        true
                    },
                    None => {
                        if self.temporary[place].rules.len() >= MAX_RULES_PER_CLIENT {
                            return false;
                        }
                        let entry = NamedRule { id: id.to_owned(), rule };
                        self.temporary[place].rules.push(entry);
                        assert(named_models(self.temporary@[place as int].rules@)
                            =~= named_models(rules).push(named));
                        assert(self@ =~= start.with_rules(
                            place as int,
                            named_models(rules).push(named),
                        ));
                        true
                    },
                }
            },
        }
    }

    /// Registers a rule of a client under a name. Says whether that was
    /// possible: the regular expression has to be valid, and a client may
    /// not register too many rules.
    pub fn register(&mut self, client: &str, id: &str, rule: WindowRuleConfig) -> (r: bool)
        requires
            old(self)@.wf(),
        ensures
            (final(self)@, r) == old(self)@.registered(client@, id@, rule@, rule@.compiles()),
            final(self)@.wf(),
    {
        match CompiledRule::new(rule) {
            Ok(rule) => self.register_compiled(client, id, rule),
            Err(_) => false,
        }
    }

    /// Withdraws the rule with a name.
    pub fn unregister(&mut self, client: &str, id: &str)
        requires
            old(self)@.wf(),
        ensures
            final(self)@ == old(self)@.unregistered(client@, id@),
            final(self)@.wf(),
    {
        let ghost start = self@;
        proof {
            lemma_unregistered(start, client@, id@);
            lemma_client_place(start.temporary, client@, 0);
        }
        if let Some(place) = self.find_client(client) {
            let ghost keep = named_otherwise(id@);
            let ghost all = named_models(self.temporary@[place as int].rules@);
            assert(all == start.temporary[place as int].rules);
            let mut old_rules: Vec<NamedRule> = Vec::new();
            std::mem::swap(&mut old_rules, &mut self.temporary[place].rules);
            let mut rules: Vec<NamedRule> = Vec::new();
            proof {
                reveal(Seq::filter);
                assert(named_models(rules@) =~= all.take(0).filter(keep));
            }
            for entry in iter: old_rules
                invariant
                    iter.seq() == old_rules@,
                    keep == named_otherwise(id@),
                    all == named_models(old_rules@),
                    named_models(rules@) == all.take(iter.index() as int).filter(keep),
            {
                let ghost before = rules@;
                proof {
                    crate::seqs::lemma_filter_take(all, iter.index() as int, keep);
                    assert(all[iter.index() as int].id == entry.id@);
                }
                if !text::text_eq(entry.id.as_str(), id) {
                    let ghost model = NamedModel { id: entry.id@, rule: entry.rule@ };
                    rules.push(entry);
                    assert(named_models(rules@) =~= named_models(before).push(model));
                }
            }
            proof {
                crate::seqs::lemma_take_all(all);
            }
            if rules.len() == 0 {
                self.temporary.remove(place);
                assert(self@.temporary =~= start.temporary.remove(place as int));
            } else {
                let ghost kept = named_models(rules@);
                self.temporary[place].rules = rules;
                assert(self@ =~= start.with_rules(place as int, kept));
            }
        }
    }

    /// Withdraws all rules of a client.
    pub fn unregister_client(&mut self, client: &str)
        requires
            old(self)@.wf(),
        ensures
            final(self)@ == old(self)@.without_client(client@),
            final(self)@.wf(),
    {
        let ghost start = self@;
        proof {
            lemma_unregistered(start, client@, client@);
        }
        if let Some(place) = self.find_client(client) {
            self.temporary.remove(place);
            assert(self@.temporary =~= start.temporary.remove(place as int));
        }
    }

    /// What the rules say about a window.
    pub fn resolve(&self, title: &str, app_id: Option<&str>) -> (applied: AppliedWindowRule)
        ensures
            applied@ == self@.resolve(title@, borrowed(app_id)),
    {
        let ghost id = borrowed(app_id);
        let mut applied = AppliedWindowRule::default();
        for i in 0..self.configured.len()
            invariant
                id == borrowed(app_id),
                applied@ == nothing_said().hear(
                    self@.configured.take(i as int),
                    title@,
                    id,
                ),
        {
            let ghost next = self@.configured.take(i + 1);
            assert(next.drop_last() =~= self@.configured.take(i as int));
            if self.configured[i].matches(title, app_id) {
                applied.apply(&self.configured[i].config);
            }
        }
        let ghost configured = self@.configured;
        assert(configured.take(configured.len() as int) =~= configured);
        assert(configured + flattened(self@.temporary.take(0)) =~= configured);
        for c in 0..self.temporary.len()
            invariant
                id == borrowed(app_id),
                configured == self@.configured,
                applied@ == nothing_said().hear(
                    configured + flattened(self@.temporary.take(c as int)),
                    title@,
                    id,
                ),
        {
            let ghost before = configured + flattened(self@.temporary.take(c as int));
            let ghost more = self@.temporary[c as int].rules.map_values(|n: NamedModel| n.rule);
            let rules = &self.temporary[c].rules;
            assert(self@.temporary[c as int].rules == named_models(rules@));
            assert(before + more.take(0) =~= before);
            for i in 0..rules.len()
                invariant
                    id == borrowed(app_id),
                    more == named_models(rules@).map_values(|n: NamedModel| n.rule),
                    applied@ == nothing_said().hear(before + more.take(i as int), title@, id),
            {
                let ghost next = before + more.take(i + 1);
                assert(next.drop_last() =~= before + more.take(i as int));
                assert(next.last() == rules@[i as int].rule@);
                if rules[i].rule.matches(title, app_id) {
                    applied.apply(&rules[i].rule.config);
                }
            }
            proof {
                assert(more.take(more.len() as int) =~= more);
                let now = self@.temporary.take(c + 1);
                assert(now.drop_last() =~= self@.temporary.take(c as int));
                assert(before + more =~= configured + flattened(now));
            }
        }
        assert(self@.temporary.take(self@.temporary.len() as int) =~= self@.temporary);
        applied
    }
}

/// Whatever a later rule says about a matching window overrides what earlier
/// rules said, and what it leaves open stays as it was.
pub proof fn later_rules_override_earlier_ones(
    rules: Seq<RuleModel>,
    rule: RuleModel,
    title: Seq<char>,
    app_id: Option<Seq<char>>,
)
    requires
        rule.selects(title, app_id),
    ensures
        ({
            let before = nothing_said().hear(rules, title, app_id);
            let after = nothing_said().hear(rules.push(rule), title, app_id);
            &&& rule.floating is Some ==> after.floating == rule.floating
            &&& rule.floating is None && rule.tiled is None ==> after.floating == before.floating
            &&& after.workspace == or(rule.workspace, before.workspace)
            &&& after.output == or(rule.output, before.output)
            &&& after.size == or(rule.size, before.size)
            &&& after.position == or(rule.position, before.position)
            &&& after.opacity == or(rule.opacity, before.opacity)
            &&& after.always_on_top == or(rule.always_on_top, before.always_on_top)
            &&& after.decoration == or(rule.decoration, before.decoration)
        }),
{
    assert(rules.push(rule).drop_last() =~= rules);
}

/// A rule that asks for a window class, role or type is for no window.
pub proof fn foreign_selectors_never_match(
    rule: RuleModel,
    title: Seq<char>,
    app_id: Option<Seq<char>>,
)
    requires
        rule.class is Some || rule.role is Some || rule.window_type is Some,
    ensures
        !rule.selects(title, app_id),
{
}

/// Once a client is gone nothing is left of its rules, and the rules of
/// other clients stay.
pub proof fn rules_go_with_their_client(
    set: RuleSetModel,
    client: Seq<char>,
    i: int,
)
    requires
        set.wf(),
    ensures
        client_place(set.without_client(client).temporary, client, 0) is None,
        set.without_client(client).configured == set.configured,
        0 <= i < set.temporary.len() && set.temporary[i].client != client
            ==> set.without_client(client).temporary.contains(set.temporary[i]),
{
    lemma_client_place(set.temporary, client, 0);
    let next = set.without_client(client);
    lemma_client_place(next.temporary, client, 0);
    match client_place(set.temporary, client, 0) {
        None => {},
        Some(place) => {
            match client_place(next.temporary, client, 0) {
                Some(k) => {
                    if k < place {
                        assert(set.temporary[k].client != set.temporary[place].client);
                    } else {
                        assert(set.temporary[place].client != set.temporary[k + 1].client);
                    }
                },
                None => {},
            }
            if 0 <= i < set.temporary.len() && i != place {
                if i < place {
                    assert(next.temporary[i] == set.temporary[i]);
                } else {
                    assert(next.temporary[i - 1] == set.temporary[i]);
                }
            }
        },
    }
}

/// A client that registers its first rule and then goes leaves the rules as
/// they were.
pub proof fn registering_and_leaving_changes_nothing(
    set: RuleSetModel,
    client: Seq<char>,
    id: Seq<char>,
    rule: RuleModel,
    compiles: bool,
)
    requires
        set.wf(),
        client_place(set.temporary, client, 0) is None,
    ensures
        set.registered(client, id, rule, compiles).0.without_client(client) == set,
{
    let next = set.registered(client, id, rule, compiles).0;
    lemma_client_place(set.temporary, client, 0);
    lemma_client_place(next.temporary, client, 0);
    if compiles {
        let last = set.temporary.len() as int;
        assert(next.temporary[last].client == client);
        let place = client_place(next.temporary, client, 0);
        assert(place is Some);
        if place->0 < last {
            assert(next.temporary[place->0] == set.temporary[place->0]);
        }
        assert(next.temporary.remove(last) =~= set.temporary);
        assert(next.without_client(client) =~= set);
    }
}

} // verus!
