//! Configuration documents: what a text says, and what several of them say
//! together.

use vstd::prelude::*;

use crate::layers;
use crate::layers::{Branch, ConfigEntry, ConfigValue, Tree};
use crate::reals::Real64;
use crate::text;

verus! {

/// A setting that is neither a table nor a list.
#[derive(Debug)]
pub enum Scalar {
    Text(String),
    Integer(i64),
    Real(Real64),
    Flag(bool),
    Time(String),
}

/// A setting as contracts see it.
pub enum ScalarModel {
    Text(Seq<char>),
    Integer(i64),
    Real(Real64),
    Flag(bool),
    Time(Seq<char>),
}

impl View for Scalar {
    type V = ScalarModel;

    open spec fn view(&self) -> ScalarModel {
        match *self {
            Scalar::Text(text) => ScalarModel::Text(text@),
            Scalar::Integer(number) => ScalarModel::Integer(number),
            Scalar::Real(number) => ScalarModel::Real(number),
            Scalar::Flag(flag) => ScalarModel::Flag(flag),
            Scalar::Time(time) => ScalarModel::Time(time@),
        }
    }
}

/// A configuration value with its settings as contracts see them.
pub open spec fn plain(tree: Tree<Scalar>) -> Tree<ScalarModel>
    decreases tree,
{
    match tree {
        Tree::Leaf(leaf) => Tree::Leaf(leaf@),
        Tree::List(items) => Tree::List(
            Seq::new(
                items.len(),
                |i: int|
                    if 0 <= i < items.len() {
                        plain(items[i])
                    } else {
                        Tree::Table(Seq::empty())
                    },
            ),
        ),
        Tree::Table(entries) => Tree::Table(
            Seq::new(
                entries.len(),
                |i: int|
                    Branch {
                        key: entries[i].key,
                        value: if 0 <= i < entries.len() {
                            plain(entries[i].value)
                        } else {
                            Tree::Table(Seq::empty())
                        },
                    },
            ),
        ),
    }
}

/// What a configuration value says.
pub open spec fn read_tree(value: ConfigValue<Scalar>) -> Tree<ScalarModel> {
    plain(value.tree())
}

/// What the entries of a table say.
pub open spec fn read_entries(entries: Seq<ConfigEntry<Scalar>>) -> Seq<Branch<ScalarModel>> {
    entries.map_values(
        |entry: ConfigEntry<Scalar>| Branch { key: entry.key@, value: read_tree(entry.value) },
    )
}

/// What the items of a list say.
pub open spec fn read_items(items: Seq<ConfigValue<Scalar>>) -> Seq<Tree<ScalarModel>> {
    items.map_values(|item: ConfigValue<Scalar>| read_tree(item))
}

proof fn lemma_read_table(entries: Vec<ConfigEntry<Scalar>>)
    ensures
        read_tree(ConfigValue::Table(entries)) == Tree::Table(read_entries(entries@)),
{
    let read = read_tree(ConfigValue::Table(entries));
    assert(read->Table_0 =~= read_entries(entries@));
}

proof fn lemma_read_list(items: Vec<ConfigValue<Scalar>>)
    ensures
        read_tree(ConfigValue::List(items)) == Tree::List(read_items(items@)),
{
    let read = read_tree(ConfigValue::List(items));
    assert(read->List_0 =~= read_items(items@));
}

#[verifier::external_type_specification]
#[verifier::external_body]
pub struct ExTomlValue(toml::Value);

/// What a `toml::Value` holds, with numbers and times as plain values.
pub uninterp spec fn toml_contents(value: toml::Value) -> Tree<ScalarModel>;

/// `toml::from_str`: what a document says, if it is one.
pub uninterp spec fn toml_tree(text: Seq<char>) -> Option<Tree<ScalarModel>>;

/// A value in a TOML table.
struct TomlEntry {
    key: String,
    value: toml::Value,
}

/// A TOML value, opened once.
enum TomlPart {
    Table(Vec<TomlEntry>),
    List(Vec<toml::Value>),
    Leaf(Scalar),
}

/// Calls `toml::from_str` for a `toml::Value`. Whether the text is a document
/// and what the document says depends on the text alone.
#[verifier::external_body]
fn parse_toml(text: &str) -> (r: Option<toml::Value>)
    ensures
        match r {
            Some(value) => toml_tree(text@) == Some(toml_contents(value)),
            None => toml_tree(text@) is None,
        },
{
    toml::from_str(text).ok()
}

/// Tells the variants of `toml::Value` apart. A table holds its values in the
/// order in which `toml::Table` hands them out, each key once; an array holds
/// its items in order; anything else is a setting.
#[verifier::external_body]
fn open_toml(value: toml::Value) -> (r: TomlPart)
    ensures
        match r {
            TomlPart::Table(entries) => toml_contents(value) == Tree::Table(
                toml_entries(entries@),
            ) && layers::keys_distinct(toml_entries(entries@)),
            TomlPart::List(items) => toml_contents(value) == Tree::List(toml_items(items@)),
            TomlPart::Leaf(leaf) => toml_contents(value) == Tree::Leaf(leaf@),
        },
{
    match value {
        toml::Value::Table(table) => TomlPart::Table(
            table.into_iter().map(|(key, value)| TomlEntry { key, value }).collect(),
        ),
        toml::Value::Array(items) => TomlPart::List(items),
        toml::Value::String(text) => TomlPart::Leaf(Scalar::Text(text)),
        toml::Value::Integer(number) => TomlPart::Leaf(Scalar::Integer(number)),
        toml::Value::Float(number) => TomlPart::Leaf(
            Scalar::Real(Real64 { bits: number.to_bits() }),
        ),
        toml::Value::Boolean(flag) => TomlPart::Leaf(Scalar::Flag(flag)),
        toml::Value::Datetime(time) => TomlPart::Leaf(Scalar::Time(time.to_string())),
    }
}

/// What the entries of an opened table say.
spec fn toml_entries(entries: Seq<TomlEntry>) -> Seq<Branch<ScalarModel>> {
    entries.map_values(
        |entry: TomlEntry| Branch { key: entry.key@, value: toml_contents(entry.value) },
    )
}

/// What the items of an opened list say.
spec fn toml_items(items: Seq<toml::Value>) -> Seq<Tree<ScalarModel>> {
    items.map_values(|item: toml::Value| toml_contents(item))
}

/// Takes a TOML value apart down to its settings.
fn from_toml(value: toml::Value) -> (r: ConfigValue<Scalar>)
    ensures
        read_tree(r) == toml_contents(value),
        layers::well_keyed(read_tree(r)),
    decreases toml_contents(value),
{
    let ghost whole = toml_contents(value);
    match open_toml(value) {
        TomlPart::Leaf(leaf) => ConfigValue::Leaf(leaf),
        TomlPart::List(items) => {
            let mut values: Vec<ConfigValue<Scalar>> = Vec::new();
            let ghost all = toml_items(items@);
            for item in iter: items
                invariant
                    iter.seq() == items@,
                    all == toml_items(items@),
                    whole == Tree::List(all),
                    whole == toml_contents(value),
                    read_items(values@) == all.take(iter.index() as int),
                    forall|j: int| 0 <= j < iter.index() ==> layers::well_keyed(#[trigger] all[j]),
            {
                let ghost before = values@;
                let ghost i = iter.index() as int;
                assert(all[i] == toml_contents(item));
                assert(decreases_to!(whole => whole->List_0));
                assert(decreases_to!(whole->List_0 => whole->List_0[i]));
                let read = from_toml(item);
                values.push(read);
                assert(read_items(values@) =~= read_items(before).push(all[i]));
                assert(all.take(i + 1) =~= all.take(i).push(all[i]));
            }
            assert(all.take(all.len() as int) =~= all);
            proof {
                lemma_read_list(values);
            }
            ConfigValue::List(values)
        },
        TomlPart::Table(entries) => {
            let mut values: Vec<ConfigEntry<Scalar>> = Vec::new();
            let ghost all = toml_entries(entries@);
            for entry in iter: entries
                invariant
                    iter.seq() == entries@,
                    all == toml_entries(entries@),
                    whole == Tree::Table(all),
                    whole == toml_contents(value),
                    read_entries(values@) == all.take(iter.index() as int),
                    forall|j: int|
                        0 <= j < iter.index() ==> layers::well_keyed((#[trigger] all[j]).value),
            {
                let ghost before = values@;
                let ghost i = iter.index() as int;
                assert(all[i] == (Branch {
                    key: entry.key@,
                    value: toml_contents(entry.value),
                }));
                assert(decreases_to!(whole => whole->Table_0));
                assert(decreases_to!(whole->Table_0 => whole->Table_0[i]));
                assert(decreases_to!(whole->Table_0[i] => whole->Table_0[i].value));
                let read = from_toml(entry.value);
                values.push(ConfigEntry { key: entry.key, value: read });
                assert(read_entries(values@) =~= read_entries(before).push(all[i]));
                assert(all.take(i + 1) =~= all.take(i).push(all[i]));
            }
            assert(all.take(all.len() as int) =~= all);
            proof {
                lemma_read_table(values);
            }
            ConfigValue::Table(values)
        },
    }
}

/// What a configuration document says; nothing where it is no document.
pub fn parse_layer(text: &str) -> (r: Option<ConfigValue<Scalar>>)
    ensures
        match r {
            Some(layer) => toml_tree(text@) == Some(read_tree(layer)) && layers::well_keyed(
                read_tree(layer),
            ),
            None => toml_tree(text@) is None,
        },
{
    match parse_toml(text) {
        Some(value) => Some(from_toml(value)),
        None => None,
    }
}

fn copy_scalar(scalar: &Scalar) -> (r: Scalar)
    ensures
        r@ == scalar@,
{
    match scalar {
        Scalar::Text(text) => Scalar::Text(text.clone()),
        Scalar::Integer(number) => Scalar::Integer(*number),
        Scalar::Real(number) => Scalar::Real(*number),
        Scalar::Flag(flag) => Scalar::Flag(*flag),
        Scalar::Time(time) => Scalar::Time(time.clone()),
    }
}

/// A copy of a configuration value.
pub fn copy_value(value: &ConfigValue<Scalar>) -> (r: ConfigValue<Scalar>)
    ensures
        read_tree(r) == read_tree(*value),
    decreases value,
{
    match value {
        ConfigValue::Leaf(leaf) => ConfigValue::Leaf(copy_scalar(leaf)),
        ConfigValue::List(items) => {
            let mut copies: Vec<ConfigValue<Scalar>> = Vec::new();
            for i in 0..items.len()
                invariant
                    *value == ConfigValue::List(*items),
                    read_items(copies@) == read_items(items@).take(i as int),
            {
                let ghost before = copies@;
                assert(decreases_to!(*value => value->List_0));
                assert(decreases_to!(*items => items@));
                assert(decreases_to!(items@ => items@[i as int]));
                let copy = copy_value(&items[i]);
                copies.push(copy);
                assert(read_items(copies@) =~= read_items(before).push(read_items(items@)[i as int]));
                assert(read_items(items@).take(i + 1) =~= read_items(items@).take(i as int).push(
                    read_items(items@)[i as int],
                ));
            }
            assert(read_items(items@).take(items@.len() as int) =~= read_items(items@));
            proof {
                lemma_read_list(*items);
                lemma_read_list(copies);
            }
            ConfigValue::List(copies)
        },
        ConfigValue::Table(entries) => {
            let mut copies: Vec<ConfigEntry<Scalar>> = Vec::new();
            for i in 0..entries.len()
                invariant
                    *value == ConfigValue::Table(*entries),
                    read_entries(copies@) == read_entries(entries@).take(i as int),
            {
                let ghost before = copies@;
                assert(decreases_to!(*value => value->Table_0));
                assert(decreases_to!(*entries => entries@));
                assert(decreases_to!(entries@ => entries@[i as int]));
                assert(decreases_to!(entries@[i as int] => entries@[i as int].value));
                let copy = copy_value(&entries[i].value);
                copies.push(ConfigEntry { key: entries[i].key.clone(), value: copy });
                assert(read_entries(copies@) =~= read_entries(before).push(
                    read_entries(entries@)[i as int],
                ));
                assert(read_entries(entries@).take(i + 1) =~= read_entries(entries@).take(
                    i as int,
                ).push(read_entries(entries@)[i as int]));
            }
            assert(read_entries(entries@).take(entries@.len() as int) =~= read_entries(entries@));
            proof {
                lemma_read_table(*entries);
                lemma_read_table(copies);
            }
            ConfigValue::Table(copies)
        },
    }
}

/// The entries of a table with their settings as contracts see them.
spec fn plain_entries(entries: Seq<Branch<Scalar>>) -> Seq<Branch<ScalarModel>> {
    entries.map_values(
        |entry: Branch<Scalar>| Branch { key: entry.key, value: plain(entry.value) },
    )
}

proof fn lemma_plain_place(entries: Seq<Branch<Scalar>>, key: Seq<char>, from: int)
    requires
        0 <= from,
    ensures
        layers::place_of(plain_entries(entries), key, from) == layers::place_of(entries, key, from),
    decreases entries.len() - from,
{
    if from < entries.len() {
        lemma_plain_place(entries, key, from + 1);
    }
}

/// It makes no difference whether values are merged before or after their
/// settings are looked at.
proof fn lemma_plain_merged(base: Tree<Scalar>, layer: Tree<Scalar>)
    ensures
        plain(layers::merged(base, layer)) == layers::merged(plain(base), plain(layer)),
    decreases layer,
{
    match (base, layer) {
        (Tree::Table(entries), Tree::Table(more)) => {
            lemma_plain_merged_entries(entries, more);
            let both = layers::merged_entries(entries, more);
            assert(plain(base)->Table_0 =~= plain_entries(entries));
            assert(plain(layer)->Table_0 =~= plain_entries(more));
            assert(plain(Tree::Table(both))->Table_0 =~= plain_entries(both));
        },
        _ => {},
    }
}

proof fn lemma_plain_merged_entries(base: Seq<Branch<Scalar>>, layer: Seq<Branch<Scalar>>)
    ensures
        plain_entries(layers::merged_entries(base, layer)) == layers::merged_entries(
            plain_entries(base),
            plain_entries(layer),
        ),
    decreases layer,
{
    if layer.len() > 0 {
        let rest = layer.drop_last();
        let entry = layer.last();
        lemma_plain_merged_entries(base, rest);
        assert(plain_entries(layer).drop_last() =~= plain_entries(rest));
        let before = layers::merged_entries(base, rest);
        let after = layers::merged_entries(base, layer);
        lemma_plain_place(before, entry.key, 0);
        layers::lemma_place_of(before, entry.key, 0);
        assert(entry == layer[layer.len() - 1]);
        match layers::place_of(before, entry.key, 0) {
            Some(i) => {
                lemma_plain_merged(before[i].value, entry.value);
                assert(plain_entries(after) =~= plain_entries(before).update(
                    i,
                    Branch {
                        key: entry.key,
                        value: layers::merged(plain(before[i].value), plain(entry.value)),
                    },
                ));
            },
            None => {
                assert(plain_entries(after) =~= plain_entries(before).push(
                    plain_entries(layer).last(),
                ));
            },
        }
    } else {
        assert(plain_entries(layer) =~= Seq::<Branch<ScalarModel>>::empty());
    }
}

/// What documents say, one after the other.
pub open spec fn toml_trees(texts: Seq<Seq<char>>) -> Seq<Tree<ScalarModel>> {
    texts.map_values(|text: Seq<char>| toml_tree(text)->0)
}

/// Puts the documents on top of a value one after the other and keeps what
/// there is after each of them; the last is what all of them say together.
/// Where a text is no document, the first such is named.
pub fn load_layers(base: &ConfigValue<Scalar>, texts: &Vec<String>) -> (r: Result<
    Vec<ConfigValue<Scalar>>,
    usize,
>)
    ensures
        match r {
            Ok(stages) => {
                &&& stages@.len() == texts@.len()
                &&& forall|i: int|
                    0 <= i < texts@.len() ==> toml_tree((#[trigger] texts@[i])@) is Some
                &&& forall|i: int|
                    0 <= i < stages@.len() ==> read_tree(#[trigger] stages@[i]) == layers::layered(
                        read_tree(*base),
                        toml_trees(text::strings(texts@)).take(i + 1),
                    )
                &&& layers::well_keyed(read_tree(*base)) ==> forall|i: int|
                    0 <= i < stages@.len() ==> layers::well_keyed(read_tree(#[trigger] stages@[i]))
            },
            Err(bad) => bad < texts@.len() && toml_tree(texts@[bad as int]@) is None && forall|
                i: int,
            |
                0 <= i < bad ==> toml_tree((#[trigger] texts@[i])@) is Some,
        },
{
    let ghost all = toml_trees(text::strings(texts@));
    let ghost start = read_tree(*base);
    let mut stages: Vec<ConfigValue<Scalar>> = Vec::new();
    let mut merged = copy_value(base);
    assert(all.take(0) =~= Seq::<Tree<ScalarModel>>::empty());
    for n in 0..texts.len()
        invariant
            all == toml_trees(text::strings(texts@)),
            start == read_tree(*base),
            stages@.len() == n,
            read_tree(merged) == layers::layered(start, all.take(n as int)),
            layers::well_keyed(start) ==> layers::well_keyed(read_tree(merged)),
            forall|i: int| 0 <= i < n ==> toml_tree((#[trigger] texts@[i])@) is Some,
            forall|i: int|
                0 <= i < n ==> read_tree(#[trigger] stages@[i]) == layers::layered(
                    start,
                    all.take(i + 1),
                ),
            layers::well_keyed(start) ==> forall|i: int|
                0 <= i < n ==> layers::well_keyed(read_tree(#[trigger] stages@[i])),
    {
        match parse_layer(texts[n].as_str()) {
            None => {
                return Err(n);
            },
            Some(layer) => {
                proof {
                    assert(all[n as int] == read_tree(layer));
                    assert(all.take(n + 1).drop_last() =~= all.take(n as int));
                    lemma_plain_merged(merged.tree(), layer.tree());
                    if layers::well_keyed(start) {
                        layers::lemma_merged_well_keyed(read_tree(merged), read_tree(layer));
                    }
                }
                layers::merge_toml(&mut merged, layer);
                let stage = copy_value(&merged);
                stages.push(stage);
            },
        }
    }
    Ok(stages)
}

} // verus!
