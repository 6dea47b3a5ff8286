//! Configuration layers: what is merged, and in which order.

use vstd::prelude::*;

use crate::seqs;
use crate::text;

verus! {

/// A configuration value: a table, a list, or anything else.
#[derive(Debug)]
pub enum ConfigValue<T> {
    Table(Vec<ConfigEntry<T>>),
    List(Vec<ConfigValue<T>>),
    Leaf(T),
}

/// A value in a table.
#[derive(Debug)]
pub struct ConfigEntry<T> {
    pub key: String,
    pub value: ConfigValue<T>,
}

/// A configuration value as contracts see it.
#[verifier::ext_equal]
pub enum Tree<T> {
    Table(Seq<Branch<T>>),
    List(Seq<Tree<T>>),
    Leaf(T),
}

/// A value in a table as contracts see it.
#[verifier::ext_equal]
pub struct Branch<T> {
    pub key: Seq<char>,
    pub value: Tree<T>,
}

impl<T> ConfigValue<T> {
    pub open spec fn tree(self) -> Tree<T>
        decreases self,
    {
        match self {
            ConfigValue::Leaf(leaf) => Tree::Leaf(leaf),
            ConfigValue::List(items) => Tree::List(
                Seq::new(
                    items@.len(),
                    |i: int|
                        if 0 <= i < items@.len() {
                            items@[i].tree()
                        } else {
                            Tree::Table(Seq::empty())
                        },
                ),
            ),
            ConfigValue::Table(entries) => Tree::Table(
                Seq::new(
                    entries@.len(),
                    |i: int|
                        Branch {
                            key: entries@[i].key@,
                            value: if 0 <= i < entries@.len() {
                                entries@[i].value.tree()
                            } else {
                                Tree::Table(Seq::empty())
                            },
                        },
                ),
            ),
        }
    }
}

/// The entries of a table as contracts see them.
pub open spec fn branches<T>(entries: Seq<ConfigEntry<T>>) -> Seq<Branch<T>> {
    entries.map_values(|e: ConfigEntry<T>| Branch { key: e.key@, value: e.value.tree() })
}

/// The first place of a key from `from` on.
pub open spec fn place_of<T>(entries: Seq<Branch<T>>, key: Seq<char>, from: int) -> Option<int>
    decreases entries.len() - from,
{
    if from < 0 || from >= entries.len() {
        None
    } else if entries[from].key == key {
        Some(from)
    } else {
        place_of(entries, key, from + 1)
    }
}

/// The value of a key.
pub open spec fn value_of<T>(entries: Seq<Branch<T>>, key: Seq<char>) -> Option<Tree<T>> {
    match place_of(entries, key, 0) {
        Some(i) => Some(entries[i].value),
        None => None,
    }
}

/// Every key is there at most once.
pub open spec fn keys_distinct<T>(entries: Seq<Branch<T>>) -> bool {
    forall|i: int, j: int|
        0 <= i < j < entries.len() ==> (#[trigger] entries[i]).key != (#[trigger] entries[j]).key
}

/// No table in the value has a key twice.
pub open spec fn well_keyed<T>(tree: Tree<T>) -> bool
    decreases tree,
{
    match tree {
        Tree::Leaf(_) => true,
        Tree::List(items) => forall|i: int|
            0 <= i < items.len() ==> well_keyed(#[trigger] items[i]),
        Tree::Table(entries) => keys_distinct(entries) && forall|i: int|
            0 <= i < entries.len() ==> well_keyed((#[trigger] entries[i]).value),
    }
}

/// A value with a later layer on top: tables merge key by key, anything else
/// is replaced.
pub open spec fn merged<T>(base: Tree<T>, layer: Tree<T>) -> Tree<T>
    decreases layer,
{
    match (base, layer) {
        (Tree::Table(entries), Tree::Table(more)) => Tree::Table(merged_entries(entries, more)),
        _ => layer,
    }
}

/// The entries of a table with those of a later layer on top.
pub open spec fn merged_entries<T>(base: Seq<Branch<T>>, layer: Seq<Branch<T>>) -> Seq<Branch<T>>
    decreases layer,
{
    if layer.len() == 0 {
        base
    } else {
        let before = merged_entries(base, layer.drop_last());
        let entry = layer.last();
        match place_of(before, entry.key, 0) {
            Some(i) => before.update(
                i,
                Branch { key: entry.key, value: merged(before[i].value, entry.value) },
            ),
            None => before.push(entry),
        }
    }
}

fn find_key<T>(entries: &Vec<ConfigEntry<T>>, key: &str) -> (place: Option<usize>)
    ensures
        match place {
            Some(i) => i < entries@.len() && place_of(branches(entries@), key@, 0) == Some(
                i as int,
            ),
            None => place_of(branches(entries@), key@, 0) is None,
        },
{
    let mut i: usize = 0;
    while i < entries.len()
        invariant
            i <= entries@.len(),
            place_of(branches(entries@), key@, 0) == place_of(branches(entries@), key@, i as int),
        decreases entries@.len() - i,
    {
        if text::text_eq(entries[i].key.as_str(), key) {
            return Some(i);
        }
        i = i + 1;
    }
    None
}

/// A key that has a place is there.
pub proof fn lemma_place_of<T>(entries: Seq<Branch<T>>, key: Seq<char>, from: int)
    requires
        0 <= from,
    ensures
        match place_of(entries, key, from) {
            Some(i) => from <= i < entries.len() && entries[i].key == key && forall|j: int|
                from <= j < i ==> (#[trigger] entries[j]).key != key,
            None => forall|j: int| from <= j < entries.len() ==> (#[trigger] entries[j]).key != key,
        },
    decreases entries.len() - from,
{
    if from < entries.len() && entries[from].key != key {
        lemma_place_of(entries, key, from + 1);
    }
}

/// What a table is to contracts.
proof fn lemma_table<T>()
    ensures
        forall|entries: Vec<ConfigEntry<T>>| #[trigger]
            ConfigValue::Table(entries).tree() == Tree::Table(branches(entries@)),
{
    assert forall|entries: Vec<ConfigEntry<T>>| #[trigger]
        ConfigValue::Table(entries).tree() == Tree::Table(branches(entries@)) by {
        let tree = ConfigValue::Table(entries).tree();
        assert(tree->Table_0 =~= branches(entries@));
    }
}

/// Puts a later layer on top of a value.
pub fn merge_toml<T>(base: &mut ConfigValue<T>, layer: ConfigValue<T>)
    ensures
        final(base).tree() == merged(old(base).tree(), layer.tree()),
    decreases layer,
{
    proof {
        lemma_table::<T>();
    }
    match (base, layer) {
        (ConfigValue::Table(entries), ConfigValue::Table(more)) => {
            merge_entries(entries, more);
        },
        (base, layer) => {
            *base = layer;
        },
    }
}

fn merge_entries<T>(entries: &mut Vec<ConfigEntry<T>>, layer: Vec<ConfigEntry<T>>)
    ensures
        branches(final(entries)@) == merged_entries(branches(old(entries)@), branches(layer@)),
    decreases layer,
{
    let ghost start = branches(entries@);
    for entry in iter: layer
        invariant
            iter.seq() == layer@,
            branches(entries@) == merged_entries(
                start,
                branches(layer@).take(iter.index() as int),
            ),
    {
        let ghost before = branches(layer@).take(iter.index() as int);
        let ghost after = branches(layer@).take(iter.index() as int + 1);
        let ghost so_far = entries@;
        let ghost key = entry.key@;
        proof {
            assert(after.drop_last() =~= before);
            assert(after.last() == (Branch { key: entry.key@, value: entry.value.tree() }));
            lemma_place_of(branches(so_far), key, 0);
        }
        match find_key(entries, entry.key.as_str()) {
            Some(i) => {
                let ghost value = merged(so_far[i as int].value.tree(), entry.value.tree());
                merge_toml(&mut entries[i].value, entry.value);
                assert(branches(entries@) =~= branches(so_far).update(
                    i as int,
                    Branch { key, value },
                ));
            },
            None => {
                entries.push(entry);
                assert(branches(entries@) =~= branches(so_far).push(after.last()));
            },
        }
    }
    assert(branches(layer@).take(layer@.len() as int) =~= branches(layer@));
}

/// A value with every layer on top of the ones before it.
pub open spec fn layered<T>(base: Tree<T>, layers: Seq<Tree<T>>) -> Tree<T>
    decreases layers.len(),
{
    if layers.len() == 0 {
        base
    } else {
        merged(layered(base, layers.drop_last()), layers.last())
    }
}

pub open spec fn trees<T>(layers: Seq<ConfigValue<T>>) -> Seq<Tree<T>> {
    layers.map_values(|layer: ConfigValue<T>| layer.tree())
}

/// Puts the layers on top of a value, one after the other.
pub fn merge_layers<T>(base: &mut ConfigValue<T>, layers: Vec<ConfigValue<T>>)
    ensures
        final(base).tree() == layered(old(base).tree(), trees(layers@)),
{
    let ghost start = base.tree();
    let ghost all = trees(layers@);
    for layer in iter: layers
        invariant
            iter.seq() == layers@,
            all == trees(layers@),
            base.tree() == layered(start, all.take(iter.index() as int)),
    {
        let ghost i = iter.index() as int;
        assert(all.take(i + 1).drop_last() =~= all.take(i));
        assert(all.take(i + 1).last() == layer.tree());
        merge_toml(base, layer);
    }
    assert(all.take(all.len() as int) =~= all);
}

/// Putting one entry on top.
proof fn lemma_value_after<T>(base: Seq<Branch<T>>, layer: Seq<Branch<T>>, key: Seq<char>)
    requires
        keys_distinct(base),
        keys_distinct(layer),
    ensures
        keys_distinct(merged_entries(base, layer)),
        value_of(merged_entries(base, layer), key) == (match (
            value_of(base, key),
            value_of(layer, key),
        ) {
            (Some(below), Some(above)) => Some(merged(below, above)),
            (below, None) => below,
            (None, above) => above,
        }),
    decreases layer.len(),
{
    lemma_place_of(base, key, 0);
    lemma_place_of(layer, key, 0);
    if layer.len() > 0 {
        let rest = layer.drop_last();
        let entry = layer.last();
        assert(keys_distinct(rest)) by {
            assert forall|i: int, j: int| 0 <= i < j < rest.len() implies (
            #[trigger] rest[i]).key != (#[trigger] rest[j]).key by {
                assert(layer[i].key != layer[j].key);
            }
        }
        lemma_value_after(base, rest, key);
        lemma_value_after(base, rest, entry.key);
        let before = merged_entries(base, rest);
        let next = merged_entries(base, layer);
        lemma_place_of(before, entry.key, 0);
        lemma_place_of(before, key, 0);
        lemma_place_of(next, key, 0);
        lemma_place_of(rest, key, 0);
        lemma_place_of(rest, entry.key, 0);
        lemma_place_of(base, entry.key, 0);
        match place_of(rest, entry.key, 0) {
            Some(i) => {
                assert(layer[i].key != layer[layer.len() - 1].key);
            },
            None => {},
        }
        assert(value_of(rest, entry.key) is None);
        match place_of(before, entry.key, 0) {
            Some(place) => {
                assert forall|i: int, j: int| 0 <= i < j < next.len() implies (
                #[trigger] next[i]).key != (#[trigger] next[j]).key by {
                    assert(before[i].key != before[j].key);
                }
                assert(next[place].key == entry.key);
            },
            None => {
                assert forall|i: int, j: int| 0 <= i < j < next.len() implies (
                #[trigger] next[i]).key != (#[trigger] next[j]).key by {
                    if j < before.len() {
                        assert(before[i].key != before[j].key);
                    } else {
                        assert(before[i].key != entry.key);
                    }
                }
                assert(next[before.len() as int] == entry);
            },
        }
        if key == entry.key {
            match place_of(layer, key, 0) {
                Some(i) => {
                    if i < layer.len() - 1 {
                        assert(layer[i].key != layer[layer.len() - 1].key);
                    }
                },
                None => {
                    assert(layer[layer.len() - 1].key != key);
                },
            }
            match (place_of(next, key, 0), place_of(before, key, 0)) {
                (Some(i), Some(place)) => {
                    if i < place {
                        assert(next[i].key != next[place].key);
                    } else if place < i {
                        assert(next[place].key != next[i].key);
                    }
                },
                (Some(i), None) => {
                    if i < before.len() {
                        assert(before[i].key != key);
                    }
                },
                (None, Some(place)) => {
                    assert(next[place].key != key);
                },
                (None, None) => {
                    assert(next[before.len() as int].key != key);
                },
            }
        } else {
            match (place_of(layer, key, 0), place_of(rest, key, 0)) {
                (Some(i), Some(j)) => {
                    assert(rest[i].key == key);
                    if i < j {
                        assert(rest[i].key != key);
                    } else if j < i {
                        assert(layer[j].key != key);
                    }
                },
                (Some(i), None) => {
                    assert(rest[i].key != key);
                },
                (None, Some(j)) => {
                    assert(layer[j].key != key);
                },
                (None, None) => {},
            }
            match (place_of(next, key, 0), place_of(before, key, 0)) {
                (Some(i), Some(j)) => {
                    assert(before[i].key == key);
                    if i < j {
                        assert(before[i].key != key);
                    } else if j < i {
                        assert(next[j].key != key);
                    }
                },
                (Some(i), None) => {
                    assert(before[i].key != key);
                },
                (None, Some(j)) => {
                    assert(next[j].key != key);
                },
                (None, None) => {},
            }
        }
    }
}

/// Merging keeps every table free of double keys.
pub proof fn lemma_merged_well_keyed<T>(base: Tree<T>, layer: Tree<T>)
    requires
        well_keyed(base),
        well_keyed(layer),
    ensures
        well_keyed(merged(base, layer)),
    decreases layer,
{
    match (base, layer) {
        (Tree::Table(entries), Tree::Table(more)) => {
            lemma_value_after(entries, more, Seq::empty());
            lemma_entries_well_keyed(entries, more);
        },
        _ => {},
    }
}

proof fn lemma_entries_well_keyed<T>(base: Seq<Branch<T>>, layer: Seq<Branch<T>>)
    requires
        forall|i: int| 0 <= i < base.len() ==> well_keyed((#[trigger] base[i]).value),
        forall|i: int| 0 <= i < layer.len() ==> well_keyed((#[trigger] layer[i]).value),
    ensures
        forall|i: int|
            0 <= i < merged_entries(base, layer).len() ==> well_keyed(
                (#[trigger] merged_entries(base, layer)[i]).value,
            ),
    decreases layer,
{
    if layer.len() > 0 {
        let rest = layer.drop_last();
        let entry = layer.last();
        assert forall|i: int| 0 <= i < rest.len() implies well_keyed(
            (#[trigger] rest[i]).value,
        ) by {
            assert(rest[i] == layer[i]);
        }
        lemma_entries_well_keyed(base, rest);
        let before = merged_entries(base, rest);
        lemma_place_of(before, entry.key, 0);
        match place_of(before, entry.key, 0) {
            Some(i) => {
                assert(entry == layer[layer.len() - 1]);
                lemma_merged_well_keyed(before[i].value, entry.value);
            },
            None => {},
        }
    }
}

/// A later layer wins: where it has a key and its value or the one below is
/// no table, its value is taken. Where both are tables they merge, and a key
/// that only one of them has keeps its value.
pub proof fn later_layers_take_precedence<T>(
    base: Seq<Branch<T>>,
    layer: Seq<Branch<T>>,
    key: Seq<char>,
)
    requires
        keys_distinct(base),
        keys_distinct(layer),
    ensures
        merged(Tree::Table(base), Tree::Table(layer)) matches Tree::Table(entries)
            && keys_distinct(entries) && value_of(entries, key) == (match (
            value_of(base, key),
            value_of(layer, key),
        ) {
            (Some(below), Some(above)) => Some(merged(below, above)),
            (below, None) => below,
            (None, above) => above,
        }),
        forall|leaf: T, tree: Tree<T>|
            #![trigger merged(tree, Tree::Leaf(leaf))]
            merged(tree, Tree::Leaf(leaf)) == Tree::Leaf(leaf),
        forall|leaf: T, tree: Tree<T>|
            #![trigger merged(Tree::Leaf(leaf), tree)]
            merged(Tree::Leaf(leaf), tree) == tree,
        forall|items: Seq<Tree<T>>, tree: Tree<T>|
            #![trigger merged(tree, Tree::List(items))]
            merged(tree, Tree::List(items)) == Tree::List(items),
        forall|items: Seq<Tree<T>>, tree: Tree<T>|
            #![trigger merged(Tree::List(items), tree)]
            merged(Tree::List(items), tree) == tree,
{
    lemma_value_after(base, layer, key);
}

/// The name is that of a file that adds to the configuration: something and
/// then `.toml`.
pub open spec fn is_fragment(name: Seq<char>) -> bool {
    name.len() > 5 && name.skip(name.len() - 5) == ".toml"@
}

/// `a` comes before `b`, character by character.
pub open spec fn comes_before(a: Seq<char>, b: Seq<char>) -> bool
    decreases a.len(),
{
    if b.len() == 0 {
        false
    } else if a.len() == 0 {
        true
    } else if a[0] != b[0] {
        (a[0] as u32) < (b[0] as u32)
    } else {
        comes_before(a.skip(1), b.skip(1))
    }
}

/// The order of texts is transitive.
pub proof fn lemma_comes_before(a: Seq<char>, b: Seq<char>, c: Seq<char>)
    requires
        comes_before(a, b),
        comes_before(b, c),
    ensures
        comes_before(a, c),
    decreases a.len(),
{
    if a.len() > 0 && a[0] == b[0] && b[0] == c[0] {
        lemma_comes_before(a.skip(1), b.skip(1), c.skip(1));
    }
}

pub fn is_before(a: &[char], b: &[char]) -> (r: bool)
    ensures
        r == comes_before(a@, b@),
{
    let mut i: usize = 0;
    assert(a@.skip(0) =~= a@);
    assert(b@.skip(0) =~= b@);
    loop
        invariant
            i <= a@.len(),
            i <= b@.len(),
            comes_before(a@, b@) == comes_before(a@.skip(i as int), b@.skip(i as int)),
        decreases a@.len() - i,
    {
        if i == b.len() {
            return false;
        }
        if i == a.len() {
            return true;
        }
        if a[i] != b[i] {
            return (a[i] as u32) < (b[i] as u32);
        }
        assert(a@.skip(i as int).skip(1) =~= a@.skip(i + 1));
        assert(b@.skip(i as int).skip(1) =~= b@.skip(i + 1));
        i = i + 1;
    }
}

/// No text comes before one that is listed ahead of it.
pub open spec fn in_order(names: Seq<Seq<char>>) -> bool {
    forall|i: int, j: int|
        0 <= i < j < names.len() ==> !comes_before(#[trigger] names[j], #[trigger] names[i])
}

fn names_fragment(name: &str) -> (r: bool)
    ensures
        r == is_fragment(name@),
{
    let chars = text::chars_of(name);
    let count: usize = chars.len();
    if count <= 5 {
        return false;
    }
    let end = text::slice_of(&chars, count - 5, count);
    assert(end@ =~= name@.skip(name@.len() - 5));
    text::chars_are(&end, ".toml")
}

/// Puts a name where it belongs.
pub fn insert_name(names: &mut Vec<String>, name: String)
    requires
        in_order(text::strings(old(names)@)),
    ensures
        in_order(text::strings(final(names)@)),
        text::strings(final(names)@).to_multiset() == text::strings(old(names)@).to_multiset().insert(
            name@,
        ),
{
    let ghost start = text::strings(names@);
    let chars = text::chars_of(name.as_str());
    let mut place: usize = 0;
    while place < names.len() && !is_before(
        &chars,
        &text::chars_of(names[place].as_str()),
    )
        invariant
            place <= names@.len(),
            chars@ == name@,
            start == text::strings(names@),
            forall|i: int| 0 <= i < place ==> !comes_before(name@, #[trigger] start[i]),
        decreases names@.len() - place,
    {
        place = place + 1;
    }
    let ghost key = name@;
    names.insert(place, name);
    let ghost next = text::strings(names@);
    proof {
        assert(next =~= start.insert(place as int, key));
        vstd::seq_lib::to_multiset_insert(start, place as int, key);
        assert forall|i: int, j: int| 0 <= i < j < next.len() implies !comes_before(
            #[trigger] next[j],
            #[trigger] next[i],
        ) by {
            if i == place {
                if comes_before(start[j - 1], key) {
                    lemma_comes_before(start[j - 1], key, start[place as int]);
                    if j - 1 == place {
                        lemma_irreflexive(start[place as int]);
                    }
                }
            } else if j == place {
                assert(!comes_before(key, start[i]));
            } else {
                let a = if i < place {
                    i
                } else {
                    i - 1
                };
                let b = if j < place {
                    j
                } else {
                    j - 1
                };
                assert(!comes_before(start[b], start[a]));
            }
        }
    }
}

/// No text comes before itself.
pub proof fn lemma_irreflexive(a: Seq<char>)
    ensures
        !comes_before(a, a),
    decreases a.len(),
{
    if a.len() > 0 {
        lemma_irreflexive(a.skip(1));
    }
}

/// The files of a directory that add to the configuration, in the order in
/// which they are loaded.
pub fn config_fragments(files: Vec<String>) -> (fragments: Vec<String>)
    ensures
        in_order(text::strings(fragments@)),
        text::strings(fragments@).to_multiset() == text::strings(files@).filter(
            |name: Seq<char>| is_fragment(name),
        ).to_multiset(),
{
    let ghost all = text::strings(files@);
    let ghost keep = |name: Seq<char>| is_fragment(name);
    let mut fragments: Vec<String> = Vec::new();
    proof {
        reveal(Seq::filter);
        assert(text::strings(fragments@) =~= Seq::<Seq<char>>::empty());
        assert(all.take(0).filter(keep) =~= Seq::<Seq<char>>::empty());
    }
    for name in iter: files
        invariant
            iter.seq() == files@,
            all == text::strings(files@),
            keep == (|name: Seq<char>| is_fragment(name)),
            in_order(text::strings(fragments@)),
            text::strings(fragments@).to_multiset() == all.take(
                iter.index() as int,
            ).filter(keep).to_multiset(),
    {
        proof {
            let i = iter.index() as int;
            seqs::lemma_filter_take(all, i, keep);
            vstd::seq_lib::to_multiset_build(all.take(i).filter(keep), all[i]);
        }
        if names_fragment(name.as_str()) {
            insert_name(&mut fragments, name);
        }
    }
    proof {
        seqs::lemma_take_all(all);
    }
    fragments
}

} // verus!
