//! The configuration document: nested tables of named values, kept in the
//! order of their keys.

use crate::text::{
    lemma_lex_less_irreflexive, lemma_lex_less_total, lemma_lex_less_transitive, lex_less, str_less, strictly_sorted,
};
use vstd::prelude::*;

verus! {

/// `toml::Value`, the `toml` crate's value of any kind. Nothing of what is
/// inside it is known here.
#[verifier::external_type_specification]
#[verifier::external_body]
pub struct ExTomlValue(toml::Value);

/// A value of the document as contracts see it.
pub enum Node {
    /// A string.
    Text(Seq<char>),
    /// A boolean.
    Flag(bool),
    /// A table: values under their names.
    Section(Map<Seq<char>, Node>),
    /// A value of any other kind.
    Other(Foreign),
}

/// What a `toml::Value` holds: a string, a boolean or a table of such
/// values as the node of that kind, a value of any other variant as
/// itself.
pub uninterp spec fn toml_node(value: toml::Value) -> Node;

/// The value under a name, where the node is a table that holds the name.
pub open spec fn node_get(node: Node, key: Seq<char>) -> Option<Node> {
    match node {
        Node::Section(entries) => if entries.contains_key(key) {
            Some(entries[key])
        } else {
            None
        },
        _ => None,
    }
}

/// What the `toml` crate makes of a document's text: the document, or the
/// message of the error it reports.
pub uninterp spec fn toml_parse(text: Seq<char>) -> Result<Node, Seq<char>>;

/// The text that the `toml` crate writes for a value, where it can write it.
pub uninterp spec fn toml_text(node: Node) -> Option<Seq<char>>;

/// A value of a kind that the launcher carries along and never reads: an
/// integer, a float, a date or an array.
pub struct Foreign {
    pub(crate) value: toml::Value,
}

impl Foreign {
    #[verifier::type_invariant]
    spec fn stands_for_itself(self) -> bool {
        toml_node(self.value) == Node::Other(self)
    }
}

/// `Clone` of `toml::Value`, which is derived: the copy is the same value.
pub assume_specification[ <toml::Value as Clone>::clone ](value: &toml::Value) -> (copy: toml::Value)
    ensures
        copy == *value,
;

impl Clone for Foreign {
    /// A copy of the same value.
    fn clone(&self) -> (copy: Foreign)
        ensures
            copy == *self,
    {
        proof {
            use_type_invariant(self);
        }
        Foreign { value: self.value.clone() }
    }
}

/// One named value of a table.
struct ConfigEntry {
    key: String,
    value: ConfigValue,
}

/// A table: named values, the names strictly ascending.
pub struct ConfigTable {
    entries: Vec<ConfigEntry>,
}

/// A value of the document.
pub enum ConfigValue {
    /// A string.
    String(String),
    /// A boolean.
    Boolean(bool),
    /// A table.
    Table(ConfigTable),
    /// A value of any other kind, as the parser made it.
    Other(Foreign),
}

spec fn entry_keys(entries: Seq<ConfigEntry>) -> Seq<Seq<char>> {
    Seq::new(entries.len(), |i: int| entries[i].key@)
}

spec fn has_key(entries: Seq<ConfigEntry>, key: Seq<char>) -> bool {
    exists|i: int| 0 <= i < entries.len() && #[trigger] entries[i].key@ == key
}

spec fn index_of(entries: Seq<ConfigEntry>, key: Seq<char>) -> int {
    choose|i: int| 0 <= i < entries.len() && #[trigger] entries[i].key@ == key
}

spec fn entries_view(entries: Seq<ConfigEntry>) -> Map<Seq<char>, Node>
    decreases entries,
{
    Map::new(
        |k: Seq<char>| has_key(entries, k),
        |k: Seq<char>|
            {
                let i = index_of(entries, k);
                if 0 <= i < entries.len() {
                    entries[i].value.view()
                } else {
                    arbitrary()
                }
            },
    )
}

impl ConfigValue {
    /// The value as contracts see it.
    pub open spec fn view(self) -> Node
        decreases self,
    {
        match self {
            ConfigValue::String(s) => Node::Text(s@),
            ConfigValue::Boolean(b) => Node::Flag(b),
            ConfigValue::Table(t) => Node::Section(t.view()),
            ConfigValue::Other(o) => Node::Other(o),
        }
    }
}

proof fn lemma_sorted_keys_distinct(entries: Seq<ConfigEntry>, i: int, j: int)
    requires
        strictly_sorted(entry_keys(entries)),
        0 <= i < entries.len(),
        0 <= j < entries.len(),
        entries[i].key@ == entries[j].key@,
    ensures
        i == j,
{
    let keys = entry_keys(entries);
    lemma_lex_less_irreflexive(keys[i]);
    if i < j {
        assert(lex_less(keys[i], keys[j]));
    } else if j < i {
        assert(lex_less(keys[j], keys[i]));
    }
}

proof fn lemma_entry_value(entries: Seq<ConfigEntry>, i: int)
    requires
        strictly_sorted(entry_keys(entries)),
        0 <= i < entries.len(),
    ensures
        entries_view(entries).contains_key(entries[i].key@),
        entries_view(entries)[entries[i].key@] == entries[i].value@,
{
    let k = entries[i].key@;
    assert(has_key(entries, k));
    lemma_sorted_keys_distinct(entries, i, index_of(entries, k));
}

proof fn lemma_view_after_insert(before: Seq<ConfigEntry>, i: int, entry: ConfigEntry)
    requires
        0 <= i <= before.len(),
        strictly_sorted(entry_keys(before)),
        strictly_sorted(entry_keys(before.insert(i, entry))),
        !has_key(before, entry.key@),
    ensures
        entries_view(before.insert(i, entry)) =~= entries_view(before).insert(entry.key@, entry.value@),
{
    let after = before.insert(i, entry);
    let expected = entries_view(before).insert(entry.key@, entry.value@);
    assert forall|k: Seq<char>| entries_view(after).contains_key(k) <==> expected.contains_key(k) by {
        if has_key(after, k) {
            let j = index_of(after, k);
            if j < i {
                assert(before[j].key@ == k);
            } else if j > i {
                assert(before[j - 1].key@ == k);
            }
        }
        if has_key(before, k) {
            let j = index_of(before, k);
            if j < i {
                assert(after[j].key@ == k);
            } else {
                assert(after[j + 1].key@ == k);
            }
        }
        if k == entry.key@ {
            assert(after[i].key@ == k);
        }
    }
    assert forall|k: Seq<char>| entries_view(after).contains_key(k) implies entries_view(after)[k] == expected[k] by {
        let j = index_of(after, k);
        lemma_entry_value(after, j);
        if j < i {
            lemma_entry_value(before, j);
        } else if j > i {
            lemma_entry_value(before, j - 1);
        }
    }
}

proof fn lemma_view_after_update(before: Seq<ConfigEntry>, i: int, entry: ConfigEntry)
    requires
        0 <= i < before.len(),
        strictly_sorted(entry_keys(before)),
        before[i].key@ == entry.key@,
    ensures
        strictly_sorted(entry_keys(before.update(i, entry))),
        entries_view(before.update(i, entry)) =~= entries_view(before).insert(entry.key@, entry.value@),
{
    let after = before.update(i, entry);
    let expected = entries_view(before).insert(entry.key@, entry.value@);
    assert(entry_keys(after) =~= entry_keys(before));
    assert forall|k: Seq<char>| entries_view(after).contains_key(k) <==> expected.contains_key(k) by {
        if has_key(after, k) {
            let j = index_of(after, k);
            assert(before[j].key@ == k);
        }
        if has_key(before, k) {
            let j = index_of(before, k);
            assert(after[j].key@ == k);
        }
        if k == entry.key@ {
            assert(after[i].key@ == k);
        }
    }
    assert forall|k: Seq<char>| entries_view(after).contains_key(k) implies entries_view(after)[k] == expected[k] by {
        let j = index_of(after, k);
        lemma_entry_value(after, j);
        if j != i {
            lemma_entry_value(before, j);
            if before[j].key@ == before[i].key@ {
                lemma_sorted_keys_distinct(before, i, j);
            }
        }
    }
}

proof fn lemma_sorted_after_insert(before: Seq<ConfigEntry>, i: int, entry: ConfigEntry)
    requires
        0 <= i <= before.len(),
        strictly_sorted(entry_keys(before)),
        forall|j: int| 0 <= j < i ==> lex_less(#[trigger] before[j].key@, entry.key@),
        i < before.len() ==> lex_less(entry.key@, before[i].key@),
    ensures
        strictly_sorted(entry_keys(before.insert(i, entry))),
{
    let keys = entry_keys(before);
    let after = entry_keys(before.insert(i, entry));
    assert forall|a: int, b: int| 0 <= a < b < after.len() implies lex_less(#[trigger] after[a], #[trigger] after[b]) by {
        if b < i {
            assert(lex_less(keys[a], keys[b]));
        } else if b == i {
            assert(lex_less(before[a].key@, entry.key@));
        } else if a == i {
            assert(lex_less(entry.key@, keys[i]));
            if b - 1 > i {
                assert(lex_less(keys[i], keys[b - 1]));
                lemma_lex_less_transitive(entry.key@, keys[i], keys[b - 1]);
            }
        } else if a < i {
            assert(lex_less(keys[a], keys[b - 1]));
        } else {
            assert(lex_less(keys[a - 1], keys[b - 1]));
        }
    }
}

impl ConfigTable {
    #[verifier::type_invariant]
    spec fn ordered(self) -> bool {
        strictly_sorted(entry_keys(self.entries@))
    }

    /// The names of the table in their order.
    pub closed spec fn keys(self) -> Seq<Seq<char>> {
        entry_keys(self.entries@)
    }

    /// The table as a map from names to values.
    pub closed spec fn view(self) -> Map<Seq<char>, Node>
        decreases self,
    {
        entries_view(self.entries@)
    }

    /// A table without entries.
    pub fn new() -> (table: ConfigTable)
        ensures
            table@ == Map::<Seq<char>, Node>::empty(),
            table.keys() == Seq::<Seq<char>>::empty(),
    {
        let table = ConfigTable { entries: Vec::new() };
        assert(table@ =~= Map::<Seq<char>, Node>::empty());
        assert(table.keys() =~= Seq::<Seq<char>>::empty());
        table
    }

    /// The number of entries. The names of a table are ascending, and they
    /// are the names that the table binds.
    pub fn len(&self) -> (n: usize)
        ensures
            n == self.keys().len(),
            strictly_sorted(self.keys()),
            self@.dom() =~= self.keys().to_set(),
    {
        proof {
            use_type_invariant(self);
            assert forall|k: Seq<char>| self@.dom().contains(k) <==> self.keys().to_set().contains(k) by {
                if self@.dom().contains(k) {
                    let i = index_of(self.entries@, k);
                    assert(self.keys()[i] == k);
                }
                if self.keys().to_set().contains(k) {
                    let i = choose|i: int| 0 <= i < self.keys().len() && self.keys()[i] == k;
                    assert(self.entries@[i].key@ == k);
                }
            }
        }
        self.entries.len()
    }

    /// The name of the entry at a position.
    pub fn key_at(&self, i: usize) -> (key: &String)
        requires
            i < self.keys().len(),
        ensures
            key@ == self.keys()[i as int],
    {
        &self.entries[i].key
    }

    /// The value of the entry at a position.
    pub fn value_at(&self, i: usize) -> (value: &ConfigValue)
        requires
            i < self.keys().len(),
        ensures
            self@.contains_key(self.keys()[i as int]),
            value@ == self@[self.keys()[i as int]],
            decreases_to!(*self => *value),
    {
        proof {
            use_type_invariant(self);
            lemma_entry_value(self.entries@, i as int);
        }
        &self.entries[i].value
    }

    /// The first position whose name does not come before `key`, and
    /// whether the name there is `key`.
    fn position(&self, key: &str) -> (r: (usize, bool))
        ensures
            r.0 <= self.entries@.len(),
            forall|j: int| 0 <= j < r.0 ==> lex_less(#[trigger] self.entries@[j].key@, key@),
            r.1 ==> r.0 < self.entries@.len() && self.entries@[r.0 as int].key@ == key@,
            !r.1 ==> !has_key(self.entries@, key@),
            !r.1 && r.0 < self.entries@.len() ==> lex_less(key@, self.entries@[r.0 as int].key@),
    {
        proof {
            use_type_invariant(self);
        }
        let mut i: usize = 0;
        while i < self.entries.len() && str_less(self.entries[i].key.as_str(), key)
            invariant
                i <= self.entries@.len(),
                forall|j: int| 0 <= j < i ==> lex_less(#[trigger] self.entries@[j].key@, key@),
            decreases self.entries@.len() - i,
        {
            i = i + 1;
        }
        let found = i < self.entries.len() && !str_less(key, self.entries[i].key.as_str());
        proof {
            let keys = entry_keys(self.entries@);
            if found {
                if self.entries@[i as int].key@ != key@ {
                    lemma_lex_less_total(self.entries@[i as int].key@, key@);
                }
            } else {
                assert forall|j: int| 0 <= j < self.entries@.len() implies self.entries@[j].key@ != key@ by {
                    lemma_lex_less_irreflexive(key@);
                    if j >= i {
                        assert(lex_less(key@, keys[i as int]));
                        if j > i {
                            assert(lex_less(keys[i as int], keys[j]));
                            lemma_lex_less_transitive(key@, keys[i as int], keys[j]);
                        }
                    }
                }
            }
        }
        (i, found)
    }

    /// The value under a name, if the table holds the name.
    pub fn get(&self, key: &str) -> (r: Option<&ConfigValue>)
        ensures
            match r {
                Some(value) => self@.contains_key(key@) && value@ == self@[key@] && decreases_to!(*self => *value),
                None => !self@.contains_key(key@),
            },
    {
        let (i, found) = self.position(key);
        if found {
            proof {
                use_type_invariant(self);
                lemma_entry_value(self.entries@, i as int);
            }
            Some(&self.entries[i].value)
        } else {
            None
        }
    }

    /// Binds `key` to `value`, in place of what it was bound to before.
    pub fn insert(&mut self, key: String, value: ConfigValue)
        ensures
            final(self)@ == old(self)@.insert(key@, value@),
    {
        let (i, found) = self.position(key.as_str());
        let entry = ConfigEntry { key, value };
        proof {
            use_type_invariant(&*self);
            if found {
                lemma_view_after_update(self.entries@, i as int, entry);
            } else {
                lemma_sorted_after_insert(self.entries@, i as int, entry);
                lemma_view_after_insert(self.entries@, i as int, entry);
            }
        }
        let mut entries: Vec<ConfigEntry> = Vec::new();
        assert(entry_keys(entries@) =~= Seq::<Seq<char>>::empty());
        std::mem::swap(&mut self.entries, &mut entries);
        if found {
            entries.set(i, entry);
        } else {
            entries.insert(i, entry);
        }
        self.entries = entries;
    }
}

proof fn lemma_views_agree(a: Seq<ConfigEntry>, b: Seq<ConfigEntry>)
    requires
        a.len() == b.len(),
        strictly_sorted(entry_keys(a)),
        forall|i: int| 0 <= i < a.len() ==> (#[trigger] a[i]).key@ == b[i].key@ && a[i].value@ == b[i].value@,
    ensures
        entry_keys(a) =~= entry_keys(b),
        entries_view(a) =~= entries_view(b),
{
    assert(entry_keys(a) =~= entry_keys(b)) by {
        assert forall|i: int| 0 <= i < a.len() implies entry_keys(a)[i] == entry_keys(b)[i] by {
            assert(a[i].key@ == b[i].key@);
        }
    }
    assert forall|k: Seq<char>| entries_view(a).contains_key(k) <==> entries_view(b).contains_key(k) by {
        if has_key(a, k) {
            let i = index_of(a, k);
            assert(a[i].key@ == b[i].key@);
            assert(b[i].key@ == k);
        }
        if has_key(b, k) {
            let i = index_of(b, k);
            assert(a[i].key@ == b[i].key@);
        }
    }
    assert forall|k: Seq<char>| entries_view(a).contains_key(k) implies entries_view(a)[k] == entries_view(b)[k] by {
        let i = index_of(a, k);
        assert(a[i].key@ == b[i].key@);
        lemma_entry_value(a, i);
        lemma_entry_value(b, i);
    }
}

impl Clone for ConfigTable {
    /// A copy with the same names and values.
    fn clone(&self) -> (copy: ConfigTable)
        ensures
            copy@ == self@,
            copy.keys() == self.keys(),
        decreases *self,
    {
        proof {
            use_type_invariant(self);
        }
        let mut entries: Vec<ConfigEntry> = Vec::new();
        let mut i: usize = 0;
        while i < self.entries.len()
            invariant
                i <= self.entries@.len(),
                entries@.len() == i,
                forall|j: int| 0 <= j < i ==> (#[trigger] self.entries@[j]).key@ == entries@[j].key@
                    && self.entries@[j].value@ == entries@[j].value@,
            decreases self.entries@.len() - i,
        {
            let key = self.entries[i].key.clone();
            let value = self.entries[i].value.clone();
            entries.push(ConfigEntry { key, value });
            i = i + 1;
        }
        proof {
            lemma_views_agree(self.entries@, entries@);
        }
        ConfigTable { entries }
    }
}

impl Clone for ConfigValue {
    /// A copy of the same value.
    fn clone(&self) -> (copy: ConfigValue)
        ensures
            copy@ == self@,
        decreases *self,
    {
        match self {
            ConfigValue::String(text) => ConfigValue::String(text.clone()),
            ConfigValue::Boolean(flag) => ConfigValue::Boolean(*flag),
            ConfigValue::Table(table) => ConfigValue::Table(table.clone()),
            ConfigValue::Other(other) => ConfigValue::Other(other.clone()),
        }
    }
}

/// The merge of a base value with one that overrides it. Two tables merge
/// name by name: a name of one table alone keeps its value, a name of both
/// gets the merge of the two values. A table stays where what would
/// override it is no table; in every other case the overriding value wins.
pub open spec fn merge_nodes(base: Node, over: Node) -> Node
    decreases base,
{
    match (base, over) {
        (Node::Section(b), Node::Section(o)) => Node::Section(
            Map::new(
                |k: Seq<char>| b.contains_key(k) || o.contains_key(k),
                |k: Seq<char>|
                    if !o.contains_key(k) {
                        b[k]
                    } else if !b.contains_key(k) {
                        o[k]
                    } else {
                        merge_nodes(b[k], o[k])
                    },
            ),
        ),
        (Node::Section(_), _) => base,
        _ => over,
    }
}

/// The merge of two tables after the first `n` names of the overriding one
/// have been taken in.
spec fn merged_upto(base: Map<Seq<char>, Node>, over: Map<Seq<char>, Node>, keys: Seq<Seq<char>>, n: int) -> Map<
    Seq<char>,
    Node,
> {
    Map::new(
        |k: Seq<char>| base.contains_key(k) || keys.take(n).contains(k),
        |k: Seq<char>|
            if !keys.take(n).contains(k) {
                base[k]
            } else if !base.contains_key(k) {
                over[k]
            } else {
                merge_nodes(base[k], over[k])
            },
    )
}

/// Laying an empty table over a table leaves the table as it is.
pub proof fn lemma_merge_empty(base: Map<Seq<char>, Node>)
    ensures
        merge_nodes(Node::Section(base), Node::Section(Map::empty())) == Node::Section(base),
{
    let merged = merge_nodes(Node::Section(base), Node::Section(Map::empty()))->Section_0;
    assert(merged =~= base);
}

/// The merge of two tables holds the names of both, and no others.
pub proof fn lemma_merge_names(base: Map<Seq<char>, Node>, over: Map<Seq<char>, Node>)
    ensures
        merge_nodes(Node::Section(base), Node::Section(over)) is Section,
        merge_nodes(Node::Section(base), Node::Section(over))->Section_0.dom() == base.dom().union(over.dom()),
{
    let merged = merge_nodes(Node::Section(base), Node::Section(over))->Section_0;
    assert(merged.dom() =~= base.dom().union(over.dom()));
}

/// A name of the base table alone keeps its value in the merge.
pub proof fn lemma_merge_keeps_base(base: Map<Seq<char>, Node>, over: Map<Seq<char>, Node>, key: Seq<char>)
    requires
        base.contains_key(key),
        !over.contains_key(key),
    ensures
        node_get(merge_nodes(Node::Section(base), Node::Section(over)), key) == Some(base[key]),
{
}

/// A name of the overriding table alone comes into the merge with its value.
pub proof fn lemma_merge_adds_override(base: Map<Seq<char>, Node>, over: Map<Seq<char>, Node>, key: Seq<char>)
    requires
        !base.contains_key(key),
        over.contains_key(key),
    ensures
        node_get(merge_nodes(Node::Section(base), Node::Section(over)), key) == Some(over[key]),
{
}

/// Where both tables hold a name, the merge holds the merge of the two
/// values under it.
pub proof fn lemma_merge_shared(base: Map<Seq<char>, Node>, over: Map<Seq<char>, Node>, key: Seq<char>)
    requires
        base.contains_key(key),
        over.contains_key(key),
    ensures
        node_get(merge_nodes(Node::Section(base), Node::Section(over)), key) == Some(
            merge_nodes(base[key], over[key]),
        ),
{
}

/// The overriding value wins over every base value that is no table.
pub proof fn lemma_merge_override_wins(base: Node, over: Node)
    requires
        !(base is Section),
    ensures
        merge_nodes(base, over) == over,
{
}

/// A base table stays where the overriding value is no table.
pub proof fn lemma_merge_table_stays(base: Node, over: Node)
    requires
        base is Section,
        !(over is Section),
    ensures
        merge_nodes(base, over) == base,
{
}

/// Merges `v2` over `v1`: the values of `v2` override those of `v1`, and
/// tables are merged name by name.
pub fn merge_values(v1: &ConfigValue, v2: &ConfigValue) -> (merged: ConfigValue)
    ensures
        merged@ == merge_nodes(v1@, v2@),
    decreases *v1,
{
    match v1 {
        ConfigValue::Table(source_table) => {
            match v2 {
                ConfigValue::Table(other_table) => {
                    let mut result = source_table.clone();
                    let n = other_table.len();
                    let ghost keys = other_table.keys();
                    let mut i: usize = 0;
                    assert(result@ =~= merged_upto(source_table@, other_table@, keys, 0));
                    while i < n
                        invariant
                            i <= n,
                            n == keys.len(),
                            keys == other_table.keys(),
                            other_table@.dom() =~= keys.to_set(),
                            result@ == merged_upto(source_table@, other_table@, keys, i as int),
                            decreases_to!(*v1 => *source_table),
                        decreases n - i,
                    {
                        let key = other_table.key_at(i);
                        let value = other_table.value_at(i);
                        let new_value = match source_table.get(key.as_str()) {
                            None => value.clone(),
                            Some(old) => merge_values(old, value),
                        };
                        result.insert(key.clone(), new_value);
                        proof {
                            let k0 = keys[i as int];
                            let shorter = keys.take(i as int);
                            let longer = keys.take(i + 1);
                            assert(longer =~= shorter.push(k0));
                            assert(longer[i as int] == k0);
                            assert forall|k: Seq<char>| k != k0 implies (longer.contains(k) <==> shorter.contains(k)) by {
                                if shorter.contains(k) {
                                    let j = choose|j: int| 0 <= j < shorter.len() && shorter[j] == k;
                                    assert(longer[j] == k);
                                }
                                if longer.contains(k) {
                                    let j = choose|j: int| 0 <= j < longer.len() && longer[j] == k;
                                    assert(shorter[j] == k);
                                }
                            }
                            assert(result@ =~= merged_upto(source_table@, other_table@, keys, i + 1));
                        }
                        i = i + 1;
                    }
                    proof {
                        assert(keys.take(n as int) =~= keys);
                        assert forall|k: Seq<char>| keys.contains(k) <==> other_table@.contains_key(k) by {
                            assert(keys.to_set().contains(k) <==> keys.contains(k));
                        }
                        assert(result@ =~= merge_nodes(v1@, v2@)->Section_0);
                    }
                    ConfigValue::Table(result)
                },
                _ => v1.clone(),
            }
        },
        _ => v2.clone(),
    }
}

/// `str::parse::<toml::Value>()`, the crate's parser of a whole document.
/// The error is handed on as the text that its `Display` gives.
#[verifier::external_body]
fn parse_toml(text: &str) -> (r: Result<toml::Value, String>)
    ensures
        match r {
            Ok(value) => toml_parse(text@) == Ok::<Node, Seq<char>>(toml_node(value)),
            Err(message) => toml_parse(text@) == Err::<Node, Seq<char>>(message@),
        },
{
    match text.parse::<toml::Value>() {
        Ok(value) => Ok(value),
        Err(error) => Err(error.to_string()),
    }
}

/// `Value::as_str`: the text of a `toml::Value` that is a string.
#[verifier::external_body]
fn toml_as_text(value: &toml::Value) -> (r: Option<String>)
    ensures
        match r {
            Some(text) => toml_node(*value) == Node::Text(text@),
            None => !(toml_node(*value) is Text),
        },
{
    value.as_str().map(|text| text.to_owned())
}

/// `Value::as_bool`: the flag of a `toml::Value` that is a boolean.
#[verifier::external_body]
fn toml_as_flag(value: &toml::Value) -> (r: Option<bool>)
    ensures
        match r {
            Some(flag) => toml_node(*value) == Node::Flag(flag),
            None => !(toml_node(*value) is Flag),
        },
{
    value.as_bool()
}

/// `Value::as_table` and `Map::iter`: the entries of a `toml::Value` that
/// is a table, each name with a copy of its value. Every name of the table
/// is among them, and each value is what the table holds under the name: a
/// part of the table, and so smaller than the table.
#[verifier::external_body]
fn toml_entries(value: &toml::Value) -> (r: Option<Vec<(String, toml::Value)>>)
    ensures
        match r {
            Some(list) => {
                &&& toml_node(*value) is Section
                &&& forall|i: int|
                    0 <= i < list@.len() ==> toml_node(*value)->Section_0.contains_key((#[trigger] list@[i]).0@)
                        && toml_node(*value)->Section_0[list@[i].0@] == toml_node(list@[i].1)
                        && decreases_to!(toml_node(*value) => toml_node(list@[i].1))
                &&& forall|k: Seq<char>|
                    toml_node(*value)->Section_0.contains_key(k) ==> exists|i: int|
                        0 <= i < list@.len() && (#[trigger] list@[i]).0@ == k
            },
            None => !(toml_node(*value) is Section),
        },
{
    value.as_table().map(|table| table.iter().map(|(key, item)| (key.clone(), item.clone())).collect())
}

/// Tells the variants of a `toml::Value` apart: an integer, a float, a
/// date or an array is kept as it is; a string, a boolean or a table is
/// not of this kind.
#[verifier::external_body]
fn toml_as_other(value: &toml::Value) -> (r: Option<Foreign>)
    ensures
        match r {
            Some(other) => toml_node(*value) == Node::Other(other),
            None => !(toml_node(*value) is Other),
        },
{
    match value {
        toml::Value::String(_) => None,
        toml::Value::Boolean(_) => None,
        toml::Value::Table(_) => None,
        other => Some(Foreign { value: other.clone() }),
    }
}

/// The value of the document that a `toml::Value` stands for.
fn from_toml(value: &toml::Value) -> (r: ConfigValue)
    ensures
        r@ == toml_node(*value),
    decreases toml_node(*value),
{
    if let Some(text) = toml_as_text(value) {
        return ConfigValue::String(text);
    }
    if let Some(flag) = toml_as_flag(value) {
        return ConfigValue::Boolean(flag);
    }
    if let Some(list) = toml_entries(value) {
        let ghost section = toml_node(*value)->Section_0;
        let mut table = ConfigTable::new();
        let mut i: usize = 0;
        while i < list.len()
            invariant
                i <= list@.len(),
                toml_node(*value) == Node::Section(section),
                forall|j: int|
                    0 <= j < list@.len() ==> section.contains_key((#[trigger] list@[j]).0@) && section[list@[j].0@]
                        == toml_node(list@[j].1) && decreases_to!(toml_node(*value) => toml_node(list@[j].1)),
                forall|k: Seq<char>|
                    #[trigger] table@.contains_key(k) ==> section.contains_key(k) && table@[k] == section[k],
                forall|j: int| 0 <= j < i ==> table@.contains_key((#[trigger] list@[j]).0@),
            decreases list@.len() - i,
        {
            let ghost name = list@[i as int].0@;
            assert(section.contains_key(name) && section[name] == toml_node(list@[i as int].1));
            let item = from_toml(&list[i].1);
            let ghost before = table@;
            table.insert(list[i].0.clone(), item);
            proof {
                assert(table@ == before.insert(name, section[name]));
                assert forall|k: Seq<char>| #[trigger] table@.contains_key(k) implies section.contains_key(k)
                    && table@[k] == section[k] by {
                    if k != name {
                        assert(before.contains_key(k));
                    }
                }
                assert forall|j: int| 0 <= j < i + 1 implies table@.contains_key((#[trigger] list@[j]).0@) by {
                    if j < i {
                        assert(before.contains_key(list@[j].0@));
                    }
                }
            }
            i = i + 1;
        }
        proof {
            assert forall|k: Seq<char>| section.contains_key(k) implies table@.contains_key(k) by {
                let j = choose|j: int| 0 <= j < list@.len() && (#[trigger] list@[j]).0@ == k;
                assert(table@.contains_key(list@[j].0@));
            }
            assert forall|k: Seq<char>| table@.contains_key(k) implies section.contains_key(k) && table@[k]
                == section[k] by {}
            assert(table@ =~= section);
        }
        return ConfigValue::Table(table);
    }
    match toml_as_other(value) {
        Some(other) => ConfigValue::Other(other),
        None => {
            assert(false);
            ConfigValue::Boolean(false)
        },
    }
}

/// `Value::String`: the `toml::Value` of a text.
#[verifier::external_body]
fn toml_of_text(text: String) -> (r: toml::Value)
    ensures
        toml_node(r) == Node::Text(text@),
{
    toml::Value::String(text)
}

/// `Value::Boolean`: the `toml::Value` of a flag.
#[verifier::external_body]
fn toml_of_flag(flag: bool) -> (r: toml::Value)
    ensures
        toml_node(r) == Node::Flag(flag),
{
    toml::Value::Boolean(flag)
}

/// `Map::new` in `Value::Table`: the `toml::Value` of a table without
/// entries.
#[verifier::external_body]
fn toml_empty_table() -> (r: toml::Value)
    ensures
        toml_node(r) == Node::Section(Map::empty()),
{
    toml::Value::Table(toml::value::Table::new())
}

/// `Map::insert` on the table inside a `toml::Value`: the table with the
/// name bound to the item, in place of what it was bound to.
#[verifier::external_body]
fn toml_with_entry(table: toml::Value, key: String, item: toml::Value) -> (r: toml::Value)
    requires
        toml_node(table) is Section,
    ensures
        toml_node(r) == Node::Section(toml_node(table)->Section_0.insert(key@, toml_node(item))),
{
    match table {
        toml::Value::Table(mut entries) => {
            entries.insert(key, item);
            toml::Value::Table(entries)
        },
        other => other,
    }
}

/// The part of a table that its first `n` names hold.
spec fn first_entries(table: Map<Seq<char>, Node>, keys: Seq<Seq<char>>, n: int) -> Map<Seq<char>, Node> {
    Map::new(|k: Seq<char>| keys.take(n).contains(k), |k: Seq<char>| table[k])
}

/// The `toml::Value` that a value of the document stands for.
fn to_toml(value: &ConfigValue) -> (r: toml::Value)
    ensures
        toml_node(r) == value@,
    decreases *value,
{
    match value {
        ConfigValue::String(text) => toml_of_text(text.clone()),
        ConfigValue::Boolean(flag) => toml_of_flag(*flag),
        ConfigValue::Table(table) => {
            let n = table.len();
            let ghost keys = table.keys();
            let mut entries = toml_empty_table();
            let mut i: usize = 0;
            assert(first_entries(table@, keys, 0) =~= Map::<Seq<char>, Node>::empty());
            while i < n
                invariant
                    i <= n,
                    n == keys.len(),
                    keys == table.keys(),
                    table@.dom() =~= keys.to_set(),
                    toml_node(entries) == Node::Section(first_entries(table@, keys, i as int)),
                    decreases_to!(*value => *table),
                decreases n - i,
            {
                let key = table.key_at(i);
                let item = to_toml(table.value_at(i));
                entries = toml_with_entry(entries, key.clone(), item);
                proof {
                    let k0 = keys[i as int];
                    let shorter = keys.take(i as int);
                    let longer = keys.take(i + 1);
                    assert(longer =~= shorter.push(k0));
                    assert(longer[i as int] == k0);
                    assert forall|k: Seq<char>| k != k0 implies (longer.contains(k) <==> shorter.contains(k)) by {
                        if shorter.contains(k) {
                            let j = choose|j: int| 0 <= j < shorter.len() && shorter[j] == k;
                            assert(longer[j] == k);
                        }
                        if longer.contains(k) {
                            let j = choose|j: int| 0 <= j < longer.len() && longer[j] == k;
                            assert(shorter[j] == k);
                        }
                    }
                    assert(first_entries(table@, keys, i as int).insert(k0, table@[k0]) =~= first_entries(
                        table@,
                        keys,
                        i + 1,
                    ));
                }
                i = i + 1;
            }
            proof {
                assert(keys.take(n as int) =~= keys);
                assert forall|k: Seq<char>| keys.contains(k) <==> table@.contains_key(k) by {
                    assert(keys.to_set().contains(k) <==> keys.contains(k));
                }
                assert(first_entries(table@, keys, n as int) =~= table@);
            }
            entries
        },
        ConfigValue::Other(other) => {
            proof {
                use_type_invariant(other);
            }
            other.value.clone()
        },
    }
}

/// `toml::to_string`, which is what `Display` of a `toml::Value` writes;
/// `None` where the crate reports that it cannot write the value. A string
/// it always writes.
#[verifier::external_body]
fn write_toml(value: &toml::Value) -> (r: Option<String>)
    ensures
        match r {
            Some(text) => toml_text(toml_node(*value)) == Some(text@),
            None => toml_text(toml_node(*value)) is None,
        },
        toml_node(*value) is Text ==> r is Some,
{
    toml::to_string(value).ok()
}

impl ConfigValue {
    /// The value under a name, where this value is a table that holds the
    /// name.
    pub fn get(&self, key: &str) -> (r: Option<&ConfigValue>)
        ensures
            match r {
                Some(value) => node_get(self@, key@) == Some(value@) && decreases_to!(*self => *value),
                None => node_get(self@, key@) is None,
            },
    {
        match self {
            ConfigValue::Table(table) => table.get(key),
            _ => None,
        }
    }

    /// The text, where this value is a string.
    pub fn as_str(&self) -> (r: Option<&str>)
        ensures
            match r {
                Some(text) => self@ == Node::Text(text@),
                None => !(self@ is Text),
            },
    {
        match self {
            ConfigValue::String(text) => Some(text.as_str()),
            _ => None,
        }
    }

    /// The flag, where this value is a boolean.
    pub fn as_bool(&self) -> (r: Option<bool>)
        ensures
            match r {
                Some(flag) => self@ == Node::Flag(flag),
                None => !(self@ is Flag),
            },
    {
        match self {
            ConfigValue::Boolean(flag) => Some(*flag),
            _ => None,
        }
    }

    /// The table, where this value is one.
    pub fn as_table(&self) -> (r: Option<&ConfigTable>)
        ensures
            match r {
                Some(table) => self@ == Node::Section(table@),
                None => !(self@ is Section),
            },
    {
        match self {
            ConfigValue::Table(table) => Some(table),
            _ => None,
        }
    }

    /// Whether this value is a table.
    pub fn is_table(&self) -> (r: bool)
        ensures
            r == (self@ is Section),
    {
        self.as_table().is_some()
    }

    /// Parses a TOML document.
    pub fn parse(text: &str) -> (r: Result<ConfigValue, String>)
        ensures
            match r {
                Ok(value) => toml_parse(text@) == Ok::<Node, Seq<char>>(value@),
                Err(message) => toml_parse(text@) == Err::<Node, Seq<char>>(message@),
            },
    {
        match parse_toml(text) {
            Ok(value) => Ok(from_toml(&value)),
            Err(message) => Err(message),
        }
    }

    /// The value written as TOML, or `None` where TOML has no form for it.
    /// A string always has one.
    pub fn to_text(&self) -> (r: Option<String>)
        ensures
            match r {
                Some(text) => toml_text(self@) == Some(text@),
                None => toml_text(self@) is None,
            },
            self@ is Text ==> r is Some,
    {
        let value = to_toml(self);
        write_toml(&value)
    }
}

} // verus!
