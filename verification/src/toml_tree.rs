//! TOML documents as trees: the type in which the library reads and builds a
//! document, and the calls that turn text into a tree and a tree into text.

use vstd::prelude::*;

verus! {

/// A TOML value.
#[derive(Debug, PartialEq)]
pub enum TomlValue {
    /// A string.
    Text(String),
    /// A boolean.
    Flag(bool),
    /// An array, in its order.
    List(Vec<TomlValue>),
    /// A table: its entries, in their order.
    Table(Vec<TomlEntry>),
    /// A number or a date.
    Other,
}

/// One entry of a table.
#[derive(Debug, PartialEq)]
pub struct TomlEntry {
    pub key: String,
    pub value: TomlValue,
}

/// What a `TomlValue` stands for.
pub enum Tree {
    /// A string.
    Text(Seq<char>),
    /// A boolean.
    Flag(bool),
    /// An array.
    List(Seq<Tree>),
    /// A table: keys with their values, in the table's order.
    Table(Seq<(Seq<char>, Tree)>),
    /// A number or a date.
    Other,
}

/// The tree of `value`.
pub open spec fn tree_of(value: TomlValue) -> Tree
    decreases value,
{
    match value {
        TomlValue::Text(text) => Tree::Text(text@),
        TomlValue::Flag(flag) => Tree::Flag(flag),
        TomlValue::List(items) => Tree::List(
            Seq::new(
                items@.len(),
                |i: int|
                    if 0 <= i < items@.len() {
                        tree_of(items@[i])
                    } else {
                        Tree::Other
                    },
            ),
        ),
        TomlValue::Table(entries) => Tree::Table(
            Seq::new(
                entries@.len(),
                |i: int|
                    if 0 <= i < entries@.len() {
                        (entries@[i].key@, tree_of(entries@[i].value))
                    } else {
                        (Seq::empty(), Tree::Other)
                    },
            ),
        ),
        TomlValue::Other => Tree::Other,
    }
}

impl View for TomlValue {
    type V = Tree;

    open spec fn view(&self) -> Tree {
        tree_of(*self)
    }
}

/// The keys of `entries` differ from one another.
pub open spec fn distinct_keys(entries: Seq<(Seq<char>, Tree)>) -> bool {
    forall|i: int, j: int| 0 <= i < j < entries.len() ==> entries[i].0 != entries[j].0
}

/// `tree` is made of strings, booleans, arrays and tables alone, and no table
/// in it has two entries under one key: it can be written as TOML as it is.
pub open spec fn writable(tree: Tree) -> bool
    decreases tree,
{
    match tree {
        Tree::Text(_) => true,
        Tree::Flag(_) => true,
        Tree::List(items) => forall|i: int| 0 <= i < items.len() ==> writable(#[trigger] items[i]),
        Tree::Table(entries) => {
            &&& distinct_keys(entries)
            &&& forall|i: int| 0 <= i < entries.len() ==> writable((#[trigger] entries[i]).1)
        },
        Tree::Other => false,
    }
}

/// The value of the first of `entries` whose key is `key`.
pub open spec fn lookup(entries: Seq<(Seq<char>, Tree)>, key: Seq<char>) -> Option<Tree>
    decreases entries.len(),
{
    if entries.len() == 0 {
        None
    } else if entries[0].0 == key {
        Some(entries[0].1)
    } else {
        lookup(entries.drop_first(), key)
    }
}

impl Tree {
    /// What a table holds under `key`; nothing where `self` is no table.
    pub open spec fn at(self, key: Seq<char>) -> Option<Tree> {
        match self {
            Tree::Table(entries) => lookup(entries, key),
            _ => None,
        }
    }

    /// The string that a table holds under `key`.
    pub open spec fn text_at(self, key: Seq<char>) -> Option<Seq<char>> {
        match self.at(key) {
            Some(Tree::Text(text)) => Some(text),
            _ => None,
        }
    }

    /// The boolean that a table holds under `key`.
    pub open spec fn flag_at(self, key: Seq<char>) -> Option<bool> {
        match self.at(key) {
            Some(Tree::Flag(flag)) => Some(flag),
            _ => None,
        }
    }

    /// The array that a table holds under `key`.
    pub open spec fn list_at(self, key: Seq<char>) -> Option<Seq<Tree>> {
        match self.at(key) {
            Some(Tree::List(items)) => Some(items),
            _ => None,
        }
    }
}

impl TomlValue {
    /// What a table holds under `key`: the value of its first entry with that
    /// key. Nothing where `self` is no table or has no such entry.
    pub fn get(&self, key: &str) -> (found: Option<&TomlValue>)
        ensures
            match found {
                Some(value) => self@.at(key@) == Some(value@),
                None => self@.at(key@) is None,
            },
    {
        match self {
            TomlValue::Table(entries) => {
                let wanted = key.to_owned();
                let ghost all = self@->Table_0;
                assert(all.skip(0) =~= all);
                let mut i: usize = 0;
                while i < entries.len()
                    invariant
                        i <= entries.len(),
                        wanted@ == key@,
                        self@ == Tree::Table(all),
                        all.len() == entries.len(),
                        forall|j: int|
                            0 <= j < all.len() ==> all[j] == (
                                entries[j].key@,
                                entries[j].value@,
                            ),
                        lookup(all, key@) == lookup(all.skip(i as int), key@),
                    decreases entries.len() - i,
                {
                    proof {
                        let rest = all.skip(i as int);
                        assert(rest.drop_first() =~= all.skip(i + 1));
                    }
                    if entries[i].key == wanted {
                        return Some(&entries[i].value);
                    }
                    i += 1;
                }
                None
            },
            _ => None,
        }
    }
}

impl TomlValue {
    /// Whether `self` and `other` hold the same: the same kind of value and,
    /// in it, the same string or boolean, the same elements in the same
    /// order, the same entries under the same keys in the same order.
    pub fn same_as(&self, other: &TomlValue) -> (same: bool)
        ensures
            same == (self@ == other@),
        decreases self,
    {
        match (self, other) {
            (TomlValue::Text(a), TomlValue::Text(b)) => *a == *b,
            (TomlValue::Flag(a), TomlValue::Flag(b)) => *a == *b,
            (TomlValue::List(a), TomlValue::List(b)) => {
                if a.len() != b.len() {
                    assert(self@->List_0.len() != other@->List_0.len());
                    return false;
                }
                let mut i: usize = 0;
                while i < a.len()
                    invariant
                        i <= a.len(),
                        a.len() == b.len(),
                        self@ is List,
                        other@ is List,
                        self@->List_0.len() == a.len(),
                        other@->List_0.len() == b.len(),
                        forall|j: int| 0 <= j < a.len() ==> self@->List_0[j] == a[j]@,
                        forall|j: int| 0 <= j < b.len() ==> other@->List_0[j] == b[j]@,
                        forall|j: int| 0 <= j < a.len() ==> decreases_to!(self => a[j]),
                        forall|j: int| 0 <= j < i ==> a[j]@ == b[j]@,
                    decreases a.len() - i,
                {
                    if !a[i].same_as(&b[i]) {
                        assert(self@->List_0[i as int] != other@->List_0[i as int]);
                        return false;
                    }
                    i += 1;
                }
                assert(self@->List_0 =~= other@->List_0);
                true
            },
            (TomlValue::Table(a), TomlValue::Table(b)) => {
                if a.len() != b.len() {
                    assert(self@->Table_0.len() != other@->Table_0.len());
                    return false;
                }
                let mut i: usize = 0;
                while i < a.len()
                    invariant
                        i <= a.len(),
                        a.len() == b.len(),
                        self@->Table_0.len() == a.len(),
                        other@->Table_0.len() == b.len(),
                        self@ is Table,
                        other@ is Table,
                        forall|j: int|
                            0 <= j < a.len() ==> self@->Table_0[j] == (a[j].key@, a[j].value@),
                        forall|j: int|
                            0 <= j < b.len() ==> other@->Table_0[j] == (b[j].key@, b[j].value@),
                        forall|j: int| 0 <= j < a.len() ==> decreases_to!(self => a[j].value),
                        forall|j: int|
                            0 <= j < i ==> a[j].key@ == b[j].key@ && a[j].value@ == b[j].value@,
                    decreases a.len() - i,
                {
                    if a[i].key != b[i].key || !a[i].value.same_as(&b[i].value) {
                        assert(self@->Table_0[i as int] != other@->Table_0[i as int]);
                        return false;
                    }
                    i += 1;
                }
                assert(self@->Table_0 =~= other@->Table_0);
                true
            },
            (TomlValue::Other, TomlValue::Other) => true,
            _ => false,
        }
    }
}

#[verifier::external_type_specification]
#[verifier::external_body]
pub struct ExValue(toml::Value);

#[verifier::external_type_specification]
#[verifier::external_body]
pub struct ExParseError(toml::de::Error);

#[verifier::external_type_specification]
#[verifier::external_body]
pub struct ExWriteError(toml::ser::Error);

/// The tree that a `toml::Value` holds: strings, booleans, arrays and tables
/// as they are, with the entries of a table in the table's order; `Other` for
/// an integer, a float or a date.
pub uninterp spec fn value_tree(value: toml::Value) -> Tree;

/// The tree of the TOML document `text`, if `text` is one: what the parser
/// of `toml` reads from it.
pub uninterp spec fn toml_document(text: Seq<char>) -> Option<Tree>;

/// The TOML text that the serializer of `toml` writes for a writable `tree`,
/// if it writes one.
pub uninterp spec fn toml_text(tree: Tree) -> Option<Seq<char>>;

/// What a `toml::Value` holds at its top.
pub(crate) enum ValueParts<'a> {
    Text(&'a String),
    Flag(bool),
    List(&'a Vec<toml::Value>),
    Table(Vec<(&'a String, &'a toml::Value)>),
    Other,
}

/// The trees of `values`, in order.
pub open spec fn value_trees(values: Seq<toml::Value>) -> Seq<Tree> {
    values.map_values(|value: toml::Value| value_tree(value))
}

/// The entries of a table whose values are built already.
pub open spec fn entry_trees(entries: Seq<(String, toml::Value)>) -> Seq<(Seq<char>, Tree)> {
    entries.map_values(|entry: (String, toml::Value)| (entry.0@, value_tree(entry.1)))
}

impl ValueParts<'_> {
    /// The tree of the value that has these parts.
    pub(crate) open spec fn tree(self) -> Tree {
        match self {
            ValueParts::Text(text) => Tree::Text(text@),
            ValueParts::Flag(flag) => Tree::Flag(flag),
            ValueParts::List(items) => Tree::List(value_trees(items@)),
            ValueParts::Table(entries) => Tree::Table(
                entries@.map_values(
                    |entry: (&String, &toml::Value)| (entry.0@, value_tree(*entry.1)),
                ),
            ),
            ValueParts::Other => Tree::Other,
        }
    }
}

/// `<toml::Value as FromStr>::from_str`: parses `text` as a TOML document.
/// The outcome depends on `text` alone.
#[verifier::external_body]
pub(crate) fn parse_document(text: &str) -> (parsed: Result<toml::Value, toml::de::Error>)
    ensures
        match parsed {
            Ok(value) => toml_document(text@) == Some(value_tree(value)),
            Err(_) => toml_document(text@) is None,
        },
{
    text.parse::<toml::Value>()
}

/// Tells the variants of `toml::Value` apart and hands out what the variant
/// holds: the string, the boolean, the elements of an array, or the entries
/// of a table as `toml::Table::iter` walks them, which is the table's order.
#[verifier::external_body]
pub(crate) fn parts_of<'a>(value: &'a toml::Value) -> (parts: ValueParts<'a>)
    ensures
        parts.tree() == value_tree(*value),
{
    match value {
        toml::Value::String(text) => ValueParts::Text(text),
        toml::Value::Boolean(flag) => ValueParts::Flag(*flag),
        toml::Value::Array(items) => ValueParts::List(items),
        toml::Value::Table(entries) => ValueParts::Table(entries.iter().collect()),
        toml::Value::Integer(_) => ValueParts::Other,
        toml::Value::Float(_) => ValueParts::Other,
        toml::Value::Datetime(_) => ValueParts::Other,
    }
}

/// `toml::Value::String`.
#[verifier::external_body]
pub(crate) fn text_value(text: String) -> (value: toml::Value)
    ensures
        value_tree(value) == Tree::Text(text@),
{
    toml::Value::String(text)
}

/// `toml::Value::Boolean`.
#[verifier::external_body]
pub(crate) fn flag_value(flag: bool) -> (value: toml::Value)
    ensures
        value_tree(value) == Tree::Flag(flag),
{
    toml::Value::Boolean(flag)
}

/// `toml::Value::Array`.
#[verifier::external_body]
pub(crate) fn list_value(items: Vec<toml::Value>) -> (value: toml::Value)
    ensures
        value_tree(value) == Tree::List(value_trees(items@)),
{
    toml::Value::Array(items)
}

/// `toml::Value::Table` of the `toml::Table` that is collected from
/// `entries`, pair by pair. This crate builds `toml` with `preserve_order`, so
/// a table keeps the order of insertion: with keys that differ it holds the
/// entries as they come.
#[verifier::external_body]
pub(crate) fn table_value(entries: Vec<(String, toml::Value)>) -> (value: toml::Value)
    requires
        distinct_keys(entry_trees(entries@)),
    ensures
        value_tree(value) == Tree::Table(entry_trees(entries@)),
{
    toml::Value::Table(entries.into_iter().collect())
}

/// `toml::to_string_pretty` on a `toml::Value`. The outcome depends on the
/// value alone.
#[verifier::external_body]
pub(crate) fn write_document(value: &toml::Value) -> (written: Result<String, toml::ser::Error>)
    requires
        writable(value_tree(*value)),
    ensures
        match written {
            Ok(text) => toml_text(value_tree(*value)) == Some(text@),
            Err(_) => toml_text(value_tree(*value)) is None,
        },
{
    toml::to_string_pretty(value)
}

/// The tree of the library that holds what `value` holds.
pub(crate) fn tree_of_value(value: &toml::Value) -> (tree: TomlValue)
    ensures
        tree@ == value_tree(*value),
    decreases value_tree(*value),
{
    match parts_of(value) {
        ValueParts::Text(text) => TomlValue::Text(text.clone()),
        ValueParts::Flag(flag) => TomlValue::Flag(flag),
        ValueParts::List(items) => {
            let mut list: Vec<TomlValue> = Vec::new();
            let mut i: usize = 0;
            while i < items.len()
                invariant
                    i <= items.len(),
                    list.len() == i,
                    value_tree(*value) == Tree::List(value_trees(items@)),
                    forall|j: int| 0 <= j < i ==> list[j]@ == value_tree(items[j]),
                decreases items.len() - i,
            {
                proof {
                    let trees = value_trees(items@);
                    assert(decreases_to!(value_tree(*value) => value_tree(*value)->List_0));
                    assert(decreases_to!(trees => trees[i as int]));
                }
                list.push(tree_of_value(&items[i]));
                i += 1;
            }
            let tree = TomlValue::List(list);
            assert(tree@->List_0 =~= value_trees(items@));
            tree
        },
        ValueParts::Table(entries) => {
            let ghost all = value_tree(*value)->Table_0;
            let mut table: Vec<TomlEntry> = Vec::new();
            let mut i: usize = 0;
            while i < entries.len()
                invariant
                    i <= entries.len(),
                    table.len() == i,
                    value_tree(*value) == Tree::Table(all),
                    all.len() == entries.len(),
                    forall|j: int|
                        0 <= j < all.len() ==> all[j] == (
                            entries[j].0@,
                            value_tree(*entries[j].1),
                        ),
                    forall|j: int| 0 <= j < i ==> (table[j].key@, table[j].value@) == all[j],
                decreases entries.len() - i,
            {
                proof {
                    assert(decreases_to!(value_tree(*value) => value_tree(*value)->Table_0));
                    assert(decreases_to!(all[i as int] => all[i as int].1));
                }
                let entry = TomlEntry {
                    key: entries[i].0.clone(),
                    value: tree_of_value(entries[i].1),
                };
                table.push(entry);
                i += 1;
            }
            let tree = TomlValue::Table(table);
            assert(tree@->Table_0 =~= all);
            tree
        },
        ValueParts::Other => TomlValue::Other,
    }
}

/// The `toml::Value` that holds what `tree` holds.
pub(crate) fn value_of_tree(tree: &TomlValue) -> (value: toml::Value)
    requires
        writable(tree@),
    ensures
        value_tree(value) == tree@,
    decreases tree,
{
    match tree {
        TomlValue::Text(text) => text_value(text.clone()),
        TomlValue::Flag(flag) => flag_value(*flag),
        TomlValue::List(items) => {
            let ghost all = tree@->List_0;
            let mut list: Vec<toml::Value> = Vec::new();
            let mut i: usize = 0;
            while i < items.len()
                invariant
                    i <= items.len(),
                    list.len() == i,
                    all.len() == items.len(),
                    forall|j: int| 0 <= j < all.len() ==> all[j] == items[j]@ && writable(all[j]),
                    forall|j: int| 0 <= j < all.len() ==> decreases_to!(tree => items[j]),
                    forall|j: int| 0 <= j < i ==> value_tree(list[j]) == all[j],
                decreases items.len() - i,
            {
                assert(writable(all[i as int]));
                list.push(value_of_tree(&items[i]));
                i += 1;
            }
            assert(value_trees(list@) =~= all);
            list_value(list)
        },
        TomlValue::Table(entries) => {
            let ghost all = tree@->Table_0;
            let mut table: Vec<(String, toml::Value)> = Vec::new();
            let mut i: usize = 0;
            while i < entries.len()
                invariant
                    i <= entries.len(),
                    table.len() == i,
                    all.len() == entries.len(),
                    forall|j: int|
                        0 <= j < all.len() ==> all[j] == (entries[j].key@, entries[j].value@)
                            && writable(all[j].1),
                    forall|j: int| 0 <= j < all.len() ==> decreases_to!(tree => entries[j].value),
                    forall|j: int|
                        0 <= j < i ==> (table[j].0@, value_tree(table[j].1)) == all[j],
                decreases entries.len() - i,
            {
                assert(writable(all[i as int].1));
                let entry = (entries[i].key.clone(), value_of_tree(&entries[i].value));
                table.push(entry);
                i += 1;
            }
            assert(entry_trees(table@) =~= all);
            table_value(table)
        },
        TomlValue::Other => unreached(),
    }
}

} // verus!
