//! The persisted snapshot of a checklist: a TOML document that holds the
//! name and, as an array of tables, the entries in their order, each with
//! its text and its two flags.

use vstd::prelude::*;
use vstd::string::StringExecFns;

use crate::checklist::{Checklist, ChecklistError, ChecklistItem, ChecklistView, ItemView};
use crate::toml_tree::{
    TomlEntry, TomlValue, Tree, lookup, parse_document, toml_document, toml_text, tree_of,
    tree_of_value, value_of_tree, writable, write_document,
};

verus! {

/// The table that stands for `item`: its text and flags, in this order.
pub open spec fn item_tree(item: ItemView) -> Tree {
    Tree::Table(
        seq![
            ("text"@, Tree::Text(item.text)),
            ("optional"@, Tree::Flag(item.optional)),
            ("resolved"@, Tree::Flag(item.resolved)),
        ],
    )
}

/// The document that stands for `list`: its name, then its entries in their
/// order.
pub open spec fn snapshot_tree(list: ChecklistView) -> Tree {
    Tree::Table(
        seq![
            ("name"@, Tree::Text(list.name)),
            ("items"@, Tree::List(list.items.map_values(|item: ItemView| item_tree(item)))),
        ],
    )
}

/// The entry that `tree` stands for: `tree` is a table with a string under
/// `text` and booleans under `optional` and `resolved`. Other entries of the
/// table do not count.
pub open spec fn item_of(tree: Tree) -> Option<ItemView> {
    match (tree.text_at("text"@), tree.flag_at("optional"@), tree.flag_at("resolved"@)) {
        (Some(text), Some(optional), Some(resolved)) => Some(ItemView { text, optional, resolved }),
        _ => None,
    }
}

/// The entries that `trees` stand for, in order, if each stands for one.
pub open spec fn items_of(trees: Seq<Tree>) -> Option<Seq<ItemView>> {
    if forall|i: int| 0 <= i < trees.len() ==> item_of(#[trigger] trees[i]) is Some {
        Some(trees.map_values(|tree: Tree| item_of(tree)->0))
    } else {
        None
    }
}

/// The checklist that the document `tree` stands for: `tree` is a table with
/// a string under `name` and, under `items`, an array of which each element
/// stands for an entry.
pub open spec fn checklist_of(tree: Tree) -> Option<ChecklistView> {
    match (tree.text_at("name"@), tree.list_at("items"@)) {
        (Some(name), Some(trees)) => match items_of(trees) {
            Some(items) => Some(ChecklistView { name, items }),
            None => None,
        },
        _ => None,
    }
}

/// The snapshot of `list`: the text that the serializer writes for its
/// document, provided that the parser reads that text as the same document.
pub open spec fn snapshot_text(list: ChecklistView) -> Option<Seq<char>> {
    match toml_text(snapshot_tree(list)) {
        Some(text) => if toml_document(text) == Some(snapshot_tree(list)) {
            Some(text)
        } else {
            None
        },
        None => None,
    }
}

/// The checklist that the text `snapshot` holds, if it is a TOML document
/// that stands for one.
pub open spec fn snapshot_checklist(snapshot: Seq<char>) -> Option<ChecklistView> {
    match toml_document(snapshot) {
        Some(document) => checklist_of(document),
        None => None,
    }
}

/// The name of the file that keeps the snapshot of a checklist called `name`,
/// beside the document: a dot, the name, and `.kb.toml`.
pub open spec fn save_name(name: Seq<char>) -> Seq<char> {
    "."@ + name + ".kb.toml"@
}

/// The keys of a snapshot differ from one another.
proof fn lemma_keys_differ()
    ensures
        "name"@ != "items"@,
        "text"@ != "optional"@,
        "text"@ != "resolved"@,
        "optional"@ != "resolved"@,
{
    reveal_strlit("name");
    reveal_strlit("items");
    reveal_strlit("text");
    reveal_strlit("optional");
    reveal_strlit("resolved");
    assert("items"@.len() == 5);
    assert("optional"@[0] != "resolved"@[0]);
}

/// The table of an entry stands for that entry, and can be written.
pub proof fn lemma_item_round_trip(item: ItemView)
    ensures
        item_of(item_tree(item)) == Some(item),
        writable(item_tree(item)),
{
    lemma_keys_differ();
    let entries = item_tree(item)->Table_0;
    reveal_with_fuel(lookup, 4);
    assert forall|i: int| 0 <= i < entries.len() implies writable((#[trigger] entries[i]).1) by {}
}

/// The document of a checklist can be written: no table in it holds a key
/// twice, and it is made of strings, booleans, arrays and tables alone.
pub proof fn lemma_snapshot_writable(list: ChecklistView)
    ensures
        writable(snapshot_tree(list)),
{
    lemma_keys_differ();
    let entries = snapshot_tree(list)->Table_0;
    let trees = list.items.map_values(|item: ItemView| item_tree(item));
    assert forall|i: int| 0 <= i < trees.len() implies writable(#[trigger] trees[i]) by {
        lemma_item_round_trip(list.items[i]);
    }
    assert forall|i: int| 0 <= i < entries.len() implies writable((#[trigger] entries[i]).1) by {}
}

/// Reading back: the document that `to_tree` builds for a checklist stands
/// for that checklist, with the same name and the same entries in the same
/// order. So `from_tree` gives back what `to_tree` was given.
pub proof fn lemma_snapshot_round_trip(list: ChecklistView)
    ensures
        checklist_of(snapshot_tree(list)) == Some(list),
{
    lemma_keys_differ();
    let entries = snapshot_tree(list)->Table_0;
    let trees = list.items.map_values(|item: ItemView| item_tree(item));
    reveal_with_fuel(lookup, 3);
    assert forall|i: int| 0 <= i < trees.len() implies item_of(#[trigger] trees[i]) == Some(
        list.items[i],
    ) by {
        lemma_item_round_trip(list.items[i]);
    }
    assert(items_of(trees)->0 =~= list.items);
}

/// Saving and loading: the snapshot that `to_toml` gives for a checklist is a
/// text for which `from_toml` gives back that checklist, with the same name
/// and the same entries in the same order.
pub proof fn lemma_save_and_load(list: ChecklistView)
    ensures
        snapshot_text(list) matches Some(snapshot) ==> snapshot_checklist(snapshot) == Some(list),
{
    lemma_snapshot_round_trip(list);
}

/// The entry of a table that holds `value` under `key`.
fn entry(key: &str, value: TomlValue) -> (entry: TomlEntry)
    ensures
        entry.key@ == key@,
        entry.value == value,
{
    TomlEntry { key: key.to_owned(), value }
}

impl ChecklistItem {
    /// The table that stands for this entry.
    pub fn to_tree(&self) -> (tree: TomlValue)
        ensures
            tree@ == item_tree(self@),
    {
        let mut entries: Vec<TomlEntry> = Vec::new();
        entries.push(entry("text", TomlValue::Text(self.text.clone())));
        entries.push(entry("optional", TomlValue::Flag(self.optional)));
        entries.push(entry("resolved", TomlValue::Flag(self.resolved)));
        let tree = TomlValue::Table(entries);
        proof {
            reveal_with_fuel(tree_of, 2);
            assert(tree@->Table_0 =~= item_tree(self@)->Table_0);
        }
        tree
    }

    /// The entry that `tree` stands for, if it stands for one.
    pub fn from_tree(tree: &TomlValue) -> (found: Option<ChecklistItem>)
        ensures
            match found {
                Some(item) => item_of(tree@) == Some(item@),
                None => item_of(tree@) is None,
            },
    {
        let text = match tree.get("text") {
            Some(TomlValue::Text(text)) => text.clone(),
            _ => {
                return None;
            },
        };
        let optional = match tree.get("optional") {
            Some(TomlValue::Flag(flag)) => *flag,
            _ => {
                return None;
            },
        };
        let resolved = match tree.get("resolved") {
            Some(TomlValue::Flag(flag)) => *flag,
            _ => {
                return None;
            },
        };
        Some(ChecklistItem { text, optional, resolved })
    }
}

impl Checklist {
    /// The document that stands for this checklist.
    pub fn to_tree(&self) -> (tree: TomlValue)
        ensures
            tree@ == snapshot_tree(self@),
    {
        let mut trees: Vec<TomlValue> = Vec::new();
        let mut i: usize = 0;
        while i < self.items.len()
            invariant
                i <= self.items.len(),
                trees.len() == i,
                forall|j: int| 0 <= j < i ==> trees[j]@ == item_tree(self.items[j]@),
            decreases self.items.len() - i,
        {
            trees.push(self.items[i].to_tree());
            i += 1;
        }
        let mut entries: Vec<TomlEntry> = Vec::new();
        entries.push(entry("name", TomlValue::Text(self.name.clone())));
        entries.push(entry("items", TomlValue::List(trees)));
        let tree = TomlValue::Table(entries);
        proof {
            reveal_with_fuel(tree_of, 2);
            let wanted = snapshot_tree(self@)->Table_0;
            assert(entries[1].value@->List_0 =~= wanted[1].1->List_0);
            assert(tree@->Table_0 =~= wanted);
        }
        tree
    }

    /// The checklist that the document `tree` stands for. A document that
    /// lacks the name or the entries, or holds a value of another kind in
    /// the place of one, is refused.
    pub fn from_tree(tree: &TomlValue) -> (result: Result<Checklist, ChecklistError>)
        ensures
            match result {
                Ok(list) => checklist_of(tree@) == Some(list@),
                Err(error) => error == ChecklistError::DeserializeFailure && checklist_of(tree@)
                    is None,
            },
    {
        let name = match tree.get("name") {
            Some(TomlValue::Text(name)) => name.clone(),
            _ => {
                return Err(ChecklistError::DeserializeFailure);
            },
        };
        let trees = match tree.get("items") {
            Some(TomlValue::List(trees)) => trees,
            _ => {
                return Err(ChecklistError::DeserializeFailure);
            },
        };
        let ghost all = tree@.list_at("items"@)->0;
        let mut items: Vec<ChecklistItem> = Vec::new();
        let mut i: usize = 0;
        while i < trees.len()
            invariant
                i <= trees.len(),
                items.len() == i,
                tree@.text_at("name"@) == Some(name@),
                tree@.list_at("items"@) == Some(all),
                all.len() == trees.len(),
                forall|j: int| 0 <= j < all.len() ==> all[j] == trees[j]@,
                forall|j: int| 0 <= j < i ==> item_of(all[j]) == Some(items[j]@),
            decreases trees.len() - i,
        {
            match ChecklistItem::from_tree(&trees[i]) {
                Some(item) => {
                    items.push(item);
                },
                None => {
                    assert(item_of(all[i as int]) is None);
                    return Err(ChecklistError::DeserializeFailure);
                },
            }
            i += 1;
        }
        let list = Checklist { items, name };
        assert(items_of(all)->0 =~= list@.items);
        Ok(list)
    }

    /// The name of the file that keeps this checklist's snapshot.
    pub fn save_file_name(&self) -> (file: String)
        ensures
            file@ == save_name(self.name@),
    {
        let mut file = ".".to_owned();
        file.append(self.name.as_str());
        file.append(".kb.toml");
        file
    }

    /// This checklist as a snapshot: the TOML text of its document. The text
    /// is read back before it is handed out: where nothing is written, or
    /// what is written does not hold the document again, the checklist is
    /// refused rather than saved with a loss.
    pub fn to_toml(&self) -> (result: Result<String, ChecklistError>)
        ensures
            match result {
                Ok(text) => snapshot_text(self@) == Some(text@),
                Err(error) => error == ChecklistError::SerializeFailure && snapshot_text(self@)
                    is None,
            },
    {
        let tree = self.to_tree();
        proof {
            lemma_snapshot_writable(self@);
        }
        let text = match write_document(&value_of_tree(&tree)) {
            Ok(text) => text,
            Err(_) => {
                return Err(ChecklistError::SerializeFailure);
            },
        };
        match parse_document(text.as_str()) {
            Ok(value) => {
                if tree_of_value(&value).same_as(&tree) {
                    Ok(text)
                } else {
                    Err(ChecklistError::SerializeFailure)
                }
            },
            Err(_) => Err(ChecklistError::SerializeFailure),
        }
    }

    /// The checklist that the snapshot `input_string` holds. A text that is
    /// no TOML document, or whose document stands for no checklist, is
    /// refused.
    pub fn from_toml(input_string: String) -> (result: Result<Checklist, ChecklistError>)
        ensures
            match result {
                Ok(list) => snapshot_checklist(input_string@) == Some(list@),
                Err(error) => error == ChecklistError::DeserializeFailure && snapshot_checklist(
                    input_string@,
                ) is None,
            },
    {
        match parse_document(input_string.as_str()) {
            Ok(value) => {
                let tree = tree_of_value(&value);
                Checklist::from_tree(&tree)
            },
            Err(_) => Err(ChecklistError::DeserializeFailure),
        }
    }
}

} // verus!
