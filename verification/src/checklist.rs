//! The checklist and its entries, with their mathematical views, and the
//! operations that need nothing but the checklist itself.

use vstd::prelude::*;
use vstd::string::StringExecFns;

use crate::text::{contains, decimal, has_substring, push_decimal};

verus! {

/// One entry of a checklist. An entry is known by its text alone: those who
/// show or store a checklist cannot tell two entries with the same text
/// apart.
#[derive(Debug, PartialEq, Clone)]
pub struct ChecklistItem {
    pub text: String,
    pub optional: bool,
    pub resolved: bool,
}

/// A named checklist. The order of `items` is the order in which they are
/// shown and persisted.
#[derive(Clone, Debug)]
pub struct Checklist {
    pub items: Vec<ChecklistItem>,
    pub name: String,
}

/// What a `ChecklistItem` stands for.
pub struct ItemView {
    pub text: Seq<char>,
    pub optional: bool,
    pub resolved: bool,
}

/// What a `Checklist` stands for.
pub struct ChecklistView {
    pub name: Seq<char>,
    pub items: Seq<ItemView>,
}

/// Why an operation on a checklist gave no result.
#[derive(Clone, Copy, Debug, PartialEq, Eq, Structural)]
pub enum ChecklistError {
    /// A document held no checklist entry.
    EmptyChecklist,
    /// A checklist could not be written as a snapshot.
    SerializeFailure,
    /// A text is not the snapshot of a checklist.
    DeserializeFailure,
}

impl View for ChecklistItem {
    type V = ItemView;

    open spec fn view(&self) -> ItemView {
        ItemView { text: self.text@, optional: self.optional, resolved: self.resolved }
    }
}

impl View for Checklist {
    type V = ChecklistView;

    open spec fn view(&self) -> ChecklistView {
        ChecklistView { name: self.name@, items: item_views(self.items@) }
    }
}

/// The views of `items`, in order.
pub open spec fn item_views(items: Seq<ChecklistItem>) -> Seq<ItemView> {
    items.map_values(|item: ChecklistItem| item@)
}

/// The marker that makes an entry optional, wherever it stands in the text.
pub open spec fn optional_marker() -> Seq<char> {
    "[OPTIONAL]"@
}

/// An entry with no text, neither optional nor resolved.
pub open spec fn blank_item() -> ItemView {
    ItemView { text: Seq::empty(), optional: false, resolved: false }
}

/// `item` with its optional flag set from its text alone.
pub open spec fn tagged_item(item: ItemView) -> ItemView {
    ItemView {
        text: item.text,
        optional: has_substring(item.text, optional_marker()),
        resolved: item.resolved,
    }
}

/// `list` with every entry tagged; name, order, texts and resolved flags stay.
pub open spec fn tagged(list: ChecklistView) -> ChecklistView {
    ChecklistView {
        name: list.name,
        items: list.items.map_values(|item: ItemView| tagged_item(item)),
    }
}

/// An entry that is neither resolved nor optional.
pub open spec fn needs_attention(item: ItemView) -> bool {
    !item.resolved && !item.optional
}

/// How many of `items` need attention.
pub open spec fn unresolved_count(items: Seq<ItemView>) -> nat {
    items.filter(|item: ItemView| needs_attention(item)).len()
}

/// The text of the entry at `index` of a generated checklist: the name, the
/// word `item` and the index, with single spaces between them.
pub open spec fn generated_text(name: Seq<char>, index: nat) -> Seq<char> {
    name + " item "@ + decimal(index)
}

/// The checklist that `generate_test_checklist` makes: `count` unresolved
/// entries, numbered from 0, all optional or all not.
pub open spec fn generated(count: nat, name: Seq<char>, optional: Option<bool>) -> ChecklistView {
    ChecklistView {
        name,
        items: Seq::new(
            count,
            |i: int|
                ItemView {
                    text: generated_text(name, i as nat),
                    optional: optional == Some(true),
                    resolved: false,
                },
        ),
    }
}

/// `list` after the user has gone through it: the entry at each position is
/// resolved exactly if `checked` says so there. Name, order, texts and
/// optional flags stay.
pub open spec fn resolved_as(list: ChecklistView, checked: Seq<bool>) -> ChecklistView {
    ChecklistView {
        name: list.name,
        items: Seq::new(
            list.items.len(),
            |i: int|
                ItemView {
                    text: list.items[i].text,
                    optional: list.items[i].optional,
                    resolved: checked[i],
                },
        ),
    }
}

/// Tagging twice is tagging once.
pub proof fn lemma_tagging_idempotent(list: ChecklistView)
    ensures
        tagged(tagged(list)) == tagged(list),
{
    assert(tagged(tagged(list)).items =~= tagged(list).items);
}

/// The count of no entries is 0; one entry more at the end adds one to the
/// count if it needs attention.
proof fn lemma_count_step(items: Seq<ItemView>)
    ensures
        unresolved_count(items) == if items.len() == 0 {
            0
        } else {
            unresolved_count(items.drop_last()) + if needs_attention(items.last()) {
                1nat
            } else {
                0nat
            }
        },
{
    reveal(Seq::filter);
}

/// Taking one entry out of `items` lowers the count by one if that entry
/// needs attention, and leaves it otherwise.
proof fn lemma_count_remove(items: Seq<ItemView>, at: int)
    requires
        0 <= at < items.len(),
    ensures
        unresolved_count(items) == unresolved_count(items.remove(at)) + if needs_attention(
            items[at],
        ) {
            1nat
        } else {
            0nat
        },
    decreases items.len(),
{
    lemma_count_step(items);
    if at < items.len() - 1 {
        lemma_count_remove(items.drop_last(), at);
        lemma_count_step(items.remove(at));
        assert(items.remove(at).drop_last() =~= items.drop_last().remove(at));
    } else {
        assert(items.remove(at) =~= items.drop_last());
    }
}

/// The count does not depend on the order of the entries: two sequences that
/// hold the same entries, each as often as the other, have the same count.
pub proof fn lemma_count_permutation(a: Seq<ItemView>, b: Seq<ItemView>)
    requires
        a.to_multiset() == b.to_multiset(),
    ensures
        unresolved_count(a) == unresolved_count(b),
    decreases a.len(),
{
    broadcast use {
        vstd::seq_lib::to_multiset_len,
        vstd::seq_lib::to_multiset_contains,
        vstd::seq_lib::to_multiset_remove,
    };

    assert(a.len() == b.len()) by {
        assert(b.to_multiset().len() == b.len());
    }
    if a.len() > 0 {
        let last = a.last();
        assert(a.to_multiset().count(last) > 0);
        let at = choose|at: int| 0 <= at < b.len() && b[at] == last;
        assert(a.remove(a.len() - 1).to_multiset() == a.to_multiset().remove(last));
        lemma_count_permutation(a.drop_last(), b.remove(at));
        lemma_count_remove(b, at);
        lemma_count_step(a);
    }
}

/// Where every entry is optional or resolved, nothing needs attention.
pub proof fn lemma_count_settled(items: Seq<ItemView>)
    requires
        forall|i: int| 0 <= i < items.len() ==> items[i].optional || items[i].resolved,
    ensures
        unresolved_count(items) == 0,
    decreases items.len(),
{
    lemma_count_step(items);
    if items.len() > 0 {
        lemma_count_settled(items.drop_last());
    }
}

/// Where every entry needs attention, the count is the number of entries.
pub proof fn lemma_count_all(items: Seq<ItemView>)
    requires
        forall|i: int| 0 <= i < items.len() ==> needs_attention(items[i]),
    ensures
        unresolved_count(items) == items.len(),
    decreases items.len(),
{
    lemma_count_step(items);
    if items.len() > 0 {
        lemma_count_all(items.drop_last());
    }
}

/// What a generated checklist counts: each of its entries, or none where
/// they are optional.
pub proof fn lemma_generated_count(count: nat, name: Seq<char>, optional: Option<bool>)
    ensures
        unresolved_count(generated(count, name, optional).items) == if optional == Some(true) {
            0
        } else {
            count
        },
{
    let items = generated(count, name, optional).items;
    if optional == Some(true) {
        lemma_count_settled(items);
    } else {
        lemma_count_all(items);
    }
}

impl Default for ChecklistItem {
    fn default() -> (item: ChecklistItem)
        ensures
            item@ == blank_item(),
    {
        ChecklistItem { text: String::new(), optional: false, resolved: false }
    }
}

/// The text that reports `error`, with the operation that failed in front.
pub open spec fn message_of(error: ChecklistError) -> Seq<char> {
    match error {
        ChecklistError::EmptyChecklist => {
            "[extract_checklist] Found No Checklist or and Items returning Empty Checklist"@
        },
        ChecklistError::SerializeFailure => "[to_toml] failed to generate toml"@,
        ChecklistError::DeserializeFailure => {
            "[from_toml] failed parse ChecklistItems from TOML"@
        },
    }
}

impl ChecklistError {
    /// The text that reports this error to the user and in the log.
    pub fn message(&self) -> (text: &'static str)
        ensures
            text@ == message_of(*self),
    {
        match self {
            ChecklistError::EmptyChecklist => {
                "[extract_checklist] Found No Checklist or and Items returning Empty Checklist"
            },
            ChecklistError::SerializeFailure => "[to_toml] failed to generate toml",
            ChecklistError::DeserializeFailure => {
                "[from_toml] failed parse ChecklistItems from TOML"
            },
        }
    }
}

impl Checklist {
    /// Marks as optional exactly the entries whose text holds the marker.
    pub fn set_optionality(self) -> (list: Checklist)
        ensures
            list@ == tagged(self@),
    {
        let mut list = self;
        let mut i: usize = 0;
        while i < list.items.len()
            invariant
                i <= list.items.len(),
                list.name@ == self.name@,
                list.items.len() == self.items.len(),
                forall|j: int| 0 <= j < i ==> list.items[j]@ == tagged_item(self.items[j]@),
                forall|j: int| i <= j < list.items.len() ==> list.items[j]@ == self.items[j]@,
            decreases list.items.len() - i,
        {
            let marked = contains(list.items[i].text.as_str(), "[OPTIONAL]");
            list.items[i].optional = marked;
            i += 1;
        }
        assert(list@.items =~= tagged(self@).items);
        list
    }

    /// A checklist of `count` entries for trials: entry `i` has the text
    /// `<name> item <i>` and is unresolved; all entries are optional where
    /// `optional` is `Some(true)`, none is otherwise.
    pub fn generate_test_checklist(count: u128, name: String, optional: Option<bool>) -> (list:
        Checklist)
        requires
            count <= usize::MAX,
        ensures
            list@ == generated(count as nat, name@, optional),
    {
        let flag = match optional {
            Some(flag) => flag,
            None => false,
        };
        let mut items: Vec<ChecklistItem> = Vec::new();
        let mut i: u128 = 0;
        while i < count
            invariant
                i <= count,
                items.len() == i,
                flag == (optional == Some(true)),
                forall|j: int|
                    0 <= j < i ==> items[j]@ == generated(count as nat, name@, optional).items[j],
            decreases count - i,
        {
            let mut text = name.clone();
            text.append(" item ");
            push_decimal(&mut text, i);
            items.push(ChecklistItem { text, optional: flag, resolved: false });
            i += 1;
        }
        let list = Checklist { items, name };
        assert(list@.items =~= generated(count as nat, name@, optional).items);
        list
    }

    /// This checklist after the user has gone through it: `checked` tells,
    /// position by position, which entries are resolved now. There is no
    /// result where `checked` has not one flag for each entry.
    pub fn with_resolved(&self, checked: &Vec<bool>) -> (result: Option<Checklist>)
        ensures
            match result {
                Some(list) => checked.len() == self.items.len() && list@ == resolved_as(
                    self@,
                    checked@,
                ),
                None => checked.len() != self.items.len(),
            },
    {
        if checked.len() != self.items.len() {
            return None;
        }
        let mut items: Vec<ChecklistItem> = Vec::new();
        let mut i: usize = 0;
        while i < self.items.len()
            invariant
                i <= self.items.len(),
                checked.len() == self.items.len(),
                items.len() == i,
                forall|j: int| 0 <= j < i ==> items[j]@ == resolved_as(self@, checked@).items[j],
            decreases self.items.len() - i,
        {
            items.push(
                ChecklistItem {
                    text: self.items[i].text.clone(),
                    optional: self.items[i].optional,
                    resolved: checked[i],
                },
            );
            i += 1;
        }
        let list = Checklist { items, name: self.name.clone() };
        assert(list@.items =~= resolved_as(self@, checked@).items);
        Some(list)
    }

    /// The number of entries that need attention, modulo 256: the count is
    /// meant for a process status, which is one byte.
    pub fn get_count_unresolved(&self) -> (count: u8)
        ensures
            count as nat == unresolved_count(self@.items) % 256,
    {
        let mut count: u8 = 0;
        let mut i: usize = 0;
        proof {
            lemma_count_step(item_views(self.items@.take(0)));
        }
        while i < self.items.len()
            invariant
                i <= self.items.len(),
                count as nat == unresolved_count(item_views(self.items@.take(i as int))) % 256,
            decreases self.items.len() - i,
        {
            proof {
                let seen = self.items@.take(i as int);
                let next = self.items@.take(i + 1);
                assert(item_views(next).drop_last() =~= item_views(seen));
                lemma_count_step(item_views(next));
            }
            if !self.items[i].resolved && !self.items[i].optional {
                count = count.wrapping_add(1);
            }
            i += 1;
        }
        assert(self.items@.take(i as int) =~= self.items@);
        count
    }
}

} // verus!
