//! Extraction of a checklist from a markdown document.
//!
//! A document marks its checklist with HTML comments that hold the word
//! `checklist`: each such comment opens the checklist section or closes it
//! again. The list items that close inside the section are the checklist's
//! entries, nested ones included, in document order.
//!
//! The extraction is a scan over the document's events that keeps three
//! flags and the text of the item being read. The flags are not depth-aware:
//! the end of a nested list leaves the scan outside every list, until the
//! next list opens.

use vstd::prelude::*;
use vstd::string::StringExecFns;

use crate::checklist::{
    Checklist, ChecklistError, ChecklistItem, ChecklistView, ItemView, item_views,
    optional_marker, tagged,
};
use crate::markdown::{MarkdownEvent, Token, events_of, markdown_events, tokens};
use crate::text::{contains, has_substring, push_char};
use crate::toml_tree::{TomlValue, Tree, parse_document, toml_document, tree_of_value};

verus! {

/// The state of a scan.
pub struct Scan {
    /// A list has opened and none has closed since.
    pub in_list: bool,
    /// An odd number of delimiters has been read.
    pub in_section: bool,
    /// A list item has opened and none has closed since.
    pub in_item: bool,
    /// The text read for the item that is open.
    pub buffer: Seq<char>,
    /// The name that the last delimiter gave.
    pub name: Seq<char>,
    /// The entries completed so far.
    pub items: Seq<ItemView>,
}

/// The name of a checklist whose delimiter gives none.
pub open spec fn default_name() -> Seq<char> {
    "checklist"@
}

/// Raw HTML is a delimiter when it holds both the word `checklist` and the
/// opening of a comment.
pub open spec fn is_delimiter(raw: Seq<char>) -> bool {
    has_substring(raw, "checklist"@) && has_substring(raw, "<!--"@)
}

/// The characters that a comment is written with.
pub open spec fn is_comment_char(c: char) -> bool {
    c == '<' || c == '!' || c == '-' || c == '>'
}

/// Keeps what is no comment character.
pub open spec fn kept() -> spec_fn(char) -> bool {
    |c: char| !is_comment_char(c)
}

/// `raw` without its comment characters.
pub open spec fn comment_body(raw: Seq<char>) -> Seq<char> {
    raw.filter(kept())
}

/// The name that a TOML document gives: its non-empty string under the key
/// `checklist`, else the default name.
pub open spec fn name_in(document: Tree) -> Seq<char> {
    match document.text_at("checklist"@) {
        Some(name) => if name.len() > 0 {
            name
        } else {
            default_name()
        },
        None => default_name(),
    }
}

/// The name that the delimiter `raw` gives: what its body, read as a TOML
/// document, holds as name; the default name where the body is no document.
pub open spec fn section_name(raw: Seq<char>) -> Seq<char> {
    match toml_document(comment_body(raw)) {
        Some(document) => name_in(document),
        None => default_name(),
    }
}

/// The state before the first event.
pub open spec fn scan_start() -> Scan {
    Scan {
        in_list: false,
        in_section: false,
        in_item: false,
        buffer: Seq::empty(),
        name: Seq::empty(),
        items: Seq::empty(),
    }
}

/// `state` after the buffered text has become an entry.
pub open spec fn flushed(state: Scan) -> Scan {
    Scan {
        buffer: Seq::empty(),
        items: state.items.push(ItemView { text: state.buffer, optional: false, resolved: false }),
        ..state
    }
}

/// `state` after one more event.
pub open spec fn scan_step(state: Scan, token: Token) -> Scan {
    match token {
        Token::ListStart => Scan { in_list: true, ..state },
        Token::ListEnd => Scan { in_list: false, ..state },
        Token::ItemStart => {
            let before = if state.in_list && state.in_section && state.in_item {
                flushed(state)
            } else {
                state
            };
            Scan { in_item: true, ..before }
        },
        Token::ItemEnd => {
            let closed = Scan { in_item: false, ..state };
            if state.in_list && state.in_section {
                flushed(closed)
            } else {
                closed
            }
        },
        Token::Text(fragment) => if state.in_list && state.in_section && state.in_item {
            Scan { buffer: state.buffer + fragment, ..state }
        } else {
            state
        },
        Token::Html(raw) => if is_delimiter(raw) {
            Scan { name: section_name(raw), in_section: !state.in_section, ..state }
        } else {
            state
        },
        Token::Other => state,
    }
}

/// The state after all of `events`, from the start state.
pub open spec fn scan(events: Seq<Token>) -> Scan
    decreases events.len(),
{
    if events.len() == 0 {
        scan_start()
    } else {
        scan_step(scan(events.drop_last()), events.last())
    }
}

/// The checklist of a run of events: the name and the entries that the scan
/// ends with, each entry tagged.
pub open spec fn extracted(events: Seq<Token>) -> ChecklistView {
    tagged(ChecklistView { name: scan(events).name, items: scan(events).items })
}

/// `token` is a delimiter.
pub open spec fn is_delimiter_token(token: Token) -> bool {
    match token {
        Token::Html(raw) => is_delimiter(raw),
        _ => false,
    }
}

/// `token` opens or closes a list item.
pub open spec fn is_item_boundary(token: Token) -> bool {
    token is ItemStart || token is ItemEnd
}

/// The number of delimiters among `events`.
pub open spec fn delimiter_count(events: Seq<Token>) -> nat {
    events.filter(|token: Token| is_delimiter_token(token)).len()
}

/// The event at position `at` stands inside the checklist section: an odd
/// number of delimiters comes before it.
pub open spec fn inside_section(events: Seq<Token>, at: int) -> bool {
    delimiter_count(events.take(at)) % 2 == 1
}

/// The scan is inside the section exactly after an odd number of delimiters.
pub proof fn lemma_section_flag(events: Seq<Token>)
    ensures
        scan(events).in_section == (delimiter_count(events) % 2 == 1),
    decreases events.len(),
{
    reveal(Seq::filter);
    if events.len() > 0 {
        lemma_section_flag(events.drop_last());
    }
}

/// A document without delimiter has no entry: whatever lists it holds, the
/// scan never enters the section, and `from_events`, `from_markdown` and
/// `extract_checklist` refuse it as an empty checklist.
pub proof fn lemma_no_delimiter_no_entry(events: Seq<Token>)
    requires
        forall|i: int| 0 <= i < events.len() ==> !is_delimiter_token(events[i]),
    ensures
        !scan(events).in_section,
        scan(events).items.len() == 0,
    decreases events.len(),
{
    if events.len() > 0 {
        lemma_no_delimiter_no_entry(events.drop_last());
    }
}

/// A document in which no list item opens or closes inside the section has
/// no entry, however many delimiters it holds: `from_events`, `from_markdown`
/// and `extract_checklist` refuse it as an empty checklist.
pub proof fn lemma_no_item_in_section_no_entry(events: Seq<Token>)
    requires
        forall|i: int|
            0 <= i < events.len() && is_item_boundary(events[i]) ==> !inside_section(events, i),
    ensures
        scan(events).items.len() == 0,
    decreases events.len(),
{
    if events.len() > 0 {
        let before = events.drop_last();
        assert forall|i: int|
            0 <= i < before.len() && is_item_boundary(before[i]) implies !inside_section(
            before,
            i,
        ) by {
            assert(before.take(i) =~= events.take(i));
            assert(!inside_section(events, i));
        }
        lemma_no_item_in_section_no_entry(before);
        lemma_section_flag(before);
        let last = events.len() - 1;
        if is_item_boundary(events[last]) {
            assert(!inside_section(events, last));
        }
    }
}

/// Every entry of a fresh extraction is unresolved, whatever checkbox the
/// document shows for it, and is optional exactly if its text holds the
/// marker.
pub proof fn lemma_fresh_entries(events: Seq<Token>)
    ensures
        forall|i: int|
            0 <= i < extracted(events).items.len() ==> {
                let item = #[trigger] extracted(events).items[i];
                &&& !item.resolved
                &&& item.optional == has_substring(item.text, optional_marker())
            },
{
    lemma_scanned_unresolved(events);
}

/// No entry that a scan completes is resolved.
proof fn lemma_scanned_unresolved(events: Seq<Token>)
    ensures
        forall|i: int|
            0 <= i < scan(events).items.len() ==> !(#[trigger] scan(events).items[i]).resolved,
    decreases events.len(),
{
    if events.len() > 0 {
        lemma_scanned_unresolved(events.drop_last());
        let before = scan(events.drop_last()).items;
        let after = scan(events).items;
        assert forall|i: int| 0 <= i < after.len() implies !(#[trigger] after[i]).resolved by {
            if i < before.len() {
                assert(after[i] == before[i]);
            }
        }
    }
}

/// Whether the raw HTML `raw` is a delimiter.
pub fn is_section_delimiter(raw: &str) -> (found: bool)
    ensures
        found == is_delimiter(raw@),
{
    contains(raw, "checklist") && contains(raw, "<!--")
}

/// The name that a parsed delimiter body gives.
pub fn name_from_document(document: &TomlValue) -> (name: String)
    ensures
        name@ == name_in(document@),
{
    match document.get("checklist") {
        Some(TomlValue::Text(name)) => {
            if name.as_str().is_empty() {
                "checklist".to_owned()
            } else {
                name.clone()
            }
        },
        _ => "checklist".to_owned(),
    }
}

/// `raw` without the characters `<`, `!`, `-` and `>`.
pub fn strip_comment_chars(raw: &str) -> (body: String)
    ensures
        body@ == comment_body(raw@),
{
    let mut body = String::new();
    proof {
        reveal(Seq::filter);
    }
    for c in it: raw.chars()
        invariant
            it.seq() == raw@,
            body@ == raw@.take(it.index() as int).filter(kept()),
    {
        proof {
            let seen = raw@.take(it.index() as int);
            assert(raw@.take(it.index() + 1) =~= seen.push(c));
            seen.lemma_filter_push(c, kept());
        }
        if c != '<' && c != '!' && c != '-' && c != '>' {
            push_char(&mut body, c);
        }
    }
    assert(raw@.take(raw@.len() as int) =~= raw@);
    body
}

/// The name that a delimiter gives to its checklist.
pub fn extract_checklist_name(input_string: String) -> (name: String)
    ensures
        name@ == section_name(input_string@),
{
    let body = strip_comment_chars(input_string.as_str());
    match parse_document(body.as_str()) {
        Ok(value) => {
            let document = tree_of_value(&value);
            name_from_document(&document)
        },
        Err(_) => "checklist".to_owned(),
    }
}

/// A scan in progress.
struct Extractor {
    in_list: bool,
    in_section: bool,
    in_item: bool,
    buffer: String,
    name: String,
    items: Vec<ChecklistItem>,
}

impl View for Extractor {
    type V = Scan;

    closed spec fn view(&self) -> Scan {
        Scan {
            in_list: self.in_list,
            in_section: self.in_section,
            in_item: self.in_item,
            buffer: self.buffer@,
            name: self.name@,
            items: item_views(self.items@),
        }
    }
}

impl Extractor {
    fn new() -> (state: Extractor)
        ensures
            state@ == scan_start(),
    {
        let state = Extractor {
            in_list: false,
            in_section: false,
            in_item: false,
            buffer: String::new(),
            name: String::new(),
            items: Vec::new(),
        };
        assert(state@.items =~= Seq::empty());
        state
    }

    /// Makes an entry of the buffered text and empties the buffer.
    fn flush(&mut self)
        ensures
            final(self)@ == flushed(old(self)@),
    {
        let mut text = String::new();
        std::mem::swap(&mut self.buffer, &mut text);
        self.items.push(ChecklistItem { text, optional: false, resolved: false });
        assert(self@.items =~= flushed(old(self)@).items);
    }

    /// Takes one more event.
    fn feed(&mut self, event: &MarkdownEvent)
        ensures
            final(self)@ == scan_step(old(self)@, event@),
    {
        match event {
            MarkdownEvent::ListStart => {
                self.in_list = true;
            },
            MarkdownEvent::ListEnd => {
                self.in_list = false;
            },
            MarkdownEvent::ItemStart => {
                if self.in_list && self.in_section && self.in_item {
                    self.flush();
                }
                self.in_item = true;
            },
            MarkdownEvent::ItemEnd => {
                self.in_item = false;
                if self.in_list && self.in_section {
                    self.flush();
                }
            },
            MarkdownEvent::Text(fragment) => {
                if self.in_list && self.in_section && self.in_item {
                    self.buffer.append(fragment.as_str());
                }
            },
            MarkdownEvent::Html(raw) => {
                if is_section_delimiter(raw.as_str()) {
                    self.name = extract_checklist_name(raw.clone());
                    self.in_section = !self.in_section;
                }
            },
            MarkdownEvent::Other => {},
        }
    }
}

/// Runs the scan over `events` and tags what it found.
fn run(events: &Vec<MarkdownEvent>) -> (list: Checklist)
    ensures
        list@ == extracted(tokens(events@)),
{
    let mut state = Extractor::new();
    let mut i: usize = 0;
    while i < events.len()
        invariant
            i <= events.len(),
            state@ == scan(tokens(events@.take(i as int))),
        decreases events.len() - i,
    {
        proof {
            let seen = tokens(events@.take(i as int));
            let next = tokens(events@.take(i + 1));
            assert(next.drop_last() =~= seen);
        }
        state.feed(&events[i]);
        i += 1;
    }
    assert(events@.take(i as int) =~= events@);
    let found = Checklist { items: state.items, name: state.name };
    found.set_optionality()
}

impl Checklist {
    /// The checklist of a document that has been read into events: the
    /// entries that the scan completes, tagged, under the name that the last
    /// delimiter gave. A run of events that completes no entry is refused.
    pub fn from_events(events: &Vec<MarkdownEvent>) -> (result: Result<Checklist, ChecklistError>)
        ensures
            result is Ok <==> scan(tokens(events@)).items.len() > 0,
            result matches Ok(list) ==> list@ == extracted(tokens(events@)),
            result matches Err(error) ==> error == ChecklistError::EmptyChecklist,
    {
        let list = run(events);
        assert(list@.items.len() == scan(tokens(events@)).items.len());
        if list.items.len() == 0 {
            Err(ChecklistError::EmptyChecklist)
        } else {
            Ok(list)
        }
    }

    /// The checklist of the markdown document `markdown_input`. A document
    /// in which no entry is found is refused: one without delimiter, or one
    /// with no list item inside the section.
    pub fn from_markdown(markdown_input: String) -> (result: Result<Checklist, ChecklistError>)
        ensures
            result is Ok <==> scan(markdown_events(markdown_input@)).items.len() > 0,
            result matches Ok(list) ==> list@ == extracted(markdown_events(markdown_input@)),
            result matches Err(error) ==> error == ChecklistError::EmptyChecklist,
    {
        let events = events_of(markdown_input.as_str());
        Checklist::from_events(&events)
    }
}

/// The checklist of the markdown document `markdown_input`, as
/// `Checklist::from_markdown` gives it: a document in which no entry is
/// found is refused, never handed back as a checklist without entries.
pub fn extract_checklist(markdown_input: String) -> (result: Result<Checklist, ChecklistError>)
    ensures
        result is Ok <==> scan(markdown_events(markdown_input@)).items.len() > 0,
        result matches Ok(list) ==> list@ == extracted(markdown_events(markdown_input@)),
        result matches Err(error) ==> error == ChecklistError::EmptyChecklist,
{
    let events = events_of(markdown_input.as_str());
    Checklist::from_events(&events)
}

} // verus!
