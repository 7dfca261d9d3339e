//! The structure of a markdown document as a run of events: what the
//! extraction reads of a document, and the call that produces it.

use pulldown_cmark::{DefaultBrokenLinkCallback, Event, Options, Parser, Tag, TagEnd};
use vstd::prelude::*;

verus! {

/// One structural event of a markdown document, as far as a checklist
/// depends on it.
#[derive(Debug, PartialEq)]
pub enum MarkdownEvent {
    /// A list opens.
    ListStart,
    /// A list closes.
    ListEnd,
    /// A list item opens.
    ItemStart,
    /// A list item closes.
    ItemEnd,
    /// A fragment of text, free of emphasis markup.
    Text(String),
    /// Raw HTML of an HTML block, as it stands in the document: a line of
    /// the block, or a part of one.
    Html(String),
    /// Any other event.
    Other,
}

/// What a `MarkdownEvent` stands for.
pub enum Token {
    ListStart,
    ListEnd,
    ItemStart,
    ItemEnd,
    Text(Seq<char>),
    Html(Seq<char>),
    Other,
}

impl View for MarkdownEvent {
    type V = Token;

    open spec fn view(&self) -> Token {
        match *self {
            MarkdownEvent::ListStart => Token::ListStart,
            MarkdownEvent::ListEnd => Token::ListEnd,
            MarkdownEvent::ItemStart => Token::ItemStart,
            MarkdownEvent::ItemEnd => Token::ItemEnd,
            MarkdownEvent::Text(text) => Token::Text(text@),
            MarkdownEvent::Html(raw) => Token::Html(raw@),
            MarkdownEvent::Other => Token::Other,
        }
    }
}

/// The views of `events`, in order.
pub open spec fn tokens(events: Seq<MarkdownEvent>) -> Seq<Token> {
    events.map_values(|event: MarkdownEvent| event@)
}

/// The events of the document `text`, read as CommonMark with task lists:
/// what `pulldown_cmark` yields for it, event by event.
pub uninterp spec fn markdown_events(text: Seq<char>) -> Seq<Token>;

#[verifier::external_type_specification]
#[verifier::external_body]
#[verifier::reject_recursive_types(F)]
pub struct ExParser<'input, F>(Parser<'input, F>);

#[verifier::external_type_specification]
#[verifier::external_body]
pub struct ExDefaultBrokenLinkCallback(DefaultBrokenLinkCallback);

/// The events that `parser` has still to yield.
pub uninterp spec fn pending(parser: Parser<'_, DefaultBrokenLinkCallback>) -> Seq<Token>;

/// `pulldown_cmark::Parser::new_ext` with `Options::ENABLE_TASKLISTS`: a
/// parser that has all the events of `markdown` still to yield. They depend
/// on the document alone.
#[verifier::external_body]
pub(crate) fn new_parser<'a>(markdown: &'a str) -> (parser: Parser<'a, DefaultBrokenLinkCallback>)
    ensures
        pending(parser) == markdown_events(markdown@),
{
    Parser::new_ext(markdown, Options::ENABLE_TASKLISTS)
}

/// `Iterator::next` of `pulldown_cmark::Parser`: the next event, as the
/// `MarkdownEvent` of its kind with the text it carries, or nothing once the
/// parser has yielded them all.
#[verifier::external_body]
pub(crate) fn next_event<'a>(parser: &mut Parser<'a, DefaultBrokenLinkCallback>) -> (event: Option<
    MarkdownEvent,
>)
    ensures
        match event {
            Some(event) => {
                &&& pending(*old(parser)).len() > 0
                &&& event@ == pending(*old(parser))[0]
                &&& pending(*final(parser)) == pending(*old(parser)).drop_first()
            },
            None => pending(*old(parser)).len() == 0 && pending(*final(parser)).len() == 0,
        },
{
    match parser.next() {
        None => None,
        Some(Event::Start(Tag::List(_))) => Some(MarkdownEvent::ListStart),
        Some(Event::End(TagEnd::List(_))) => Some(MarkdownEvent::ListEnd),
        Some(Event::Start(Tag::Item)) => Some(MarkdownEvent::ItemStart),
        Some(Event::End(TagEnd::Item)) => Some(MarkdownEvent::ItemEnd),
        Some(Event::Text(text)) => Some(MarkdownEvent::Text(text.to_string())),
        Some(Event::Html(raw)) => Some(MarkdownEvent::Html(raw.to_string())),
        Some(_) => Some(MarkdownEvent::Other),
    }
}

/// The events of the markdown document `markdown`, in order.
pub fn events_of(markdown: &str) -> (events: Vec<MarkdownEvent>)
    ensures
        tokens(events@) == markdown_events(markdown@),
{
    let mut parser = new_parser(markdown);
    let mut events: Vec<MarkdownEvent> = Vec::new();
    loop
        invariant
            tokens(events@) + pending(parser) == markdown_events(markdown@),
        ensures
            tokens(events@) == markdown_events(markdown@),
        decreases pending(parser).len(),
    {
        let ghost before = tokens(events@);
        match next_event(&mut parser) {
            Some(event) => {
                events.push(event);
                assert(tokens(events@) =~= before.push(event@));
            },
            None => {
                break ;
            },
        }
    }
    events
}

} // verus!
