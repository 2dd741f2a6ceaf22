//! Markup as a sequence of events.
//!
//! The text is read by `pulldown_cmark` and written back by
//! `pulldown_cmark_to_cmark`. Of the events that the parser gives, the link
//! rewriter looks into four kinds: the start and the end of a link, text, and
//! inline code. Every other event is carried along as the parser made it.

use pulldown_cmark::{Event, LinkType, Options, Parser, Tag};
use pulldown_cmark_to_cmark::cmark;
use vstd::prelude::*;

verus! {

/// `pulldown_cmark::Event`, carried along without being looked into.
#[verifier::external_type_specification]
#[verifier::external_body]
pub struct ExEvent<'a>(Event<'a>);

/// `pulldown_cmark::LinkType`, carried along without being looked into.
#[verifier::external_type_specification]
#[verifier::external_body]
pub struct ExLinkType(LinkType);

/// One event of a document.
#[derive(PartialEq, Debug)]
pub enum MarkupEvent<'a> {
    /// A link begins: the way it is written, its target and its title.
    LinkStart(LinkType, String, String),
    /// A link ends: the way it is written, its target and its title.
    LinkEnd(LinkType, String, String),
    /// Text.
    Text(String),
    /// Inline code.
    Code(String),
    /// Any other event.
    Other(Event<'a>),
}

/// The mathematical value of a [`MarkupEvent`].
pub enum EventModel<'a> {
    LinkStart(LinkType, Seq<char>, Seq<char>),
    LinkEnd(LinkType, Seq<char>, Seq<char>),
    Text(Seq<char>),
    Code(Seq<char>),
    Other(Event<'a>),
}

impl<'a> View for MarkupEvent<'a> {
    type V = EventModel<'a>;

    open spec fn view(&self) -> EventModel<'a> {
        match *self {
            MarkupEvent::LinkStart(kind, target, title) => EventModel::LinkStart(
                kind,
                target@,
                title@,
            ),
            MarkupEvent::LinkEnd(kind, target, title) => EventModel::LinkEnd(kind, target@, title@),
            MarkupEvent::Text(text) => EventModel::Text(text@),
            MarkupEvent::Code(text) => EventModel::Code(text@),
            MarkupEvent::Other(event) => EventModel::Other(event),
        }
    }
}

impl<'a> DeepView for MarkupEvent<'a> {
    type V = EventModel<'a>;

    open spec fn deep_view(&self) -> EventModel<'a> {
        self@
    }
}

impl<'a> EventModel<'a> {
    /// Whether the event begins or ends a link.
    pub open spec fn is_link_boundary(self) -> bool {
        self is LinkStart || self is LinkEnd
    }
}

/// The events that `pulldown_cmark::Parser` reads from `markdown` when no
/// extension is enabled and a reference without a definition links to its
/// own label.
pub uninterp spec fn markup_events(markdown: Seq<char>) -> Seq<EventModel<'static>>;

/// The text that `pulldown_cmark_to_cmark::cmark` writes for `events`,
/// starting from nothing.
pub uninterp spec fn rendered_markup(events: Seq<EventModel<'_>>) -> Seq<char>;

/// What a reference without a definition links to: its label, both as the
/// target and as the title.
pub fn echo_label(label: &str, _raw: &str) -> (link: Option<(String, String)>)
    ensures
        link matches Some(link) && link.0@ == label@ && link.1@ == label@,
{
    Some((label.to_owned(), label.to_owned()))
}

/// Runs `pulldown_cmark::Parser::new_with_broken_link_callback` over
/// `markdown`, with no extension and [`echo_label`] for broken references,
/// and collects its events: the start and the end of a link, text and inline
/// code by what they hold, every other event as it is. Believed, not proved:
/// the events are what [`markup_events`] names, the same for the same text.
#[verifier::external_body]
pub(crate) fn parse_markup<'a>(markdown: &'a str) -> (events: Vec<MarkupEvent<'a>>)
    ensures
        events.deep_view() == markup_events(markdown@),
{
    Parser::new_with_broken_link_callback(markdown, Options::empty(), Some(&echo_label))
        .map(|event| match event {
            Event::Start(Tag::Link(k, target, title)) => {
                MarkupEvent::LinkStart(k, target.into_string(), title.into_string())
            },
            Event::End(Tag::Link(k, target, title)) => {
                MarkupEvent::LinkEnd(k, target.into_string(), title.into_string())
            },
            Event::Text(text) => MarkupEvent::Text(text.into_string()),
            Event::Code(text) => MarkupEvent::Code(text.into_string()),
            other => MarkupEvent::Other(other),
        })
        .collect()
}

/// Hands `events`, each as the event of `pulldown_cmark` that it stands for,
/// to `pulldown_cmark_to_cmark::cmark` with a fresh string and no earlier
/// state, and returns the string. Believed, not proved: the text is what
/// [`rendered_markup`] names, the same for the same events.
#[verifier::external_body]
pub(crate) fn render_markup<'a>(events: Vec<MarkupEvent<'a>>) -> (text: String)
    ensures
        text@ == rendered_markup(events.deep_view()),
{
    let mut text = String::new();
    let events = events.into_iter().map(|event| match event {
        MarkupEvent::LinkStart(k, target, title) => Event::Start(Tag::Link(k, target.into(), title.into())),
        MarkupEvent::LinkEnd(k, target, title) => Event::End(Tag::Link(k, target.into(), title.into())),
        MarkupEvent::Text(text) => Event::Text(text.into()),
        MarkupEvent::Code(text) => Event::Code(text.into()),
        MarkupEvent::Other(event) => event,
    });
    cmark(events, &mut text, None).ok();
    text
}

} // verus!
