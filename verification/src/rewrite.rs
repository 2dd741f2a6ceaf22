//! The pass over a document that rewrites its links.
//!
//! The pass reads the events once, from first to last, and keeps one thing in
//! mind: whether it is inside a link, and if so the target that the link has
//! by now. Each text and each piece of inline code inside a link is shown to
//! a callback together with that target; the callback answers with the new
//! target and the new text.

use crate::markup::{
    markup_events, parse_markup, render_markup, rendered_markup, EventModel, MarkupEvent,
};
use crate::namespace::{strip_prefixes_suffixes, stripped};
use crate::path::{module_path_of, parse_module_path};
use crate::resolve::{
    effective_target, intra_resolution, link_resolution, path_resolution, resolve_link,
};
use crate::symbols::{Definition, DefinitionModel, SymbolDatabase, SymbolDatabaseModel};
use crate::text::{occurs_in, trim_code_marks};
use pulldown_cmark::LinkType;
use vstd::prelude::*;

verus! {

/// What the pass keeps in mind between two events.
#[derive(PartialEq, Eq, Clone, Debug)]
pub enum LinkState {
    /// No link is open.
    OutsideLink,
    /// A link is open, and this is its target by now.
    InsideLink(String),
}

/// The mathematical value of a [`LinkState`].
pub enum LinkStateModel {
    OutsideLink,
    InsideLink(Seq<char>),
}

impl View for LinkState {
    type V = LinkStateModel;

    open spec fn view(&self) -> LinkStateModel {
        match self {
            LinkState::OutsideLink => LinkStateModel::OutsideLink,
            LinkState::InsideLink(target) => LinkStateModel::InsideLink(target@),
        }
    }
}

/// A rule that says, for a target and a text, the new target and text.
pub type LinkRule = spec_fn(Seq<char>, Seq<char>) -> (Seq<char>, Seq<char>);

/// Whether `callback` may answer `(target, text)` with `answer`.
pub open spec fn answers<F: Fn(&str, &str) -> (String, String)>(
    callback: F,
    target: Seq<char>,
    text: Seq<char>,
    answer: (Seq<char>, Seq<char>),
) -> bool {
    exists|t: &str, x: &str, r: (String, String)|
        t@ == target && x@ == text && r.deep_view() == answer && #[trigger] call_ensures(
            callback,
            (t, x),
            r,
        )
}

/// Whether `callback` follows `rule`: whatever it answers is what the rule
/// says.
pub open spec fn follows<F: Fn(&str, &str) -> (String, String)>(callback: F, rule: LinkRule) -> bool {
    forall|t: &str, x: &str, r: (String, String)| #[trigger]
        call_ensures(callback, (t, x), r) ==> r.deep_view() == rule(t@, x@)
}

/// The state after an event and the event that is emitted for it, under a
/// rule.
///
/// The start of a link is emitted as it is, and its target is kept in mind.
/// Text and inline code inside a link are replaced by the text that the rule
/// gives, and the target in mind by the target that it gives. The end of a
/// link is emitted with the target in mind and without a title; where no link
/// is open it keeps its own target. Everything else is emitted as it is.
pub open spec fn step<'a>(rule: LinkRule, state: LinkStateModel, event: EventModel<'a>) -> (
    LinkStateModel,
    EventModel<'a>,
) {
    match event {
        EventModel::LinkStart(kind, target, title) => (LinkStateModel::InsideLink(target), event),
        EventModel::LinkEnd(kind, target, title) => (
            LinkStateModel::OutsideLink,
            EventModel::LinkEnd(
                kind,
                match state {
                    LinkStateModel::InsideLink(pending) => pending,
                    LinkStateModel::OutsideLink => target,
                },
                Seq::empty(),
            ),
        ),
        EventModel::Text(text) => match state {
            LinkStateModel::InsideLink(pending) => (
                LinkStateModel::InsideLink(rule(pending, text).0),
                EventModel::Text(rule(pending, text).1),
            ),
            LinkStateModel::OutsideLink => (state, event),
        },
        EventModel::Code(text) => match state {
            LinkStateModel::InsideLink(pending) => (
                LinkStateModel::InsideLink(rule(pending, text).0),
                EventModel::Code(rule(pending, text).1),
            ),
            LinkStateModel::OutsideLink => (state, event),
        },
        EventModel::Other(_) => (state, event),
    }
}

/// Whether `next` and `emitted` are a state and an event that the pass may
/// reach from `state` on `event` with `callback`: what [`step`] gives under
/// some rule whose answer here is one that the callback may give.
pub open spec fn may_step<'a, F: Fn(&str, &str) -> (String, String)>(
    callback: F,
    state: LinkStateModel,
    event: EventModel<'a>,
    next: LinkStateModel,
    emitted: EventModel<'a>,
) -> bool {
    match (state, event) {
        (LinkStateModel::InsideLink(pending), EventModel::Text(text)) => {
            &&& next matches LinkStateModel::InsideLink(new_target)
            &&& emitted matches EventModel::Text(new_text)
            &&& answers(callback, pending, text, (new_target, new_text))
        },
        (LinkStateModel::InsideLink(pending), EventModel::Code(text)) => {
            &&& next matches LinkStateModel::InsideLink(new_target)
            &&& emitted matches EventModel::Code(new_text)
            &&& answers(callback, pending, text, (new_target, new_text))
        },
        _ => {
            &&& next == step(keep_rule(), state, event).0
            &&& emitted == step(keep_rule(), state, event).1
        },
    }
}

/// The events that the pass emits for `events` under a rule, when it begins
/// in `state`.
pub open spec fn rewritten_from<'a>(
    rule: LinkRule,
    state: LinkStateModel,
    events: Seq<EventModel<'a>>,
) -> Seq<EventModel<'a>>
    decreases events.len(),
{
    if events.len() == 0 {
        Seq::empty()
    } else {
        seq![step(rule, state, events[0]).1] + rewritten_from(
            rule,
            step(rule, state, events[0]).0,
            events.skip(1),
        )
    }
}

/// The events that the pass emits for a whole document under a rule.
pub open spec fn rewritten<'a>(rule: LinkRule, events: Seq<EventModel<'a>>) -> Seq<
    EventModel<'a>,
> {
    rewritten_from(rule, LinkStateModel::OutsideLink, events)
}

/// Whether `states` are the states that the pass may go through, from
/// outside any link, while it turns `events` into `emitted` with `callback`.
pub open spec fn is_trace<'a, F: Fn(&str, &str) -> (String, String)>(
    callback: F,
    events: Seq<EventModel<'a>>,
    emitted: Seq<EventModel<'a>>,
    states: Seq<LinkStateModel>,
) -> bool {
    &&& emitted.len() == events.len()
    &&& states.len() == events.len() + 1
    &&& states[0] == LinkStateModel::OutsideLink
    &&& forall|i: int|
        0 <= i < events.len() ==> may_step(
            callback,
            #[trigger] states[i],
            events[i],
            states[i + 1],
            emitted[i],
        )
}

/// Whether the pass may turn `events` into `emitted` with `callback`.
pub open spec fn may_rewrite<'a, F: Fn(&str, &str) -> (String, String)>(
    callback: F,
    events: Seq<EventModel<'a>>,
    emitted: Seq<EventModel<'a>>,
) -> bool {
    exists|states: Seq<LinkStateModel>| is_trace(callback, events, emitted, states)
}

/// The rule by which links are resolved for a documented item.
pub open spec fn resolution_rule(db: SymbolDatabaseModel, definition: DefinitionModel) -> LinkRule {
    |target: Seq<char>, text: Seq<char>| link_resolution(db, definition, target, text)
}

/// Takes one event through the pass.
pub fn rewrite_event<'a, F: Fn(&str, &str) -> (String, String)>(
    state: LinkState,
    event: MarkupEvent<'a>,
    callback: &F,
) -> (after: (LinkState, MarkupEvent<'a>))
    requires
        forall|t: &str, x: &str| call_requires(*callback, (t, x)),
    ensures
        may_step(*callback, state@, event@, after.0@, after.1@),
{
    match event {
        MarkupEvent::LinkStart(kind, target, title) => {
            let pending = target.clone();
            (LinkState::InsideLink(pending), MarkupEvent::LinkStart(kind, target, title))
        },
        MarkupEvent::LinkEnd(kind, target, _title) => {
            let target = match state {
                LinkState::InsideLink(pending) => pending,
                LinkState::OutsideLink => target,
            };
            (LinkState::OutsideLink, MarkupEvent::LinkEnd(kind, target, String::new()))
        },
        MarkupEvent::Text(text) => match state {
            LinkState::InsideLink(pending) => {
                let answer = callback(pending.as_str(), text.as_str());
                assert(answers(*callback, pending@, text@, (answer.0@, answer.1@)));
                (LinkState::InsideLink(answer.0), MarkupEvent::Text(answer.1))
            },
            LinkState::OutsideLink => (LinkState::OutsideLink, MarkupEvent::Text(text)),
        },
        MarkupEvent::Code(text) => match state {
            LinkState::InsideLink(pending) => {
                let answer = callback(pending.as_str(), text.as_str());
                assert(answers(*callback, pending@, text@, (answer.0@, answer.1@)));
                (LinkState::InsideLink(answer.0), MarkupEvent::Code(answer.1))
            },
            LinkState::OutsideLink => (LinkState::OutsideLink, MarkupEvent::Code(text)),
        },
        MarkupEvent::Other(event) => (state, MarkupEvent::Other(event)),
    }
}

/// Rewrites the links of a document: each text and each piece of inline code
/// inside a link is replaced by what `callback` answers, and each link ends
/// on the target that the callback answered last, without a title.
pub fn map_links<'a, F: Fn(&str, &str) -> (String, String)>(
    events: Vec<MarkupEvent<'a>>,
    callback: F,
) -> (emitted: Vec<MarkupEvent<'a>>)
    requires
        forall|t: &str, x: &str| call_requires(callback, (t, x)),
    ensures
        may_rewrite(callback, events.deep_view(), emitted.deep_view()),
{
    let ghost all = events.deep_view();
    let ghost mut states: Seq<LinkStateModel> = seq![LinkStateModel::OutsideLink];
    let mut state = LinkState::OutsideLink;
    let mut emitted: Vec<MarkupEvent<'a>> = Vec::new();
    for event in it: events
        invariant
            it.seq() == events@,
            all == events.deep_view(),
            forall|t: &str, x: &str| call_requires(callback, (t, x)),
            emitted.len() == it.index(),
            states.len() == it.index() + 1,
            states[0] == LinkStateModel::OutsideLink,
            states.last() == state@,
            forall|i: int|
                0 <= i < it.index() ==> may_step(
                    callback,
                    #[trigger] states[i],
                    all[i],
                    states[i + 1],
                    emitted@[i]@,
                ),
    {
        let after = rewrite_event(state, event, &callback);
        proof {
            states = states.push(after.0@);
        }
        state = after.0;
        emitted.push(after.1);
    }
    proof {
        assert(is_trace(callback, all, emitted.deep_view(), states));
    }
    emitted
}

/// With a callback that follows a rule, the pass emits what the rule gives.
pub proof fn lemma_rewrite_follows_rule<'a, F: Fn(&str, &str) -> (String, String)>(
    callback: F,
    rule: LinkRule,
    events: Seq<EventModel<'a>>,
    emitted: Seq<EventModel<'a>>,
)
    requires
        follows(callback, rule),
        may_rewrite(callback, events, emitted),
    ensures
        emitted == rewritten(rule, events),
{
    let states = choose|states: Seq<LinkStateModel>| is_trace(callback, events, emitted, states);
    lemma_trace_follows_rule(callback, rule, events, emitted, states, 0);
    assert(events.skip(0) =~= events);
    assert(emitted.skip(0) =~= emitted);
}

proof fn lemma_trace_follows_rule<'a, F: Fn(&str, &str) -> (String, String)>(
    callback: F,
    rule: LinkRule,
    events: Seq<EventModel<'a>>,
    emitted: Seq<EventModel<'a>>,
    states: Seq<LinkStateModel>,
    from: int,
)
    requires
        follows(callback, rule),
        is_trace(callback, events, emitted, states),
        0 <= from <= events.len(),
    ensures
        emitted.skip(from) == rewritten_from(rule, states[from], events.skip(from)),
    decreases events.len() - from,
{
    if from < events.len() {
        lemma_trace_follows_rule(callback, rule, events, emitted, states, from + 1);
        assert(may_step(callback, states[from], events[from], states[from + 1], emitted[from]));
        assert(events.skip(from).skip(1) =~= events.skip(from + 1));
        assert(states[from + 1] == step(rule, states[from], events[from]).0);
        assert(emitted[from] == step(rule, states[from], events[from]).1);
        assert(emitted.skip(from) =~= seq![emitted[from]] + emitted.skip(from + 1));
    } else {
        assert(emitted.skip(from) =~= Seq::empty());
    }
}

/// Inside a link whose target holds `://`, text and inline code pass as they
/// are, and the target stays as it is.
pub proof fn lemma_absolute_link_kept(
    db: SymbolDatabaseModel,
    definition: DefinitionModel,
    target: Seq<char>,
    text: Seq<char>,
)
    requires
        occurs_in("://"@, target),
    ensures
        step(
            resolution_rule(db, definition),
            LinkStateModel::InsideLink(target),
            EventModel::Text(text),
        ) == (LinkStateModel::InsideLink(target), EventModel::Text(text)),
        step(
            resolution_rule(db, definition),
            LinkStateModel::InsideLink(target),
            EventModel::Code(text),
        ) == (LinkStateModel::InsideLink(target), EventModel::Code(text)),
{
}

/// Inside a link that neither resolution resolves, text and inline code pass
/// as they are, and the target stays as it is.
pub proof fn lemma_unresolved_link_kept(
    db: SymbolDatabaseModel,
    definition: DefinitionModel,
    target: Seq<char>,
    text: Seq<char>,
)
    requires
        intra_resolution(db, text, target) is None,
        path_resolution(definition, target) is None,
    ensures
        step(
            resolution_rule(db, definition),
            LinkStateModel::InsideLink(target),
            EventModel::Text(text),
        ) == (LinkStateModel::InsideLink(target), EventModel::Text(text)),
        step(
            resolution_rule(db, definition),
            LinkStateModel::InsideLink(target),
            EventModel::Code(text),
        ) == (LinkStateModel::InsideLink(target), EventModel::Code(text)),
{
}

/// The end of a link is emitted with the target in mind and without a title,
/// whatever the rule and whatever title it had.
pub proof fn lemma_link_end_loses_title(
    rule: LinkRule,
    target: Seq<char>,
    kind: LinkType,
    written: Seq<char>,
    title: Seq<char>,
)
    ensures
        step(rule, LinkStateModel::InsideLink(target), EventModel::LinkEnd(kind, written, title))
            == (LinkStateModel::OutsideLink, EventModel::LinkEnd(kind, target, Seq::empty())),
{
}

/// A document without links passes as it is, whatever the rule.
pub proof fn lemma_no_links_unchanged<'a>(rule: LinkRule, events: Seq<EventModel<'a>>)
    requires
        forall|i: int| 0 <= i < events.len() ==> !(#[trigger] events[i]).is_link_boundary(),
    ensures
        rewritten(rule, events) == events,
    decreases events.len(),
{
    if 0 < events.len() {
        lemma_no_links_unchanged(rule, events.skip(1));
        assert(events =~= seq![events[0]] + events.skip(1));
    }
}

/// The rule that changes nothing.
pub open spec fn keep_rule() -> LinkRule {
    |target: Seq<char>, text: Seq<char>| (target, text)
}

/// The path that a text inside a link asks to have resolved, as it is
/// written: the target in mind, or the text where the target is empty,
/// without disambiguators; nothing where that spells no path.
pub open spec fn path_text_at<'a>(state: LinkStateModel, event: EventModel<'a>) -> Option<
    Seq<char>,
> {
    match (state, event) {
        (LinkStateModel::InsideLink(pending), EventModel::Text(text))
        | (LinkStateModel::InsideLink(pending), EventModel::Code(text)) => {
            let bare = stripped(effective_target(text, pending));
            if module_path_of(bare) is Some {
                Some(bare)
            } else {
                None
            }
        },
        _ => None,
    }
}

/// The paths that the texts inside the links of `events` ask for, in the
/// order of the document, for a pass that begins in `state` and leaves every
/// target as it is.
pub open spec fn path_texts_from<'a>(state: LinkStateModel, events: Seq<EventModel<'a>>) -> Seq<
    Seq<char>,
>
    decreases events.len(),
{
    if events.len() == 0 {
        Seq::empty()
    } else {
        let rest = path_texts_from(step(keep_rule(), state, events[0]).0, events.skip(1));
        match path_text_at(state, events[0]) {
            Some(bare) => seq![bare] + rest,
            None => rest,
        }
    }
}

/// The paths that the links of a document name, as they are written.
///
/// These are the paths to resolve where the documented item stands, before
/// a [`SymbolDatabase`] can be filled for [`rewrite_links`]. The texts are
/// [`path_texts_from`] the events of `markdown`, each without disambiguators;
/// a text that spells no path is left out.
pub fn link_paths(markdown: &str) -> (paths: Vec<String>)
    ensures
        paths.deep_view() == path_texts_from(
            LinkStateModel::OutsideLink,
            markup_events(markdown@),
        ),
{
    let events = parse_markup(markdown);
    let ghost all = events.deep_view();
    let ghost mut pending = LinkStateModel::OutsideLink;
    let mut target: Option<String> = None;
    let mut paths: Vec<String> = Vec::new();
    assert(all.skip(0) =~= all);
    for event in it: events
        invariant
            it.seq() == events@,
            all == events.deep_view(),
            pending == match target {
                Some(target) => LinkStateModel::InsideLink(target@),
                None => LinkStateModel::OutsideLink,
            },
            path_texts_from(LinkStateModel::OutsideLink, all) == paths.deep_view()
                + path_texts_from(pending, all.skip(it.index())),
    {
        let ghost i = it.index();
        let ghost found = paths.deep_view();
        let ghost rest = path_texts_from(step(keep_rule(), pending, all[i]).0, all.skip(i + 1));
        assert(all.skip(i).skip(1) =~= all.skip(i + 1));
        assert(all.skip(i)[0] == event@);
        match event {
            MarkupEvent::LinkStart(_, link_target, _) => {
                target = Some(link_target);
            },
            MarkupEvent::LinkEnd(_, _, _) => {
                target = None;
            },
            MarkupEvent::Text(text) | MarkupEvent::Code(text) => {
                match &target {
                    Some(link_target) => {
                        let written = if link_target.as_str().is_empty() {
                            trim_code_marks(text.as_str())
                        } else {
                            link_target.as_str()
                        };
                        let bare = strip_prefixes_suffixes(written);
                        if parse_module_path(bare).is_some() {
                            paths.push(bare.to_owned());
                            assert(paths.deep_view() =~= found.push(bare@));
                            assert(found + (seq![bare@] + rest) =~= found.push(bare@) + rest);
                        }
                    },
                    None => {},
                }
            },
            MarkupEvent::Other(_) => {},
        }
        proof {
            pending = step(keep_rule(), pending, all[i]).0;
        }
    }
    assert(all.skip(all.len() as int) =~= Seq::empty());
    assert(paths.deep_view() + Seq::<Seq<char>>::empty() =~= paths.deep_view());
    paths
}

/// Rewrites the links of a documentation comment so that they point to the
/// documentation host.
///
/// The text is read as markup, its links are resolved for the documented
/// item by [`resolve_link`], and the events are written back as text: the
/// result is the rendering of the events of `markdown`, rewritten under the
/// [`resolution_rule`] of `db` and `definition`.
pub fn rewrite_links(db: &SymbolDatabase, markdown: &str, definition: &Definition) -> (text: String)
    ensures
        text@ == rendered_markup(
            rewritten(resolution_rule(db@, definition@), markup_events(markdown@)),
        ),
        (forall|i: int|
            0 <= i < markup_events(markdown@).len() ==> !(#[trigger] markup_events(
                markdown@,
            )[i]).is_link_boundary()) ==> text@ == rendered_markup(markup_events(markdown@)),
{
    proof {
        if forall|i: int|
            0 <= i < markup_events(markdown@).len() ==> !(#[trigger] markup_events(
                markdown@,
            )[i]).is_link_boundary() {
            lemma_no_links_unchanged(
                resolution_rule(db@, definition@),
                markup_events(markdown@),
            );
        }
    }
    let events = parse_markup(markdown);
    let ghost before = events.deep_view();
    let resolve = |target: &str, text: &str| -> (link: (String, String))
        ensures
            link.deep_view() == link_resolution(db@, definition@, target@, text@),
        { resolve_link(db, definition, target, text) };
    let emitted = map_links(events, resolve);
    proof {
        lemma_rewrite_follows_rule(
            resolve,
            resolution_rule(db@, definition@),
            before,
            emitted.deep_view(),
        );
    }
    render_markup(emitted)
}

} // verus!
