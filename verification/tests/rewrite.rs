use link_rewrite::markup::{echo_label, MarkupEvent};
use link_rewrite::path::{ModulePath, PathKind};
use link_rewrite::rewrite::{link_paths, map_links, rewrite_event, rewrite_links, LinkState};
use link_rewrite::symbols::{
    Attribute, Binding, CompilationUnit, Definition, Item, SymbolDatabase, Token,
};
use pulldown_cmark::{Event, LinkType, Options, Parser, Tag};
use pulldown_cmark_to_cmark::cmark;

fn owned(text: &str) -> String {
    text.to_string()
}

fn start(target: &str, title: &str) -> MarkupEvent<'static> {
    MarkupEvent::LinkStart(LinkType::Inline, owned(target), owned(title))
}

fn end(target: &str, title: &str) -> MarkupEvent<'static> {
    MarkupEvent::LinkEnd(LinkType::Inline, owned(target), owned(title))
}

fn text(text: &str) -> MarkupEvent<'static> {
    MarkupEvent::Text(owned(text))
}

fn code(text: &str) -> MarkupEvent<'static> {
    MarkupEvent::Code(owned(text))
}

/// Answers with the target and the text in upper case, each marked.
fn shout(target: &str, text: &str) -> (String, String) {
    (format!("<{}>", target.to_uppercase()), format!("<{}>", text.to_uppercase()))
}

fn unit_k() -> CompilationUnit {
    CompilationUnit {
        name: Some(owned("k")),
        root_attributes: Some(vec![Attribute {
            key: owned("doc"),
            tokens: Some(vec![
                Token::Ident(owned("html_root_url")),
                Token::Other,
                Token::Literal(owned("\"https://x\"")),
            ]),
        }]),
    }
}

fn struct_in_a(name: &str) -> Definition {
    Definition {
        item: Item::Struct(owned(name)),
        unit: Some(unit_k()),
        type_path: Some(vec![owned("a"), owned(name)]),
        value_path: None,
    }
}

fn db_with_foo() -> SymbolDatabase {
    SymbolDatabase {
        scope: Some(vec![Binding {
            path: ModulePath { kind: PathKind::Plain, segments: vec![owned("Foo")] },
            types: Some(struct_in_a("Foo")),
            values: None,
        }]),
    }
}

fn rendered_as_read(markdown: &str) -> String {
    let mut text = String::new();
    let events = Parser::new_with_broken_link_callback(markdown, Options::empty(), Some(&echo_label));
    cmark(events, &mut text, None).unwrap();
    text
}

#[test]
fn start_of_a_link_is_kept_and_remembered() {
    let (state, event) = rewrite_event(LinkState::OutsideLink, start("t", "title"), &shout);
    assert_eq!(state, LinkState::InsideLink(owned("t")));
    assert_eq!(event, start("t", "title"));
    let (state, event) = rewrite_event(LinkState::InsideLink(owned("old")), start("t", ""), &shout);
    assert_eq!(state, LinkState::InsideLink(owned("t")));
    assert_eq!(event, start("t", ""));
}

#[test]
fn text_in_a_link_is_answered() {
    let (state, event) = rewrite_event(LinkState::InsideLink(owned("t")), text("x"), &shout);
    assert_eq!(state, LinkState::InsideLink(owned("<T>")));
    assert_eq!(event, text("<X>"));
}

#[test]
fn code_in_a_link_is_answered() {
    let (state, event) = rewrite_event(LinkState::InsideLink(owned("t")), code("x"), &shout);
    assert_eq!(state, LinkState::InsideLink(owned("<T>")));
    assert_eq!(event, code("<X>"));
}

#[test]
fn text_and_code_outside_a_link_are_kept() {
    let (state, event) = rewrite_event(LinkState::OutsideLink, text("x"), &shout);
    assert_eq!(state, LinkState::OutsideLink);
    assert_eq!(event, text("x"));
    let (state, event) = rewrite_event(LinkState::OutsideLink, code("x"), &shout);
    assert_eq!(state, LinkState::OutsideLink);
    assert_eq!(event, code("x"));
}

#[test]
fn end_of_a_link_takes_the_target_in_mind_and_loses_its_title() {
    let (state, event) =
        rewrite_event(LinkState::InsideLink(owned("now")), end("then", "title"), &shout);
    assert_eq!(state, LinkState::OutsideLink);
    assert_eq!(event, end("now", ""));
}

#[test]
fn end_without_start_keeps_its_target_and_loses_its_title() {
    let (state, event) = rewrite_event(LinkState::OutsideLink, end("then", "title"), &shout);
    assert_eq!(state, LinkState::OutsideLink);
    assert_eq!(event, end("then", ""));
}

#[test]
fn other_events_are_kept_in_either_state() {
    let (state, event) =
        rewrite_event(LinkState::OutsideLink, MarkupEvent::Other(Event::SoftBreak), &shout);
    assert_eq!(state, LinkState::OutsideLink);
    assert_eq!(event, MarkupEvent::Other(Event::SoftBreak));
    let image = || Event::Start(Tag::Image(LinkType::Inline, "i.png".into(), "t".into()));
    let (state, event) =
        rewrite_event(LinkState::InsideLink(owned("t")), MarkupEvent::Other(image()), &shout);
    assert_eq!(state, LinkState::InsideLink(owned("t")));
    assert_eq!(event, MarkupEvent::Other(image()));
}

#[test]
fn last_answer_wins_within_a_link() {
    let events =
        vec![text("a"), start("t", "title"), code("b"), text("c"), end("t", "title"), text("d")];
    let emitted = map_links(events, shout);
    assert_eq!(
        emitted,
        vec![
            text("a"),
            start("t", "title"),
            code("<B>"),
            text("<C>"),
            end("<<T>>", ""),
            text("d"),
        ]
    );
}

#[test]
fn links_do_not_leak_into_each_other() {
    let events = vec![
        start("one", ""),
        text("a"),
        end("one", ""),
        MarkupEvent::Other(Event::SoftBreak),
        start("two", "t"),
        end("two", "t"),
        code("b"),
    ];
    let emitted = map_links(events, shout);
    assert_eq!(
        emitted,
        vec![
            start("one", ""),
            text("<A>"),
            end("<ONE>", ""),
            MarkupEvent::Other(Event::SoftBreak),
            start("two", "t"),
            end("two", ""),
            code("b"),
        ]
    );
}

#[test]
fn nothing_in_nothing_out() {
    assert_eq!(map_links(vec![], shout), vec![]);
}

#[test]
fn callback_may_capture() {
    let prefix = owned("https://x/");
    let events = vec![start("t", ""), text("x"), end("t", "")];
    let emitted = map_links(events, |target: &str, text: &str| {
        (format!("{}{}", prefix, target), owned(text))
    });
    assert_eq!(emitted, vec![start("t", ""), text("x"), end("https://x/t", "")]);
}

#[test]
fn document_without_links_is_rendered_as_read() {
    let db = db_with_foo();
    let item = struct_in_a("S");
    for markdown in [
        "",
        "Plain text.",
        "Some *text* and `code`.",
        "# Title\n\nFirst paragraph,\nsecond line.\n\n* one\n* two\n\n> quoted\n",
        "```rust\nlet x = 1;\n```\n",
        "An image: ![alt](i.png \"title\")",
        "1. one\n2. two\n",
    ] {
        assert_eq!(rewrite_links(&db, markdown, &item), rendered_as_read(markdown));
    }
    assert_eq!(rewrite_links(&db, "Some *text* and `code`.", &item), "Some *text* and `code`.");
}

#[test]
fn shortcut_link_to_a_symbol() {
    let text = rewrite_links(&db_with_foo(), "See [Foo] for more.", &struct_in_a("S"));
    assert_eq!(text, "See [Foo](https://x/k/a/struct.Foo.html) for more.");
}

#[test]
fn code_link_to_a_symbol() {
    let text = rewrite_links(&db_with_foo(), "See [`Foo`].", &struct_in_a("S"));
    assert_eq!(text, "See [`Foo`](https://x/k/a/struct.Foo.html).");
}

#[test]
fn disambiguator_leaves_the_text() {
    let text = rewrite_links(&db_with_foo(), "See [struct Foo].", &struct_in_a("S"));
    assert_eq!(text, "See [Foo](https://x/k/a/struct.Foo.html).");
}

#[test]
fn inline_link_with_a_path_as_target() {
    let text = rewrite_links(&db_with_foo(), "See [the struct](Foo \"a title\").", &struct_in_a("S"));
    assert_eq!(text, "See [the struct](https://x/k/a/struct.Foo.html).");
}

#[test]
fn reference_link_with_a_definition() {
    let markdown = "See [the struct][foo].\n\n[foo]: Foo\n";
    let text = rewrite_links(&db_with_foo(), markdown, &struct_in_a("S"));
    assert_eq!(text, "See [the struct](https://x/k/a/struct.Foo.html).");
}

#[test]
fn path_based_link() {
    let text =
        rewrite_links(&db_with_foo(), "See [T](../b/struct.T.html#x).", &struct_in_a("S"));
    assert_eq!(text, "See [T](https://x/k/b/struct.T.html#x).");
}

#[test]
fn absolute_link_keeps_target_and_text_and_loses_its_title() {
    let db = db_with_foo();
    let item = struct_in_a("S");
    assert_eq!(
        rewrite_links(&db, "See [`struct Foo`](https://example.com/Foo \"title\").", &item),
        "See [`struct Foo`](https://example.com/Foo)."
    );
}

#[test]
fn unresolved_link_keeps_target_and_text_and_loses_its_title() {
    let db = db_with_foo();
    let item = struct_in_a("S");
    assert_eq!(rewrite_links(&db, "See [Bar].", &item), "See [Bar](Bar).");
    assert_eq!(
        rewrite_links(&db, "See [bar](Bar \"title\") and [Foo].", &item),
        "See [bar](Bar) and [Foo](https://x/k/a/struct.Foo.html)."
    );
}

#[test]
fn second_text_of_a_link_meets_the_resolved_target() {
    // The text of this link comes in two events; the first resolves the
    // link, the second finds a URL as its target and stays as it is.
    let text = rewrite_links(&db_with_foo(), "[Foo *struct Foo*](Foo)", &struct_in_a("S"));
    assert_eq!(text, "[Foo*struct Foo*](https://x/k/a/struct.Foo.html)");
}

#[test]
fn links_are_resolved_in_document_order_and_independently() {
    let text = rewrite_links(&db_with_foo(), "[Bar], [Foo], [Bar], [`Foo`]", &struct_in_a("S"));
    assert_eq!(
        text,
        "[Bar](Bar), [Foo](https://x/k/a/struct.Foo.html), [Bar](Bar), \
         [`Foo`](https://x/k/a/struct.Foo.html)"
    );
}

#[test]
fn broken_reference_links_to_its_label() {
    assert_eq!(echo_label("Foo", "ignored"), Some((owned("Foo"), owned("Foo"))));
}

#[test]
fn malformed_markup_is_rewritten_without_failure() {
    let db = db_with_foo();
    let item = struct_in_a("S");
    for markdown in [
        "[",
        "]",
        "[[Foo]]",
        "[Foo](",
        "[Foo][",
        "[]",
        "[]()",
        "[`]",
        "![Foo]",
        "<a href=\"x\">[Foo]</a>",
        "\\[Foo\\]",
        "[Foo]: struct.Foo.html",
        "| a | b |\n|---|---|\n| [Foo] | c |",
        "\u{0}[Foo\u{0}]",
    ] {
        let _ = rewrite_links(&db, markdown, &item);
    }
    // The writer escapes a text that begins with a bracket.
    assert_eq!(rewrite_links(&db, "[[Foo]]", &item), "\\[[Foo](https://x/k/a/struct.Foo.html)]");
}

#[test]
fn paths_that_links_name() {
    let markdown = "See [Foo], [`a::B`], [x](../y.html), [z](https://e.com/), [`fn@f`]() and c.";
    assert_eq!(link_paths(markdown), vec![owned("Foo"), owned("a::B"), owned("f")]);
}

#[test]
fn paths_are_listed_once_for_each_text_in_a_link() {
    assert_eq!(link_paths("[Foo *Foo*](crate::Foo)"), vec![owned("crate::Foo"); 2]);
    assert_eq!(link_paths("[Foo *Bar*]()"), vec![owned("Foo"), owned("Bar")]);
}

#[test]
fn no_links_no_paths() {
    assert_eq!(link_paths(""), Vec::<String>::new());
    assert_eq!(link_paths("Some `code` and *text*, a::b."), Vec::<String>::new());
    assert_eq!(link_paths("[not a path!?]"), Vec::<String>::new());
}
