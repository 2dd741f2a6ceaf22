use link_rewrite::path::{parse_module_path, ModulePath, PathKind};

fn path(kind: PathKind, segments: &[&str]) -> Option<ModulePath> {
    Some(ModulePath { kind, segments: segments.iter().map(|s| s.to_string()).collect() })
}

#[test]
fn plain_paths() {
    assert_eq!(parse_module_path("Foo"), path(PathKind::Plain, &["Foo"]));
    assert_eq!(parse_module_path("a::b::C"), path(PathKind::Plain, &["a", "b", "C"]));
    assert_eq!(parse_module_path("_a::b2::__"), path(PathKind::Plain, &["_a", "b2", "__"]));
}

#[test]
fn paths_from_the_unit_root() {
    assert_eq!(parse_module_path("crate"), path(PathKind::Crate, &[]));
    assert_eq!(parse_module_path("crate::a::B"), path(PathKind::Crate, &["a", "B"]));
}

#[test]
fn paths_from_enclosing_modules() {
    assert_eq!(parse_module_path("self"), path(PathKind::Super(0), &[]));
    assert_eq!(parse_module_path("self::a"), path(PathKind::Super(0), &["a"]));
    assert_eq!(parse_module_path("super"), path(PathKind::Super(1), &[]));
    assert_eq!(
        parse_module_path("super::gateway::Shard"),
        path(PathKind::Super(1), &["gateway", "Shard"])
    );
    assert_eq!(parse_module_path("super::super::m::S"), path(PathKind::Super(2), &["m", "S"]));
}

#[test]
fn absolute_paths() {
    assert_eq!(parse_module_path("::std::vec::Vec"), path(PathKind::Abs, &["std", "vec", "Vec"]));
    assert_eq!(parse_module_path("::"), None);
    assert_eq!(parse_module_path("::::a"), None);
}

#[test]
fn at_most_255_levels_up() {
    let mut text = String::from("super");
    for _ in 1..255 {
        text.push_str("::super");
    }
    assert_eq!(parse_module_path(&text), path(PathKind::Super(255), &[]));
    text.push_str("::super");
    assert_eq!(parse_module_path(&text), None);
}

#[test]
fn what_is_no_path() {
    assert_eq!(parse_module_path(""), None);
    assert_eq!(parse_module_path("_"), None);
    assert_eq!(parse_module_path("1a"), None);
    assert_eq!(parse_module_path("a b"), None);
    assert_eq!(parse_module_path("a::"), None);
    assert_eq!(parse_module_path("a:b"), None);
    assert_eq!(parse_module_path("a:::b"), None);
    assert_eq!(parse_module_path("a::b::"), None);
    assert_eq!(parse_module_path("Vec<T>"), None);
    assert_eq!(parse_module_path("caf\u{e9}"), None);
    assert_eq!(parse_module_path("../struct.Foo.html"), None);
    assert_eq!(parse_module_path("https://example.com"), None);
}

#[test]
fn leading_words_only_lead() {
    assert_eq!(parse_module_path("a::crate"), None);
    assert_eq!(parse_module_path("a::self"), None);
    assert_eq!(parse_module_path("a::super"), None);
    assert_eq!(parse_module_path("crate::super"), None);
    assert_eq!(parse_module_path("self::super::a"), None);
    assert_eq!(parse_module_path("super::a::super"), None);
    assert_eq!(parse_module_path("::crate"), None);
}

#[test]
fn names_that_begin_like_leading_words() {
    assert_eq!(parse_module_path("crates::selfish"), path(PathKind::Plain, &["crates", "selfish"]));
    assert_eq!(parse_module_path("superb"), path(PathKind::Plain, &["superb"]));
    assert_eq!(parse_module_path("Self"), path(PathKind::Plain, &["Self"]));
}
