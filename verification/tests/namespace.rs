use link_rewrite::namespace::{strip_prefixes_suffixes, Namespace};

#[test]
fn no_disambiguator_names_no_namespace() {
    assert_eq!(Namespace::from_intra_spec(""), None);
    assert_eq!(Namespace::from_intra_spec("Foo"), None);
    assert_eq!(Namespace::from_intra_spec("super::gateway::Shard"), None);
}

#[test]
fn separator_directly_behind_the_prefix_is_not_seen() {
    assert_eq!(Namespace::from_intra_spec("struct MyStruct"), None);
    assert_eq!(Namespace::from_intra_spec("fn@from_intra_spec"), None);
    assert_eq!(Namespace::from_intra_spec("type@Foo"), None);
    assert_eq!(Namespace::from_intra_spec("macro@vec"), None);
}

#[test]
fn separator_one_place_behind_the_prefix_is_seen() {
    assert_eq!(Namespace::from_intra_spec("struct_ MyStruct"), Some(Namespace::Types));
    assert_eq!(Namespace::from_intra_spec("struct  MyStruct"), Some(Namespace::Types));
    assert_eq!(Namespace::from_intra_spec("enum.@E"), Some(Namespace::Types));
    assert_eq!(Namespace::from_intra_spec("fn_@from_intra_spec"), Some(Namespace::Values));
    assert_eq!(Namespace::from_intra_spec("const? X"), Some(Namespace::Values));
    assert_eq!(Namespace::from_intra_spec("macro! vec"), Some(Namespace::Macros));
}

#[test]
fn separator_must_exist() {
    assert_eq!(Namespace::from_intra_spec("fn"), None);
    assert_eq!(Namespace::from_intra_spec("fn_"), None);
    assert_eq!(Namespace::from_intra_spec("fn_@"), Some(Namespace::Values));
    assert_eq!(Namespace::from_intra_spec("panic!"), None);
    assert_eq!(Namespace::from_intra_spec("macro!"), None);
}

#[test]
fn types_go_before_values_and_values_before_macros() {
    assert_eq!(Namespace::from_intra_spec("mod_ a"), Some(Namespace::Types));
    assert_eq!(Namespace::from_intra_spec("module@@a"), Some(Namespace::Types));
    assert_eq!(Namespace::from_intra_spec("method_@a"), Some(Namespace::Values));
}

#[test]
fn a_longer_prefix_may_hide_behind_a_shorter_one() {
    // `mod` opens `module x`, but the character looked at is `l`; `module`
    // opens it too, and the character looked at is `x`.
    assert_eq!(Namespace::from_intra_spec("module x"), None);
    // Here `mod` sees the space at index 4.
    assert_eq!(Namespace::from_intra_spec("modu e"), Some(Namespace::Types));
}

#[test]
fn suffixes_are_looked_for_at_the_start() {
    assert_eq!(Namespace::from_intra_spec("foo()"), None);
    assert_eq!(Namespace::from_intra_spec("()_ foo"), Some(Namespace::Values));
    assert_eq!(Namespace::from_intra_spec("()_@foo"), Some(Namespace::Values));
    assert_eq!(Namespace::from_intra_spec("!_ foo"), Some(Namespace::Macros));
    assert_eq!(Namespace::from_intra_spec("! foo"), None);
}

#[test]
fn the_separator_is_counted_in_characters() {
    assert_eq!(Namespace::from_intra_spec("fn\u{e9}@x"), Some(Namespace::Values));
    assert_eq!(Namespace::from_intra_spec("fn\u{1f600} x"), Some(Namespace::Values));
}

#[test]
fn strips_code_marks() {
    assert_eq!(strip_prefixes_suffixes("`Foo`"), "Foo");
    assert_eq!(strip_prefixes_suffixes("``Foo``"), "Foo");
    assert_eq!(strip_prefixes_suffixes("`Foo"), "Foo");
    assert_eq!(strip_prefixes_suffixes("Fo`o"), "Fo`o");
    assert_eq!(strip_prefixes_suffixes("```"), "");
}

#[test]
fn strips_prefixes() {
    assert_eq!(strip_prefixes_suffixes("struct Foo"), "Foo");
    assert_eq!(strip_prefixes_suffixes("struct@Foo"), "Foo");
    assert_eq!(strip_prefixes_suffixes("type@Foo"), "Foo");
    assert_eq!(strip_prefixes_suffixes("enum@E"), "E");
    assert_eq!(strip_prefixes_suffixes("trait@T"), "T");
    assert_eq!(strip_prefixes_suffixes("union@U"), "U");
    assert_eq!(strip_prefixes_suffixes("value@V"), "V");
    assert_eq!(strip_prefixes_suffixes("function@f"), "f");
    assert_eq!(strip_prefixes_suffixes("fn@f"), "f");
    assert_eq!(strip_prefixes_suffixes("method@m"), "m");
    assert_eq!(strip_prefixes_suffixes("const@C"), "C");
    assert_eq!(strip_prefixes_suffixes("static@S"), "S");
    assert_eq!(strip_prefixes_suffixes("macro@vec"), "vec");
}

#[test]
fn strips_mod_before_module() {
    // `mod` goes first and leaves `ule`.
    assert_eq!(strip_prefixes_suffixes("module@a"), "ule@a");
    assert_eq!(strip_prefixes_suffixes("mod@a"), "a");
}

#[test]
fn strips_repeated_prefixes_and_suffixes() {
    assert_eq!(strip_prefixes_suffixes("structstruct Foo"), "Foo");
    assert_eq!(strip_prefixes_suffixes("foo()()"), "foo");
    assert_eq!(strip_prefixes_suffixes("vec!!"), "vec");
    assert_eq!(strip_prefixes_suffixes("@@x"), "x");
}

#[test]
fn strips_suffixes() {
    assert_eq!(strip_prefixes_suffixes("foo()"), "foo");
    assert_eq!(strip_prefixes_suffixes("panic!"), "panic");
    assert_eq!(strip_prefixes_suffixes("foo()!"), "foo()");
    assert_eq!(strip_prefixes_suffixes("foo!()"), "foo");
}

#[test]
fn strips_a_name_that_begins_like_a_prefix() {
    assert_eq!(strip_prefixes_suffixes("types"), "s");
    assert_eq!(strip_prefixes_suffixes("fnord"), "ord");
    assert_eq!(strip_prefixes_suffixes("enumerate"), "erate");
}

#[test]
fn strips_whitespace_last() {
    assert_eq!(strip_prefixes_suffixes("  Foo  "), "Foo");
    assert_eq!(strip_prefixes_suffixes("\tFoo\n"), "Foo");
    assert_eq!(strip_prefixes_suffixes("\u{a0}Foo\u{3000}"), "Foo");
    assert_eq!(strip_prefixes_suffixes("\u{2003}Foo\u{85}"), "Foo");
    assert_eq!(strip_prefixes_suffixes("\u{200b}Foo"), "\u{200b}Foo");
    assert_eq!(strip_prefixes_suffixes("Foo Bar"), "Foo Bar");
    // The leading space hides the prefix from the stage that removes it.
    assert_eq!(strip_prefixes_suffixes(" struct Foo"), "struct Foo");
}

#[test]
fn stages_run_in_a_fixed_order() {
    // `Values` follows `Types`, so `fn` goes and the `type` behind it stays.
    assert_eq!(strip_prefixes_suffixes("fntype x"), "type x");
    assert_eq!(strip_prefixes_suffixes("typefn x"), "x");
    assert_eq!(strip_prefixes_suffixes("@struct Foo"), "struct Foo");
}

#[test]
fn macro_bang_strips_to_nothing() {
    assert_eq!(strip_prefixes_suffixes("macro!"), "");
    assert_eq!(strip_prefixes_suffixes(""), "");
    assert_eq!(strip_prefixes_suffixes("struct"), "");
}

#[test]
fn stripping_twice_is_stripping_once_on_bare_results() {
    for input in ["`struct Foo`", "foo()", "panic!", "  a::b  ", "fn@f", "x", "", "macro!"] {
        let once = strip_prefixes_suffixes(input);
        assert_eq!(strip_prefixes_suffixes(once), once);
    }
}

#[test]
fn stripping_twice_goes_on_where_a_stage_uncovered_something() {
    let once = strip_prefixes_suffixes("@struct Foo");
    assert_eq!(once, "struct Foo");
    assert_eq!(strip_prefixes_suffixes(once), "Foo");
    let once = strip_prefixes_suffixes("macro@struct@Foo");
    assert_eq!(once, "struct@Foo");
    assert_eq!(strip_prefixes_suffixes(once), "Foo");
}

#[test]
fn the_result_is_a_part_of_the_input() {
    let input = String::from("`fn@caf\u{e9}()`");
    assert_eq!(strip_prefixes_suffixes(&input), "caf\u{e9}");
}
