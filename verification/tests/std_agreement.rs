use link_rewrite::doc_url::normalize_root;
use link_rewrite::namespace::{strip_prefixes_suffixes, Namespace};
use link_rewrite::text::{char_is_whitespace, contains, same_text, to_chars, trim_code_marks};

const TYPES: (&[&str], &[&str]) =
    (&["type", "struct", "enum", "mod", "trait", "union", "module"], &[]);
const VALUES: (&[&str], &[&str]) =
    (&["value", "function", "fn", "method", "const", "static", "mod", "module"], &["()"]);
const MACROS: (&[&str], &[&str]) = (&["macro"], &["!"]);

const WORDS: &[&str] = &[
    "`", "@", " ", "\t", "\u{a0}", ":", "fn", "mod", "ule", "type", "struct", "macro", "()", "!",
    "x", "\u{e9}", "\"", "/",
];

/// Every text made of up to `length` of the words.
fn texts(length: usize) -> Vec<String> {
    let mut all = vec![String::new()];
    let mut last = vec![String::new()];
    for _ in 0..length {
        let mut next = Vec::new();
        for text in &last {
            for word in WORDS {
                next.push(format!("{}{}", text, word));
            }
        }
        all.extend(next.iter().cloned());
        last = next;
    }
    all
}

/// The stripping, step by step, with the functions of `std`.
fn stripped_by_std(mut s: &str) -> &str {
    s = s.trim_matches('`');
    for (prefixes, suffixes) in [TYPES, VALUES, MACROS] {
        for prefix in prefixes {
            s = s.trim_start_matches(prefix);
        }
        for suffix in suffixes {
            s = s.trim_end_matches(suffix);
        }
    }
    s.trim_start_matches("@").trim()
}

/// The namespace that a text names, with the functions of `std`.
fn named_by_std(s: &str) -> Option<Namespace> {
    let marks = |marker: &&str| {
        s.starts_with(*marker)
            && s.chars().nth(marker.len() + 1).map(|c| c == '@' || c == ' ').unwrap_or(false)
    };
    [(Namespace::Types, TYPES), (Namespace::Values, VALUES), (Namespace::Macros, MACROS)]
        .iter()
        .filter(|(_, (prefixes, suffixes))| prefixes.iter().any(marks) || suffixes.iter().any(marks))
        .map(|(namespace, _)| *namespace)
        .next()
}

#[test]
fn whitespace_is_what_std_calls_whitespace() {
    for code in 0..=0x10ffff_u32 {
        if let Some(c) = char::from_u32(code) {
            assert_eq!(char_is_whitespace(c), c.is_whitespace(), "U+{:04X}", code);
        }
    }
}

#[test]
fn stripping_agrees_with_std() {
    for text in texts(4) {
        assert_eq!(strip_prefixes_suffixes(&text), stripped_by_std(&text), "{:?}", text);
    }
}

#[test]
fn namespaces_agree_with_std() {
    for text in texts(4) {
        assert_eq!(Namespace::from_intra_spec(&text), named_by_std(&text), "{:?}", text);
    }
}

#[test]
fn code_marks_agree_with_std() {
    for text in texts(3) {
        assert_eq!(trim_code_marks(&text), text.trim_matches('`'), "{:?}", text);
    }
}

#[test]
fn roots_agree_with_std() {
    for text in texts(3) {
        let by_std = text.trim_matches('"').trim_end_matches("/").to_owned() + "/";
        assert_eq!(normalize_root(&text), by_std, "{:?}", text);
    }
}

#[test]
fn search_agrees_with_std() {
    let all = texts(3);
    for pattern in ["://", "#", ".html", "", "x", "fn", "\u{e9}", "::", "!!"] {
        for text in &all {
            assert_eq!(contains(text, pattern), text.contains(pattern), "{:?} in {:?}", pattern, text);
        }
    }
    assert!(contains("a://b", "://"));
    assert!(contains("struct.S.html", ".html"));
    assert!(!contains("struct.S.htm", ".html"));
    assert!(!contains("", "#"));
}

#[test]
fn texts_are_the_same_by_their_characters() {
    assert!(same_text("", ""));
    assert!(same_text("doc", "doc"));
    assert!(!same_text("doc", "docs"));
    assert!(!same_text("doc", "dog"));
    assert!(!same_text("doc", ""));
    assert_eq!(to_chars("a\u{e9}\u{1f600}"), vec!['a', '\u{e9}', '\u{1f600}']);
}
