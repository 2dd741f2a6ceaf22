use link_rewrite::doc_url::{
    find_configured_root, find_first_configured_root, get_doc_url, normalize_root,
};
use link_rewrite::symbols::{Attribute, CompilationUnit, Token};

fn ident(text: &str) -> Token {
    Token::Ident(text.to_string())
}

fn literal(text: &str) -> Token {
    Token::Literal(text.to_string())
}

fn doc(tokens: Vec<Token>) -> Attribute {
    Attribute { key: "doc".to_string(), tokens: Some(tokens) }
}

fn unit(name: Option<&str>, attributes: Option<Vec<Attribute>>) -> CompilationUnit {
    CompilationUnit { name: name.map(|n| n.to_string()), root_attributes: attributes }
}

#[test]
fn unit_without_configuration_is_looked_for_on_the_host() {
    let widgets = unit(Some("widgets"), Some(vec![]));
    assert_eq!(get_doc_url(&widgets).unwrap(), "https://docs.rs/widgets/*/");
}

#[test]
fn configured_root_wins() {
    let attributes =
        vec![doc(vec![ident("html_root_url"), Token::Other, literal("\"https://x.test/api\"")])];
    let widgets = unit(Some("widgets"), Some(attributes));
    assert_eq!(get_doc_url(&widgets).unwrap(), "https://x.test/api/");
}

#[test]
fn root_ends_in_exactly_one_slash() {
    assert_eq!(normalize_root("\"https://x.test\""), "https://x.test/");
    assert_eq!(normalize_root("\"https://x.test/\""), "https://x.test/");
    assert_eq!(normalize_root("\"https://x.test///\""), "https://x.test/");
    assert_eq!(normalize_root("https://x.test/a"), "https://x.test/a/");
    assert_eq!(normalize_root("\"\"https://x.test\"\""), "https://x.test/");
    assert_eq!(normalize_root(""), "/");
    // A slash before the closing quote goes; one inside stays.
    assert_eq!(normalize_root("\"a/b/\""), "a/b/");
    // Quotes go before slashes: a quote behind a slash is not reached again.
    assert_eq!(normalize_root("x/\"/"), "x/\"/");
}

#[test]
fn literal_stands_two_tokens_behind_the_key() {
    let found = vec![ident("html_root_url"), Token::Other, literal("\"u\"")];
    assert_eq!(find_configured_root(&found), Some(&"\"u\"".to_string()));
    let too_near = vec![ident("html_root_url"), literal("\"u\"")];
    assert_eq!(find_configured_root(&too_near), None);
    let too_far = vec![ident("html_root_url"), Token::Other, Token::Other, literal("\"u\"")];
    assert_eq!(find_configured_root(&too_far), None);
    let not_a_literal = vec![ident("html_root_url"), Token::Other, ident("u")];
    assert_eq!(find_configured_root(&not_a_literal), None);
    let no_key = vec![ident("html_logo_url"), Token::Other, literal("\"u\"")];
    assert_eq!(find_configured_root(&no_key), None);
    assert_eq!(find_configured_root(&vec![]), None);
}

#[test]
fn only_the_first_key_counts() {
    let tokens = vec![
        ident("html_logo_url"),
        Token::Other,
        literal("\"logo\""),
        Token::Other,
        ident("html_root_url"),
        Token::Other,
        ident("oops"),
        Token::Other,
        ident("html_root_url"),
        Token::Other,
        literal("\"late\""),
    ];
    assert_eq!(find_configured_root(&tokens), None);
    let tokens = vec![
        ident("html_logo_url"),
        Token::Other,
        literal("\"logo\""),
        Token::Other,
        ident("html_root_url"),
        Token::Other,
        literal("\"root\""),
    ];
    assert_eq!(find_configured_root(&tokens), Some(&"\"root\"".to_string()));
}

#[test]
fn first_attribute_that_configures_a_root_decides() {
    let attributes = vec![
        Attribute { key: "doc".to_string(), tokens: None },
        Attribute {
            key: "cfg".to_string(),
            tokens: Some(vec![ident("html_root_url"), Token::Other, literal("\"cfg\"")]),
        },
        doc(vec![ident("hidden")]),
        doc(vec![ident("html_root_url"), Token::Other, literal("\"first\"")]),
        doc(vec![ident("html_root_url"), Token::Other, literal("\"second\"")]),
    ];
    assert_eq!(find_first_configured_root(&attributes), Some(&"\"first\"".to_string()));
    assert_eq!(find_first_configured_root(&vec![]), None);
}

#[test]
fn doc_attribute_without_root_falls_back_to_the_host() {
    let attributes = vec![doc(vec![ident("html_logo_url"), Token::Other, literal("\"l\"")])];
    let widgets = unit(Some("widgets"), Some(attributes));
    assert_eq!(get_doc_url(&widgets).unwrap(), "https://docs.rs/widgets/*/");
}

#[test]
fn no_root_module_no_url() {
    assert_eq!(get_doc_url(&unit(Some("widgets"), None)), None);
}

#[test]
fn no_configuration_and_no_name_no_url() {
    assert_eq!(get_doc_url(&unit(None, Some(vec![]))), None);
}

#[test]
fn configured_root_needs_no_name() {
    let attributes = vec![doc(vec![ident("html_root_url"), Token::Other, literal("\"https://x/\"")])];
    assert_eq!(get_doc_url(&unit(None, Some(attributes))).unwrap(), "https://x/");
}

#[test]
fn configured_root_that_is_no_url_gives_none() {
    let attributes = vec![doc(vec![ident("html_root_url"), Token::Other, literal("\"not a url\"")])];
    assert_eq!(get_doc_url(&unit(Some("widgets"), Some(attributes))), None);
}

#[test]
fn url_is_what_the_parser_makes_of_the_text() {
    // The parser lowers the host and adds the missing path.
    let attributes =
        vec![doc(vec![ident("html_root_url"), Token::Other, literal("\"HTTPS://X.Test\"")])];
    assert_eq!(get_doc_url(&unit(None, Some(attributes))).unwrap(), "https://x.test/");
}
