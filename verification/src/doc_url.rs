//! The root URL of a compilation unit's documentation.

use crate::symbols::{
    Attribute, AttributeModel, CompilationUnit, CompilationUnitModel, Token, TokenModel,
};
use crate::text::{
    same_text, skip_leading, skip_trailing, strip_leading, strip_trailing, to_chars,
};
use crate::urls::{parse_url, url_parse};
use vstd::prelude::*;
use vstd::string::{StrSliceExecFns, StringExecFns};

verus! {

/// Whether a token is the identifier `html_root_url`.
pub open spec fn is_root_key(token: TokenModel) -> bool {
    token == TokenModel::Ident("html_root_url"@)
}

/// The tokens from the first `html_root_url` on; none if there is no such
/// identifier.
pub open spec fn from_root_key(tokens: Seq<TokenModel>) -> Seq<TokenModel>
    decreases tokens.len(),
{
    if tokens.len() == 0 || is_root_key(tokens[0]) {
        tokens
    } else {
        from_root_key(tokens.skip(1))
    }
}

/// The root URL that the tokens of a `doc` attribute configure: the text of
/// the literal that stands two tokens behind the first `html_root_url`.
pub open spec fn configured_root(tokens: Seq<TokenModel>) -> Option<Seq<char>> {
    let rest = from_root_key(tokens);
    if 2 < rest.len() {
        match rest[2] {
            TokenModel::Literal(text) => Some(text),
            _ => None,
        }
    } else {
        None
    }
}

/// The root URL that one attribute configures.
pub open spec fn root_of_attribute(attribute: AttributeModel) -> Option<Seq<char>> {
    if attribute.key == "doc"@ {
        match attribute.tokens {
            Some(tokens) => configured_root(tokens),
            None => None,
        }
    } else {
        None
    }
}

/// The first root URL that the attributes configure.
pub open spec fn first_configured_root(attributes: Seq<AttributeModel>) -> Option<Seq<char>>
    decreases attributes.len(),
{
    if attributes.len() == 0 {
        None
    } else if root_of_attribute(attributes[0]) is Some {
        root_of_attribute(attributes[0])
    } else {
        first_configured_root(attributes.skip(1))
    }
}

/// The root URL on the public documentation host, with `*` for the version.
pub open spec fn hosted_root(name: Seq<char>) -> Seq<char> {
    "https://docs.rs/"@ + name + "/*"@
}

/// The root URL as written: the configured one, else the hosted one; `None`
/// where the unit has no root module, or has neither a configured root nor a
/// name.
pub open spec fn root_text(unit: CompilationUnitModel) -> Option<Seq<char>> {
    match unit.root_attributes {
        None => None,
        Some(attributes) => match first_configured_root(attributes) {
            Some(text) => Some(text),
            None => match unit.name {
                Some(name) => Some(hosted_root(name)),
                None => None,
            },
        },
    }
}

/// `text` without the quotes around it and the slashes behind it, followed by
/// one slash.
pub open spec fn normalized_root(text: Seq<char>) -> Seq<char> {
    strip_trailing(strip_trailing(strip_leading(text, seq!['"']), seq!['"']), seq!['/']) + seq![
        '/',
    ]
}

/// The root URL of a unit's documentation: its root text, normalized and
/// read as a URL.
pub open spec fn doc_url_of(unit: CompilationUnitModel) -> Option<Seq<char>> {
    match root_text(unit) {
        Some(text) => url_parse(normalized_root(text)),
        None => None,
    }
}

/// The root URL that the tokens of a `doc` attribute configure.
pub fn find_configured_root(tokens: &Vec<Token>) -> (root: Option<&String>)
    ensures
        root.deep_view() == configured_root(tokens.deep_view()),
{
    let ghost all = tokens.deep_view();
    let mut i: usize = 0;
    assert(all.skip(0) =~= all);
    while i < tokens.len()
        invariant
            i <= tokens.len(),
            all == tokens.deep_view(),
            from_root_key(all) == from_root_key(all.skip(i as int)),
        decreases tokens.len() - i,
    {
        assert(all.skip(i as int)[0] == tokens@[i as int]@);
        let at_key = match &tokens[i] {
            Token::Ident(text) => same_text(text.as_str(), "html_root_url"),
            _ => false,
        };
        if at_key {
            if tokens.len() - i <= 2 {
                return None;
            }
            assert(all.skip(i as int)[2] == tokens@[i + 2]@);
            return match &tokens[i + 2] {
                Token::Literal(text) => Some(text),
                _ => None,
            };
        }
        assert(all.skip(i as int).skip(1) =~= all.skip(i + 1));
        i += 1;
    }
    None
}

/// The first root URL that the attributes configure.
pub fn find_first_configured_root(attributes: &Vec<Attribute>) -> (root: Option<&String>)
    ensures
        root.deep_view() == first_configured_root(attributes.deep_view()),
{
    let ghost all = attributes.deep_view();
    let mut i: usize = 0;
    assert(all.skip(0) =~= all);
    while i < attributes.len()
        invariant
            i <= attributes.len(),
            all == attributes.deep_view(),
            first_configured_root(all) == first_configured_root(all.skip(i as int)),
        decreases attributes.len() - i,
    {
        assert(all.skip(i as int)[0] == attributes@[i as int]@);
        if same_text(attributes[i].key.as_str(), "doc") {
            match &attributes[i].tokens {
                Some(tokens) => {
                    let root = find_configured_root(tokens);
                    if root.is_some() {
                        return root;
                    }
                },
                None => {},
            }
        }
        assert(all.skip(i as int).skip(1) =~= all.skip(i + 1));
        i += 1;
    }
    None
}

/// Brings a root URL into the form that ends in exactly one slash.
pub fn normalize_root(text: &str) -> (root: String)
    ensures
        root@ == normalized_root(text@),
{
    let chars = to_chars(text);
    let mut quote: Vec<char> = Vec::new();
    quote.push('"');
    let mut slash: Vec<char> = Vec::new();
    slash.push('/');
    assert(quote@ =~= seq!['"']);
    assert(slash@ =~= seq!['/']);
    assert(chars@.subrange(0, chars.len() as int) =~= chars@);
    let start = skip_leading(&chars, 0, chars.len(), &quote);
    let end = skip_trailing(&chars, start, chars.len(), &quote);
    let end = skip_trailing(&chars, start, end, &slash);
    let mut root = text.substring_char(start, end).to_owned();
    proof {
        reveal_strlit("/");
        assert("/"@ =~= seq!['/']);
    }
    root.append("/");
    root
}

/// The root URL of the documentation of a compilation unit.
///
/// A `doc` attribute of the root module that sets `html_root_url` decides;
/// without one the unit is looked for on the public host under its name. The
/// text is [`normalized_root`] and read as a URL.
pub fn get_doc_url(unit: &CompilationUnit) -> (url: Option<String>)
    ensures
        url.deep_view() == doc_url_of(unit@),
{
    let attributes = match &unit.root_attributes {
        Some(attributes) => attributes,
        None => {
            return None;
        },
    };
    let root = match find_first_configured_root(attributes) {
        Some(text) => normalize_root(text.as_str()),
        None => match &unit.name {
            Some(name) => {
                let mut hosted = "https://docs.rs/".to_owned();
                hosted.append(name.as_str());
                hosted.append("/*");
                normalize_root(hosted.as_str())
            },
            None => {
                return None;
            },
        },
    };
    parse_url(root.as_str())
}

} // verus!
