//! URLs, as the `url` crate reads and joins them.
//!
//! A URL is held by its text. What the crate makes of a text is not spelled
//! out here: it is named, and the contracts of this library speak of it by
//! that name.

use url::Url;
use vstd::prelude::*;

verus! {

/// The text of the URL that `url::Url::parse` reads from `input`; `None`
/// where it reads none.
pub uninterp spec fn url_parse(input: Seq<char>) -> Option<Seq<char>>;

/// The text of the URL that `url::Url::join` gives for `reference` against
/// the URL that `url::Url::parse` reads from `base`; `None` where `base` is
/// no URL or the reference cannot be resolved against it.
pub uninterp spec fn url_join(base: Seq<char>, reference: Seq<char>) -> Option<Seq<char>>;

/// Calls `url::Url::parse` and hands back the text of the URL. Believed, not
/// proved: the result is what [`url_parse`] names, the same for the same
/// input.
#[verifier::external_body]
pub(crate) fn parse_url(input: &str) -> (url: Option<String>)
    ensures
        url.deep_view() == url_parse(input@),
{
    Url::parse(input).ok().map(String::from)
}

/// Reads `base` with `url::Url::parse`, calls `url::Url::join` on it with
/// `reference`, and hands back the text of the URL. Believed, not proved: the
/// result is what [`url_join`] names, the same for the same two texts.
#[verifier::external_body]
pub(crate) fn join_url(base: &str, reference: &str) -> (url: Option<String>)
    ensures
        url.deep_view() == url_join(base@, reference@),
{
    Url::parse(base).ok()?.join(reference).ok().map(String::from)
}

} // verus!
