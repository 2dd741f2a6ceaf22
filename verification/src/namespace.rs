//! Namespaces and the disambiguators that select them.
//!
//! A link such as `struct@Foo` or `foo()` may say in which namespace its path
//! is to be resolved. The words and marks that do so are listed per namespace;
//! they are recognised by [`Namespace::from_intra_spec`] and removed by
//! [`strip_prefixes_suffixes`].

use crate::text::{
    drop_whitespace, is_whitespace, lemma_strip_leading_len, lemma_strip_trailing_len,
    skip_leading, skip_trailing, skip_whitespace, strip_each_leading, strip_each_trailing,
    strip_leading, strip_trailing, to_chars, trim, trim_backticks, trim_end, trim_start,
    window_starts_with,
};
use vstd::prelude::*;
use vstd::string::StrSliceExecFns;

verus! {

/// The namespaces in which a path can name something.
#[derive(PartialEq, Eq, Hash, Copy, Clone, Debug, Structural)]
pub enum Namespace {
    Types,
    Values,
    Macros,
}

/// The words that select the types when they open a link.
pub const TYPE_PREFIXES: [&'static str; 7] = [
    "type",
    "struct",
    "enum",
    "mod",
    "trait",
    "union",
    "module",
];

/// The marks that select the types when they close a link: none.
pub const TYPE_SUFFIXES: [&'static str; 0] = [];

/// The words that select the values when they open a link.
pub const VALUE_PREFIXES: [&'static str; 8] = [
    "value",
    "function",
    "fn",
    "method",
    "const",
    "static",
    "mod",
    "module",
];

/// The marks that select the values when they close a link.
pub const VALUE_SUFFIXES: [&'static str; 1] = ["()"];

/// The words that select the macros when they open a link.
pub const MACRO_PREFIXES: [&'static str; 1] = ["macro"];

/// The marks that select the macros when they close a link.
pub const MACRO_SUFFIXES: [&'static str; 1] = ["!"];

/// The entries of a table, as sequences of characters.
pub open spec fn texts(table: Seq<&'static str>) -> Seq<Seq<char>> {
    table.map_values(|word: &'static str| word@)
}

impl View for Namespace {
    type V = Namespace;

    open spec fn view(&self) -> Namespace {
        *self
    }
}

impl DeepView for Namespace {
    type V = Namespace;

    open spec fn deep_view(&self) -> Namespace {
        *self
    }
}

/// The views of a table of patterns.
pub open spec fn pattern_views(table: Seq<Vec<char>>) -> Seq<Seq<char>> {
    table.map_values(|pat: Vec<char>| pat@)
}

/// Whether `marker` opens `s` and is followed, one character further on, by
/// `@` or a space.
///
/// The separator is looked for at index `marker.len() + 1`, not directly
/// behind the marker at `marker.len()`: `fn_@x` and `fn  x` are marked by
/// `fn`, `fn@x` and `fn x` are not.
pub open spec fn marks(marker: Seq<char>, s: Seq<char>) -> bool {
    &&& marker.is_prefix_of(s)
    &&& marker.len() + 1 < s.len()
    &&& (s[marker.len() as int + 1] == '@' || s[marker.len() as int + 1] == ' ')
}

/// Whether one of `markers` marks `s`.
pub open spec fn any_marks(markers: Seq<Seq<char>>, s: Seq<char>) -> bool {
    exists|i: int| 0 <= i < markers.len() && marks(#[trigger] markers[i], s)
}

/// The namespace that `s` names: the first of `Types`, `Values`, `Macros`
/// one of whose prefixes or suffixes marks `s`.
pub open spec fn namespace_of(s: Seq<char>) -> Option<Namespace> {
    if Namespace::Types.is_named_by(s) {
        Some(Namespace::Types)
    } else if Namespace::Values.is_named_by(s) {
        Some(Namespace::Values)
    } else if Namespace::Macros.is_named_by(s) {
        Some(Namespace::Macros)
    } else {
        None
    }
}

/// `s` without disambiguators and code marks: the backticks at both ends go,
/// then for `Types`, `Values` and `Macros` in turn every prefix at the start
/// and every suffix at the end, then the `@`s at the start, then the
/// whitespace at both ends.
pub open spec fn stripped(s: Seq<char>) -> Seq<char> {
    let s = trim_backticks(s);
    let s = Namespace::Types.strip(s);
    let s = Namespace::Values.strip(s);
    let s = Namespace::Macros.strip(s);
    trim(strip_leading(s, seq!['@']))
}

/// Whether nothing in `s` is left to strip: no backtick and no whitespace at
/// either end, no prefix of any namespace and no `@` at the start, no suffix
/// of any namespace at the end.
pub open spec fn is_bare(s: Seq<char>) -> bool {
    &&& !seq!['`'].is_prefix_of(s)
    &&& !seq!['`'].is_suffix_of(s)
    &&& opens_with_none(s, Namespace::Types.prefixes())
    &&& closes_with_none(s, Namespace::Types.suffixes())
    &&& opens_with_none(s, Namespace::Values.prefixes())
    &&& closes_with_none(s, Namespace::Values.suffixes())
    &&& opens_with_none(s, Namespace::Macros.prefixes())
    &&& closes_with_none(s, Namespace::Macros.suffixes())
    &&& !seq!['@'].is_prefix_of(s)
    &&& 0 < s.len() ==> !is_whitespace(s.first()) && !is_whitespace(s.last())
}

/// Whether none of `pats` is a prefix of `s`.
pub open spec fn opens_with_none(s: Seq<char>, pats: Seq<Seq<char>>) -> bool {
    forall|i: int| 0 <= i < pats.len() ==> !(#[trigger] pats[i]).is_prefix_of(s)
}

/// Whether none of `pats` is a suffix of `s`.
pub open spec fn closes_with_none(s: Seq<char>, pats: Seq<Seq<char>>) -> bool {
    forall|i: int| 0 <= i < pats.len() ==> !(#[trigger] pats[i]).is_suffix_of(s)
}

/// Whether every pattern of `pats` has at least one character.
pub open spec fn all_nonempty(pats: Seq<Seq<char>>) -> bool {
    forall|i: int| 0 <= i < pats.len() ==> 0 < (#[trigger] pats[i]).len()
}

impl Namespace {
    /// The words that select this namespace when they open a link.
    pub open spec fn prefixes(self) -> Seq<Seq<char>> {
        match self {
            Namespace::Types => texts(TYPE_PREFIXES@),
            Namespace::Values => texts(VALUE_PREFIXES@),
            Namespace::Macros => texts(MACRO_PREFIXES@),
        }
    }

    /// The marks that select this namespace when they close a link.
    pub open spec fn suffixes(self) -> Seq<Seq<char>> {
        match self {
            Namespace::Types => texts(TYPE_SUFFIXES@),
            Namespace::Values => texts(VALUE_SUFFIXES@),
            Namespace::Macros => texts(MACRO_SUFFIXES@),
        }
    }

    /// Whether one of this namespace's prefixes or suffixes marks `s`.
    pub open spec fn is_named_by(self, s: Seq<char>) -> bool {
        any_marks(self.prefixes(), s) || any_marks(self.suffixes(), s)
    }

    /// `s` without this namespace's prefixes at the start and suffixes at the
    /// end, each removed as often as it occurs, in the order of the tables.
    pub open spec fn strip(self, s: Seq<char>) -> Seq<char> {
        strip_each_trailing(strip_each_leading(s, self.prefixes()), self.suffixes())
    }

    /// The prefixes of this namespace, as characters.
    pub fn prefix_table(self) -> (table: Vec<Vec<char>>)
        ensures
            pattern_views(table@) == self.prefixes(),
    {
        match self {
            Namespace::Types => chars_of(&TYPE_PREFIXES),
            Namespace::Values => chars_of(&VALUE_PREFIXES),
            Namespace::Macros => chars_of(&MACRO_PREFIXES),
        }
    }

    /// The suffixes of this namespace, as characters.
    pub fn suffix_table(self) -> (table: Vec<Vec<char>>)
        ensures
            pattern_views(table@) == self.suffixes(),
    {
        match self {
            Namespace::Types => chars_of(&TYPE_SUFFIXES),
            Namespace::Values => chars_of(&VALUE_SUFFIXES),
            Namespace::Macros => chars_of(&MACRO_SUFFIXES),
        }
    }

    /// The namespace that an intra-doc link names, if it names one.
    ///
    /// `Types`, `Values` and `Macros` are tried in this order, and the first
    /// whose table holds a marker of `s` is returned; see [`marks`] for the
    /// place at which the separator is expected.
    pub fn from_intra_spec(s: &str) -> (namespace: Option<Namespace>)
        ensures
            namespace == namespace_of(s@),
    {
        let text = to_chars(s);
        if names(Namespace::Types, &text) {
            Some(Namespace::Types)
        } else if names(Namespace::Values, &text) {
            Some(Namespace::Values)
        } else if names(Namespace::Macros, &text) {
            Some(Namespace::Macros)
        } else {
            None
        }
    }
}

/// The entries of a table, as characters.
fn chars_of<const N: usize>(table: &[&'static str; N]) -> (out: Vec<Vec<char>>)
    ensures
        pattern_views(out@) == texts(table@),
{
    let mut out: Vec<Vec<char>> = Vec::new();
    let mut i: usize = 0;
    while i < N
        invariant
            i <= N,
            out.len() == i,
            forall|j: int| 0 <= j < i ==> (#[trigger] out@[j])@ == table@[j]@,
        decreases N - i,
    {
        out.push(to_chars(table[i]));
        i += 1;
    }
    assert(pattern_views(out@) =~= texts(table@));
    out
}

/// Whether `marker` marks `text`.
fn is_marked_by(text: &Vec<char>, marker: &Vec<char>) -> (b: bool)
    ensures
        b == marks(marker@, text@),
{
    assert(text@.subrange(0, text.len() as int) =~= text@);
    if !window_starts_with(text, 0, text.len(), marker) {
        return false;
    }
    if text.len() - marker.len() < 2 {
        return false;
    }
    let c = text[marker.len() + 1];
    c == '@' || c == ' '
}

/// Whether one of `markers` marks `text`.
fn is_marked_by_any(text: &Vec<char>, markers: &Vec<Vec<char>>) -> (b: bool)
    ensures
        b == any_marks(pattern_views(markers@), text@),
{
    let mut i: usize = 0;
    while i < markers.len()
        invariant
            i <= markers.len(),
            forall|j: int| 0 <= j < i ==> !marks(#[trigger] pattern_views(markers@)[j], text@),
        decreases markers.len() - i,
    {
        if is_marked_by(text, &markers[i]) {
            assert(marks(pattern_views(markers@)[i as int], text@));
            return true;
        }
        i += 1;
    }
    false
}

/// Whether `text` names `namespace`.
fn names(namespace: Namespace, text: &Vec<char>) -> (b: bool)
    ensures
        b == namespace.is_named_by(text@),
{
    let prefixes = namespace.prefix_table();
    let suffixes = namespace.suffix_table();
    is_marked_by_any(text, &prefixes) || is_marked_by_any(text, &suffixes)
}

/// Moves the start of the window past each pattern of `pats` in turn.
fn skip_each_leading(text: &Vec<char>, lo: usize, hi: usize, pats: &Vec<Vec<char>>) -> (start:
    usize)
    requires
        lo <= hi <= text.len(),
    ensures
        lo <= start <= hi,
        text@.subrange(start as int, hi as int) == strip_each_leading(
            text@.subrange(lo as int, hi as int),
            pattern_views(pats@),
        ),
{
    let ghost all = pattern_views(pats@);
    let mut start: usize = lo;
    let mut i: usize = 0;
    while i < pats.len()
        invariant
            i <= pats.len(),
            lo <= start <= hi <= text.len(),
            all == pattern_views(pats@),
            text@.subrange(start as int, hi as int) == strip_each_leading(
                text@.subrange(lo as int, hi as int),
                all.take(i as int),
            ),
        decreases pats.len() - i,
    {
        assert(all.take(i + 1).drop_last() =~= all.take(i as int));
        assert(all.take(i + 1).last() == pats@[i as int]@);
        start = skip_leading(text, start, hi, &pats[i]);
        i += 1;
    }
    assert(all.take(pats.len() as int) =~= all);
    start
}

/// Moves the end of the window before each pattern of `pats` in turn.
fn skip_each_trailing(text: &Vec<char>, lo: usize, hi: usize, pats: &Vec<Vec<char>>) -> (end:
    usize)
    requires
        lo <= hi <= text.len(),
    ensures
        lo <= end <= hi,
        text@.subrange(lo as int, end as int) == strip_each_trailing(
            text@.subrange(lo as int, hi as int),
            pattern_views(pats@),
        ),
{
    let ghost all = pattern_views(pats@);
    let mut end: usize = hi;
    let mut i: usize = 0;
    while i < pats.len()
        invariant
            i <= pats.len(),
            lo <= end <= hi <= text.len(),
            all == pattern_views(pats@),
            text@.subrange(lo as int, end as int) == strip_each_trailing(
                text@.subrange(lo as int, hi as int),
                all.take(i as int),
            ),
        decreases pats.len() - i,
    {
        assert(all.take(i + 1).drop_last() =~= all.take(i as int));
        assert(all.take(i + 1).last() == pats@[i as int]@);
        end = skip_trailing(text, lo, end, &pats[i]);
        i += 1;
    }
    assert(all.take(pats.len() as int) =~= all);
    end
}

/// Narrows the window by the prefixes and suffixes of `namespace`.
fn strip_namespace(text: &Vec<char>, lo: usize, hi: usize, namespace: Namespace) -> (window: (
    usize,
    usize,
))
    requires
        lo <= hi <= text.len(),
    ensures
        lo <= window.0 <= window.1 <= hi,
        text@.subrange(window.0 as int, window.1 as int) == namespace.strip(
            text@.subrange(lo as int, hi as int),
        ),
{
    let prefixes = namespace.prefix_table();
    let suffixes = namespace.suffix_table();
    let start = skip_each_leading(text, lo, hi, &prefixes);
    let end = skip_each_trailing(text, start, hi, &suffixes);
    (start, end)
}

/// Narrows the window `[lo, hi)` of `text` to what [`stripped`] keeps of it.
pub fn strip_window(text: &Vec<char>, lo: usize, hi: usize) -> (window: (usize, usize))
    requires
        lo <= hi <= text.len(),
    ensures
        lo <= window.0 <= window.1 <= hi,
        text@.subrange(window.0 as int, window.1 as int) == stripped(
            text@.subrange(lo as int, hi as int),
        ),
{
    let mut tick: Vec<char> = Vec::new();
    tick.push('`');
    let mut at: Vec<char> = Vec::new();
    at.push('@');
    assert(tick@ =~= seq!['`']);
    assert(at@ =~= seq!['@']);
    let start = skip_leading(text, lo, hi, &tick);
    let end = skip_trailing(text, start, hi, &tick);
    let (start, end) = strip_namespace(text, start, end, Namespace::Types);
    let (start, end) = strip_namespace(text, start, end, Namespace::Values);
    let (start, end) = strip_namespace(text, start, end, Namespace::Macros);
    let start = skip_leading(text, start, end, &at);
    let start = skip_whitespace(text, start, end);
    let end = drop_whitespace(text, start, end);
    (start, end)
}

/// Strips disambiguators and inline code marks from a link target or text.
///
/// The result is the part of `s` that [`stripped`] describes.
pub fn strip_prefixes_suffixes(s: &str) -> (bare: &str)
    ensures
        bare@ == stripped(s@),
{
    let text = to_chars(s);
    assert(text@.subrange(0, text.len() as int) =~= text@);
    let (start, end) = strip_window(&text, 0, text.len());
    s.substring_char(start, end)
}

/// The tables, entry by entry.
pub proof fn lemma_tables()
    ensures
        Namespace::Types.prefixes() =~= seq![
            "type"@,
            "struct"@,
            "enum"@,
            "mod"@,
            "trait"@,
            "union"@,
            "module"@,
        ],
        Namespace::Types.suffixes() =~= Seq::<Seq<char>>::empty(),
        Namespace::Values.prefixes() =~= seq![
            "value"@,
            "function"@,
            "fn"@,
            "method"@,
            "const"@,
            "static"@,
            "mod"@,
            "module"@,
        ],
        Namespace::Values.suffixes() =~= seq!["()"@],
        Namespace::Macros.prefixes() =~= seq!["macro"@],
        Namespace::Macros.suffixes() =~= seq!["!"@],
{
}

/// None of the prefixes and suffixes of a namespace is empty.
pub proof fn lemma_markers_nonempty(namespace: Namespace)
    ensures
        all_nonempty(namespace.prefixes()),
        all_nonempty(namespace.suffixes()),
{
    lemma_tables();
    reveal_strlit("type");
    reveal_strlit("struct");
    reveal_strlit("enum");
    reveal_strlit("mod");
    reveal_strlit("trait");
    reveal_strlit("union");
    reveal_strlit("module");
    reveal_strlit("value");
    reveal_strlit("function");
    reveal_strlit("fn");
    reveal_strlit("method");
    reveal_strlit("const");
    reveal_strlit("static");
    reveal_strlit("macro");
    reveal_strlit("()");
    reveal_strlit("!");
}

/// Stripping a table of non-empty prefixes never lengthens; it shortens
/// exactly when one of them opens `s`, and otherwise changes nothing.
pub proof fn lemma_strip_each_leading(s: Seq<char>, pats: Seq<Seq<char>>)
    requires
        all_nonempty(pats),
    ensures
        strip_each_leading(s, pats).len() <= s.len(),
        opens_with_none(s, pats) <==> strip_each_leading(s, pats).len() == s.len(),
        opens_with_none(s, pats) ==> strip_each_leading(s, pats) == s,
    decreases pats.len(),
{
    if 0 < pats.len() {
        let before = pats.drop_last();
        let rest = strip_each_leading(s, before);
        lemma_strip_each_leading(s, before);
        lemma_strip_leading_len(rest, pats.last());
        if opens_with_none(s, before) {
            if pats.last().is_prefix_of(s) {
                assert(!opens_with_none(s, pats));
            } else {
                assert forall|i: int| 0 <= i < pats.len() implies !(#[trigger] pats[i]).is_prefix_of(
                    s,
                ) by {
                    if i < before.len() {
                        assert(pats[i] == before[i]);
                    }
                }
            }
        } else {
            let i = choose|i: int| 0 <= i < before.len() && (#[trigger] before[i]).is_prefix_of(s);
            assert(pats[i] == before[i]);
        }
    }
}

/// Stripping a table of non-empty suffixes never lengthens; it shortens
/// exactly when one of them closes `s`, and otherwise changes nothing.
pub proof fn lemma_strip_each_trailing(s: Seq<char>, pats: Seq<Seq<char>>)
    requires
        all_nonempty(pats),
    ensures
        strip_each_trailing(s, pats).len() <= s.len(),
        closes_with_none(s, pats) <==> strip_each_trailing(s, pats).len() == s.len(),
        closes_with_none(s, pats) ==> strip_each_trailing(s, pats) == s,
    decreases pats.len(),
{
    if 0 < pats.len() {
        let before = pats.drop_last();
        let rest = strip_each_trailing(s, before);
        lemma_strip_each_trailing(s, before);
        lemma_strip_trailing_len(rest, pats.last());
        if closes_with_none(s, before) {
            if pats.last().is_suffix_of(s) {
                assert(!closes_with_none(s, pats));
            } else {
                assert forall|i: int| 0 <= i < pats.len() implies !(#[trigger] pats[i]).is_suffix_of(
                    s,
                ) by {
                    if i < before.len() {
                        assert(pats[i] == before[i]);
                    }
                }
            }
        } else {
            let i = choose|i: int| 0 <= i < before.len() && (#[trigger] before[i]).is_suffix_of(s);
            assert(pats[i] == before[i]);
        }
    }
}

/// Stripping one namespace never lengthens, and it changes `s` exactly when
/// one of its prefixes opens `s` or one of its suffixes closes it.
pub proof fn lemma_strip_namespace(namespace: Namespace, s: Seq<char>)
    ensures
        namespace.strip(s).len() <= s.len(),
        (opens_with_none(s, namespace.prefixes()) && closes_with_none(s, namespace.suffixes()))
            <==> namespace.strip(s).len() == s.len(),
        (opens_with_none(s, namespace.prefixes()) && closes_with_none(s, namespace.suffixes()))
            ==> namespace.strip(s) == s,
{
    lemma_markers_nonempty(namespace);
    lemma_strip_each_leading(s, namespace.prefixes());
    lemma_strip_each_trailing(strip_each_leading(s, namespace.prefixes()), namespace.suffixes());
}

/// Trimming whitespace never lengthens, and it changes `s` exactly when `s`
/// begins or ends with whitespace.
pub proof fn lemma_trim(s: Seq<char>)
    ensures
        trim(s).len() <= s.len(),
        (0 < s.len() ==> !is_whitespace(s.first()) && !is_whitespace(s.last())) <==> trim(s).len()
            == s.len(),
        (0 < s.len() ==> !is_whitespace(s.first()) && !is_whitespace(s.last())) ==> trim(s) == s,
{
    lemma_trim_start(s);
    lemma_trim_end(trim_start(s));
}

proof fn lemma_trim_start(s: Seq<char>)
    ensures
        trim_start(s).len() <= s.len(),
        (0 < s.len() && is_whitespace(s.first())) <==> trim_start(s).len() < s.len(),
        !(0 < s.len() && is_whitespace(s.first())) ==> trim_start(s) == s,
    decreases s.len(),
{
    if 0 < s.len() && is_whitespace(s[0]) {
        lemma_trim_start(s.skip(1));
    }
}

proof fn lemma_trim_end(s: Seq<char>)
    ensures
        trim_end(s).len() <= s.len(),
        (0 < s.len() && is_whitespace(s.last())) <==> trim_end(s).len() < s.len(),
        !(0 < s.len() && is_whitespace(s.last())) ==> trim_end(s) == s,
    decreases s.len(),
{
    if 0 < s.len() && is_whitespace(s.last()) {
        lemma_trim_end(s.drop_last());
    }
}

/// Stripping never lengthens, and it keeps exactly the bare strings as they
/// are: any other string gets shorter.
pub proof fn lemma_stripped_fixed_point(s: Seq<char>)
    ensures
        stripped(s).len() <= s.len(),
        is_bare(s) <==> stripped(s).len() == s.len(),
        is_bare(s) <==> stripped(s) == s,
{
    let tick = seq!['`'];
    let a = strip_leading(s, tick);
    let b = strip_trailing(a, tick);
    let c = Namespace::Types.strip(b);
    let d = Namespace::Values.strip(c);
    let e = Namespace::Macros.strip(d);
    let f = strip_leading(e, seq!['@']);
    lemma_strip_leading_len(s, tick);
    lemma_strip_trailing_len(a, tick);
    lemma_strip_namespace(Namespace::Types, b);
    lemma_strip_namespace(Namespace::Values, c);
    lemma_strip_namespace(Namespace::Macros, d);
    lemma_strip_leading_len(e, seq!['@']);
    lemma_trim(f);
}

/// Stripping twice gives what stripping once gives, on every input that the
/// first stripping leaves bare.
///
/// The stages run once, in a fixed order, so an earlier stage can uncover
/// what a later one would have taken, and a later one what an earlier one
/// would have: `@struct Foo` strips to `struct Foo`, which strips to `Foo`.
/// Those are the inputs that [`lemma_strip_again_shortens`] speaks of.
pub proof fn lemma_strip_idempotent(s: Seq<char>)
    requires
        is_bare(stripped(s)),
    ensures
        stripped(stripped(s)) == stripped(s),
{
    lemma_stripped_fixed_point(stripped(s));
}

/// On every input that the first stripping does not leave bare, a second
/// stripping takes more away.
pub proof fn lemma_strip_again_shortens(s: Seq<char>)
    requires
        !is_bare(stripped(s)),
    ensures
        stripped(stripped(s)).len() < stripped(s).len(),
{
    lemma_stripped_fixed_point(stripped(s));
}

/// A pattern that differs from `s` at some index is no prefix of `s`.
pub proof fn lemma_not_prefix(pat: Seq<char>, s: Seq<char>, i: int)
    requires
        0 <= i < pat.len(),
        i < s.len() ==> pat[i] != s[i],
    ensures
        !pat.is_prefix_of(s),
{
    if pat.len() <= s.len() {
        assert(s.subrange(0, pat.len() as int)[i] == s[i]);
    }
}

/// `macro!` strips to nothing: the word goes as a prefix of `Macros`, the
/// mark as its suffix.
pub proof fn lemma_macro_bang_strips_to_nothing()
    ensures
        stripped("macro!"@) == Seq::<char>::empty(),
{
    let s = "macro!"@;
    let bang = seq!['!'];
    lemma_tables();
    reveal_strlit("macro!");
    reveal_strlit("type");
    reveal_strlit("struct");
    reveal_strlit("enum");
    reveal_strlit("mod");
    reveal_strlit("trait");
    reveal_strlit("union");
    reveal_strlit("module");
    reveal_strlit("value");
    reveal_strlit("function");
    reveal_strlit("fn");
    reveal_strlit("method");
    reveal_strlit("const");
    reveal_strlit("static");
    reveal_strlit("macro");
    reveal_strlit("()");
    reveal_strlit("!");
    assert(s =~= seq!['m', 'a', 'c', 'r', 'o', '!']);
    lemma_not_prefix(seq!['`'], s, 0);
    lemma_strip_leading_len(s, seq!['`']);
    assert(!seq!['`'].is_suffix_of(s)) by {
        assert(s.subrange(5, 6)[0] == '!');
    }
    lemma_strip_trailing_len(s, seq!['`']);
    assert(trim_backticks(s) == s);
    assert(opens_with_none(s, Namespace::Types.prefixes())) by {
        lemma_not_prefix("type"@, s, 0);
        lemma_not_prefix("struct"@, s, 0);
        lemma_not_prefix("enum"@, s, 0);
        lemma_not_prefix("mod"@, s, 1);
        lemma_not_prefix("trait"@, s, 0);
        lemma_not_prefix("union"@, s, 0);
        lemma_not_prefix("module"@, s, 1);
    }
    lemma_strip_namespace(Namespace::Types, s);
    assert(Namespace::Types.strip(s) == s);
    assert(opens_with_none(s, Namespace::Values.prefixes())) by {
        lemma_not_prefix("value"@, s, 0);
        lemma_not_prefix("function"@, s, 0);
        lemma_not_prefix("fn"@, s, 0);
        lemma_not_prefix("method"@, s, 1);
        lemma_not_prefix("const"@, s, 0);
        lemma_not_prefix("static"@, s, 0);
        lemma_not_prefix("mod"@, s, 1);
        lemma_not_prefix("module"@, s, 1);
    }
    assert(closes_with_none(s, Namespace::Values.suffixes())) by {
        assert(s.subrange(4, 6)[0] == 'o');
    }
    lemma_strip_namespace(Namespace::Values, s);
    assert(Namespace::Values.strip(s) == s);
    assert(Namespace::Macros.prefixes() =~= seq!["macro"@]);
    assert(Namespace::Macros.suffixes() =~= seq!["!"@]);
    assert("macro"@ =~= s.subrange(0, 5));
    assert(s.skip(5) =~= bang);
    assert("!"@ =~= bang);
    lemma_not_prefix("macro"@, bang, 0);
    assert(strip_leading(bang, "macro"@) == bang);
    assert(strip_leading(s, "macro"@) == bang);
    let none = Seq::<Seq<char>>::empty();
    assert(Namespace::Macros.prefixes().drop_last() =~= none);
    assert(Namespace::Macros.prefixes().last() == "macro"@);
    assert(strip_each_leading(s, none) == s);
    assert(strip_each_leading(s, Namespace::Macros.prefixes()) == bang);
    assert(bang.subrange(0, 1) =~= bang);
    assert(bang.take(0) =~= Seq::<char>::empty());
    assert(strip_trailing(Seq::<char>::empty(), bang) == Seq::<char>::empty());
    assert(strip_trailing(bang, bang) == Seq::<char>::empty());
    assert(Namespace::Macros.suffixes().drop_last() =~= none);
    assert(Namespace::Macros.suffixes().last() == "!"@);
    assert(strip_each_trailing(bang, none) == bang);
    assert(strip_each_trailing(bang, Namespace::Macros.suffixes()) == Seq::<char>::empty());
    assert(Namespace::Macros.strip(s) == Seq::<char>::empty());
}

/// What stripping returns has no whitespace at either end.
pub proof fn lemma_stripped_is_trimmed(s: Seq<char>)
    ensures
        0 < stripped(s).len() ==> !is_whitespace(stripped(s).first()) && !is_whitespace(
            stripped(s).last(),
        ),
{
    let t = strip_leading(
        Namespace::Macros.strip(Namespace::Values.strip(Namespace::Types.strip(trim_backticks(s)))),
        seq!['@'],
    );
    lemma_trim_start_done(t);
    lemma_trim_end_done(trim_start(t));
    lemma_trim_end_keeps_start(trim_start(t));
}

proof fn lemma_trim_start_done(s: Seq<char>)
    ensures
        0 < trim_start(s).len() ==> !is_whitespace(trim_start(s).first()),
    decreases s.len(),
{
    if 0 < s.len() && is_whitespace(s[0]) {
        lemma_trim_start_done(s.skip(1));
    }
}

proof fn lemma_trim_end_done(s: Seq<char>)
    ensures
        0 < trim_end(s).len() ==> !is_whitespace(trim_end(s).last()),
    decreases s.len(),
{
    if 0 < s.len() && is_whitespace(s.last()) {
        lemma_trim_end_done(s.drop_last());
    }
}

proof fn lemma_trim_end_keeps_start(s: Seq<char>)
    ensures
        0 < trim_end(s).len() ==> trim_end(s).first() == s.first(),
    decreases s.len(),
{
    if 0 < s.len() && is_whitespace(s.last()) {
        lemma_trim_end_keeps_start(s.drop_last());
    }
}

} // verus!
