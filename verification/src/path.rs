//! Module paths as they are written in links.
//!
//! A path is a run of names separated by `::`. It may begin with `::`, with
//! `crate`, with `self`, or with one or more `super`; what follows are plain
//! names. A name begins with an ASCII letter or `_` and goes on with ASCII
//! letters, digits and `_`; a lone `_` and the three words above are no names.

use crate::text::{to_chars, window_starts_with};
use vstd::prelude::*;
use vstd::string::StrSliceExecFns;

verus! {

/// Where the resolution of a path begins.
#[derive(PartialEq, Eq, Hash, Copy, Clone, Debug, Structural)]
pub enum PathKind {
    /// In the scope at hand.
    Plain,
    /// In the enclosing module that many levels up; `self::` is `Super(0)`.
    Super(u8),
    /// At the root of the compilation unit.
    Crate,
    /// Among the compilation units, as `::name` does.
    Abs,
}

/// A parsed path: where it begins and the names that follow.
#[derive(PartialEq, Eq, Clone, Debug)]
pub struct ModulePath {
    pub kind: PathKind,
    pub segments: Vec<String>,
}

/// The mathematical value of a [`ModulePath`].
pub struct ModulePathModel {
    pub kind: PathKind,
    pub segments: Seq<Seq<char>>,
}

impl View for ModulePath {
    type V = ModulePathModel;

    open spec fn view(&self) -> ModulePathModel {
        ModulePathModel { kind: self.kind, segments: self.segments.deep_view() }
    }
}

impl DeepView for ModulePath {
    type V = ModulePathModel;

    open spec fn deep_view(&self) -> ModulePathModel {
        self@
    }
}

/// Whether a name can begin with `c`.
pub open spec fn is_name_start(c: char) -> bool {
    c == '_' || 'a' <= c <= 'z' || 'A' <= c <= 'Z'
}

/// Whether a name can go on with `c`.
pub open spec fn is_name_continue(c: char) -> bool {
    is_name_start(c) || '0' <= c <= '9'
}

/// Whether `s` is written like an identifier.
pub open spec fn is_identifier(s: Seq<char>) -> bool {
    &&& 0 < s.len()
    &&& is_name_start(s[0])
    &&& forall|i: int| 0 < i < s.len() ==> is_name_continue(#[trigger] s[i])
    &&& !(s.len() == 1 && s[0] == '_')
}

/// Whether `s` is a name: an identifier that is none of `crate`, `self`,
/// `super`.
pub open spec fn is_name(s: Seq<char>) -> bool {
    is_identifier(s) && s != "crate"@ && s != "self"@ && s != "super"@
}

/// Whether every piece is a name.
pub open spec fn all_names(pieces: Seq<Seq<char>>) -> bool {
    forall|i: int| 0 <= i < pieces.len() ==> is_name(#[trigger] pieces[i])
}

/// Whether `::` stands in `s` at index `i`.
pub open spec fn separator_at(s: Seq<char>, i: int) -> bool {
    0 <= i && i + 1 < s.len() && s[i] == ':' && s[i + 1] == ':'
}

/// The pieces of `s` from index `i` on, the first of which began at `start`.
pub open spec fn pieces_from(s: Seq<char>, start: int, i: int) -> Seq<Seq<char>>
    decreases s.len() - i,
{
    if i >= s.len() {
        seq![s.subrange(start, s.len() as int)]
    } else if separator_at(s, i) {
        seq![s.subrange(start, i)] + pieces_from(s, i + 2, i + 2)
    } else {
        pieces_from(s, start, i + 1)
    }
}

/// What stands between the separators of `s`, read from the left: `a::b` has
/// the pieces `a` and `b`, `::a` has an empty piece and `a`, and `a:::b` has
/// `a` and `:b`.
pub open spec fn pieces(s: Seq<char>) -> Seq<Seq<char>> {
    pieces_from(s, 0, 0)
}

/// How many of the first pieces are `super`.
pub open spec fn leading_supers(pieces: Seq<Seq<char>>) -> nat
    decreases pieces.len(),
{
    if 0 < pieces.len() && pieces[0] == "super"@ {
        1 + leading_supers(pieces.skip(1))
    } else {
        0
    }
}

/// The path that the pieces spell, if they spell one.
pub open spec fn path_of_pieces(pieces: Seq<Seq<char>>) -> Option<ModulePathModel> {
    if pieces.len() == 0 {
        None
    } else if pieces[0].len() == 0 {
        if 2 <= pieces.len() && all_names(pieces.skip(1)) {
            Some(ModulePathModel { kind: PathKind::Abs, segments: pieces.skip(1) })
        } else {
            None
        }
    } else if pieces[0] == "crate"@ {
        if all_names(pieces.skip(1)) {
            Some(ModulePathModel { kind: PathKind::Crate, segments: pieces.skip(1) })
        } else {
            None
        }
    } else if pieces[0] == "self"@ {
        if all_names(pieces.skip(1)) {
            Some(ModulePathModel { kind: PathKind::Super(0), segments: pieces.skip(1) })
        } else {
            None
        }
    } else if pieces[0] == "super"@ {
        let levels = leading_supers(pieces);
        if levels <= u8::MAX && all_names(pieces.skip(levels as int)) {
            Some(
                ModulePathModel {
                    kind: PathKind::Super(levels as u8),
                    segments: pieces.skip(levels as int),
                },
            )
        } else {
            None
        }
    } else if all_names(pieces) {
        Some(ModulePathModel { kind: PathKind::Plain, segments: pieces })
    } else {
        None
    }
}

/// The path that `s` spells, if it spells one.
pub open spec fn module_path_of(s: Seq<char>) -> Option<ModulePathModel> {
    path_of_pieces(pieces(s))
}

/// One piece of a text: the window `[lo, hi)`.
pub struct Piece {
    pub lo: usize,
    pub hi: usize,
}

/// Whether `found` holds the bounds of `pieces` within `text`.
pub open spec fn bounds_of(found: Seq<Piece>, text: Seq<char>, pieces: Seq<Seq<char>>) -> bool {
    &&& found.len() == pieces.len()
    &&& forall|k: int|
        0 <= k < found.len() ==> {
            &&& (#[trigger] found[k]).lo <= found[k].hi <= text.len()
            &&& text.subrange(found[k].lo as int, found[k].hi as int) == pieces[k]
        }
}

/// Cuts `text` at its separators.
pub fn split(text: &Vec<char>) -> (found: Vec<Piece>)
    ensures
        bounds_of(found@, text@, pieces(text@)),
        0 < found.len(),
{
    let mut found: Vec<Piece> = Vec::new();
    let mut start: usize = 0;
    let mut i: usize = 0;
    let ghost mut done: Seq<Seq<char>> = seq![];
    while i < text.len()
        invariant
            start <= i <= text.len(),
            bounds_of(found@, text@, done),
            pieces(text@) == done + pieces_from(text@, start as int, i as int),
        decreases text.len() - i,
    {
        if text[i] == ':' && text.len() - i >= 2 && text[i + 1] == ':' {
            found.push(Piece { lo: start, hi: i });
            proof {
                let piece = text@.subrange(start as int, i as int);
                assert(done + (seq![piece] + pieces_from(text@, i + 2, i + 2)) =~= done.push(piece)
                    + pieces_from(text@, i + 2, i + 2));
                done = done.push(piece);
            }
            i += 2;
            start = i;
        } else {
            i += 1;
        }
    }
    found.push(Piece { lo: start, hi: text.len() });
    proof {
        let piece = text@.subrange(start as int, text.len() as int);
        assert(done + seq![piece] =~= done.push(piece));
    }
    found
}

/// Whether the window `[lo, hi)` of `text` holds exactly `word`.
pub fn window_is(text: &Vec<char>, lo: usize, hi: usize, word: &str) -> (b: bool)
    requires
        lo <= hi <= text.len(),
    ensures
        b == (text@.subrange(lo as int, hi as int) == word@),
{
    let want = to_chars(word);
    let ghost window = text@.subrange(lo as int, hi as int);
    if want.len() != hi - lo {
        return false;
    }
    assert(window.subrange(0, want.len() as int) =~= window);
    window_starts_with(text, lo, hi, &want)
}

fn char_is_name_start(c: char) -> (b: bool)
    ensures
        b == is_name_start(c),
{
    c == '_' || ('a' <= c && c <= 'z') || ('A' <= c && c <= 'Z')
}

fn char_is_name_continue(c: char) -> (b: bool)
    ensures
        b == is_name_continue(c),
{
    char_is_name_start(c) || ('0' <= c && c <= '9')
}

/// Whether the window `[lo, hi)` of `text` holds a name.
pub fn window_is_name(text: &Vec<char>, lo: usize, hi: usize) -> (b: bool)
    requires
        lo <= hi <= text.len(),
    ensures
        b == is_name(text@.subrange(lo as int, hi as int)),
{
    let ghost window = text@.subrange(lo as int, hi as int);
    if lo == hi {
        return false;
    }
    if !char_is_name_start(text[lo]) {
        return false;
    }
    if hi - lo == 1 && text[lo] == '_' {
        return false;
    }
    let mut i: usize = lo + 1;
    while i < hi
        invariant
            lo < i <= hi <= text.len(),
            window == text@.subrange(lo as int, hi as int),
            forall|j: int| 0 < j < i - lo ==> is_name_continue(#[trigger] window[j]),
        decreases hi - i,
    {
        if !char_is_name_continue(text[i]) {
            assert(!is_name_continue(window[i - lo]));
            return false;
        }
        i += 1;
    }
    assert(is_identifier(window));
    !window_is(text, lo, hi, "crate") && !window_is(text, lo, hi, "self") && !window_is(
        text,
        lo,
        hi,
        "super",
    )
}

/// The names in the pieces from index `from` on, or `None` if one of them is
/// no name.
fn names_from(s: &str, text: &Vec<char>, found: &Vec<Piece>, from: usize) -> (names: Option<
    Vec<String>,
>)
    requires
        s@ == text@,
        from <= found.len(),
        bounds_of(found@, text@, pieces(text@)),
    ensures
        names is Some <==> all_names(pieces(text@).skip(from as int)),
        names matches Some(names) ==> names.deep_view() == pieces(text@).skip(from as int),
{
    let ghost rest = pieces(text@).skip(from as int);
    let mut names: Vec<String> = Vec::new();
    let mut k: usize = from;
    while k < found.len()
        invariant
            s@ == text@,
            from <= k <= found.len(),
            bounds_of(found@, text@, pieces(text@)),
            rest == pieces(text@).skip(from as int),
            names.len() == k - from,
            forall|j: int| 0 <= j < k - from ==> is_name(#[trigger] rest[j]),
            forall|j: int| 0 <= j < k - from ==> (#[trigger] names@[j])@ == rest[j],
        decreases found.len() - k,
    {
        let lo = found[k].lo;
        let hi = found[k].hi;
        if !window_is_name(text, lo, hi) {
            assert(!is_name(rest[k - from]));
            return None;
        }
        names.push(s.substring_char(lo, hi).to_owned());
        k += 1;
    }
    assert(names.deep_view() =~= rest);
    Some(names)
}

/// How many of the first pieces are `super`.
fn count_supers(text: &Vec<char>, found: &Vec<Piece>) -> (levels: usize)
    requires
        bounds_of(found@, text@, pieces(text@)),
    ensures
        levels == leading_supers(pieces(text@)),
        levels <= found.len(),
{
    let ghost all = pieces(text@);
    let mut k: usize = 0;
    assert(all.skip(0) =~= all);
    while k < found.len() && window_is(text, found[k].lo, found[k].hi, "super")
        invariant
            k <= found.len(),
            bounds_of(found@, text@, pieces(text@)),
            all == pieces(text@),
            leading_supers(all) == k + leading_supers(all.skip(k as int)),
        decreases found.len() - k,
    {
        assert(all.skip(k as int).skip(1) =~= all.skip(k + 1));
        k += 1;
    }
    k
}

/// Reads a link target as a module path.
///
/// Returns the path that [`module_path_of`] describes, and `None` where the
/// text spells no path.
pub fn parse_module_path(s: &str) -> (path: Option<ModulePath>)
    ensures
        path.deep_view() == module_path_of(s@),
{
    let text = to_chars(s);
    let found = split(&text);
    let first_lo = found[0].lo;
    let first_hi = found[0].hi;
    let ghost all = pieces(text@);
    if first_lo == first_hi {
        if found.len() < 2 {
            return None;
        }
        match names_from(s, &text, &found, 1) {
            Some(segments) => Some(ModulePath { kind: PathKind::Abs, segments }),
            None => None,
        }
    } else if window_is(&text, first_lo, first_hi, "crate") {
        match names_from(s, &text, &found, 1) {
            Some(segments) => Some(ModulePath { kind: PathKind::Crate, segments }),
            None => None,
        }
    } else if window_is(&text, first_lo, first_hi, "self") {
        match names_from(s, &text, &found, 1) {
            Some(segments) => Some(ModulePath { kind: PathKind::Super(0), segments }),
            None => None,
        }
    } else if window_is(&text, first_lo, first_hi, "super") {
        let levels = count_supers(&text, &found);
        if levels > 255 {
            return None;
        }
        match names_from(s, &text, &found, levels) {
            Some(segments) => Some(ModulePath { kind: PathKind::Super(levels as u8), segments }),
            None => None,
        }
    } else {
        assert(all.skip(0) =~= all);
        match names_from(s, &text, &found, 0) {
            Some(segments) => Some(ModulePath { kind: PathKind::Plain, segments }),
            None => None,
        }
    }
}

} // verus!
