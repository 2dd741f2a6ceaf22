//! Text as sequences of characters.
//!
//! Every string in this crate is modelled by its `Seq<char>` view. The
//! executable helpers work on a window `[lo, hi)` into a `Vec<char>`, so that
//! stripping from either end only moves an index.

use itertools::Itertools;
use vstd::prelude::*;
use vstd::string::StrSliceExecFns;

verus! {

/// The characters with the Unicode property `White_Space`.
pub open spec fn is_whitespace(c: char) -> bool {
    ||| '\u{9}' <= c <= '\u{d}'
    ||| c == ' '
    ||| c == '\u{85}'
    ||| c == '\u{a0}'
    ||| c == '\u{1680}'
    ||| '\u{2000}' <= c <= '\u{200a}'
    ||| c == '\u{2028}'
    ||| c == '\u{2029}'
    ||| c == '\u{202f}'
    ||| c == '\u{205f}'
    ||| c == '\u{3000}'
}

/// `s` with every leading repetition of `pat` removed.
pub open spec fn strip_leading(s: Seq<char>, pat: Seq<char>) -> Seq<char>
    decreases s.len(),
{
    if 0 < pat.len() && pat.is_prefix_of(s) {
        strip_leading(s.skip(pat.len() as int), pat)
    } else {
        s
    }
}

/// `s` with every trailing repetition of `pat` removed.
pub open spec fn strip_trailing(s: Seq<char>, pat: Seq<char>) -> Seq<char>
    decreases s.len(),
{
    if 0 < pat.len() && pat.is_suffix_of(s) {
        strip_trailing(s.take(s.len() - pat.len()), pat)
    } else {
        s
    }
}

/// `s` stripped of each pattern in turn at its start, in the order given.
pub open spec fn strip_each_leading(s: Seq<char>, pats: Seq<Seq<char>>) -> Seq<char>
    decreases pats.len(),
{
    if pats.len() == 0 {
        s
    } else {
        strip_leading(strip_each_leading(s, pats.drop_last()), pats.last())
    }
}

/// `s` stripped of each pattern in turn at its end, in the order given.
pub open spec fn strip_each_trailing(s: Seq<char>, pats: Seq<Seq<char>>) -> Seq<char>
    decreases pats.len(),
{
    if pats.len() == 0 {
        s
    } else {
        strip_trailing(strip_each_trailing(s, pats.drop_last()), pats.last())
    }
}

/// `s` without its leading whitespace.
pub open spec fn trim_start(s: Seq<char>) -> Seq<char>
    decreases s.len(),
{
    if 0 < s.len() && is_whitespace(s[0]) {
        trim_start(s.skip(1))
    } else {
        s
    }
}

/// `s` without its trailing whitespace.
pub open spec fn trim_end(s: Seq<char>) -> Seq<char>
    decreases s.len(),
{
    if 0 < s.len() && is_whitespace(s.last()) {
        trim_end(s.drop_last())
    } else {
        s
    }
}

/// `s` without the whitespace at either end.
pub open spec fn trim(s: Seq<char>) -> Seq<char> {
    trim_end(trim_start(s))
}

/// `s` without the backticks at either end.
pub open spec fn trim_backticks(s: Seq<char>) -> Seq<char> {
    strip_trailing(strip_leading(s, seq!['`']), seq!['`'])
}

/// The parts in order, with `separator` between each two neighbours.
pub open spec fn joined(parts: Seq<Seq<char>>, separator: Seq<char>) -> Seq<char>
    decreases parts.len(),
{
    if parts.len() == 0 {
        Seq::empty()
    } else if parts.len() == 1 {
        parts[0]
    } else {
        parts[0] + separator + joined(parts.skip(1), separator)
    }
}

/// Whether `pat` occurs somewhere in `s`.
pub open spec fn occurs_in(pat: Seq<char>, s: Seq<char>) -> bool {
    exists|i: int| occurs_at(pat, s, i)
}

/// Whether `pat` occurs in `s` at index `i`.
pub open spec fn occurs_at(pat: Seq<char>, s: Seq<char>, i: int) -> bool {
    0 <= i && i + pat.len() <= s.len() && s.subrange(i, i + pat.len()) == pat
}

/// Stripping never lengthens, and it shortens exactly when the pattern is a
/// non-empty prefix.
pub proof fn lemma_strip_leading_len(s: Seq<char>, pat: Seq<char>)
    ensures
        strip_leading(s, pat).len() <= s.len(),
        (0 < pat.len() && pat.is_prefix_of(s)) <==> strip_leading(s, pat).len() < s.len(),
        !(0 < pat.len() && pat.is_prefix_of(s)) ==> strip_leading(s, pat) == s,
    decreases s.len(),
{
    if 0 < pat.len() && pat.is_prefix_of(s) {
        lemma_strip_leading_len(s.skip(pat.len() as int), pat);
    }
}

/// Stripping never lengthens, and it shortens exactly when the pattern is a
/// non-empty suffix.
pub proof fn lemma_strip_trailing_len(s: Seq<char>, pat: Seq<char>)
    ensures
        strip_trailing(s, pat).len() <= s.len(),
        (0 < pat.len() && pat.is_suffix_of(s)) <==> strip_trailing(s, pat).len() < s.len(),
        !(0 < pat.len() && pat.is_suffix_of(s)) ==> strip_trailing(s, pat) == s,
    decreases s.len(),
{
    if 0 < pat.len() && pat.is_suffix_of(s) {
        lemma_strip_trailing_len(s.take(s.len() - pat.len()), pat);
    }
}

/// The characters of a string, in order.
pub fn to_chars(s: &str) -> (chars: Vec<char>)
    ensures
        chars@ == s@,
{
    let mut chars: Vec<char> = Vec::new();
    for c in it: s.chars()
        invariant
            it.seq() == s@,
            chars@ == it.seq().take(it.index()),
    {
        chars.push(c);
    }
    chars
}

/// Whether `c` is whitespace.
pub fn char_is_whitespace(c: char) -> (b: bool)
    ensures
        b == is_whitespace(c),
{
    ('\u{9}' <= c && c <= '\u{d}') || c == ' ' || c == '\u{85}' || c == '\u{a0}' || c == '\u{1680}'
        || ('\u{2000}' <= c && c <= '\u{200a}') || c == '\u{2028}' || c == '\u{2029}' || c
        == '\u{202f}' || c == '\u{205f}' || c == '\u{3000}'
}

/// Whether the window `[lo, hi)` of `text` begins with `pat`.
pub fn window_starts_with(text: &Vec<char>, lo: usize, hi: usize, pat: &Vec<char>) -> (b: bool)
    requires
        lo <= hi <= text.len(),
    ensures
        b == pat@.is_prefix_of(text@.subrange(lo as int, hi as int)),
{
    if pat.len() > hi - lo {
        return false;
    }
    let ghost window = text@.subrange(lo as int, hi as int);
    let mut i: usize = 0;
    while i < pat.len()
        invariant
            lo <= hi <= text.len(),
            pat.len() <= hi - lo,
            i <= pat.len(),
            window == text@.subrange(lo as int, hi as int),
            forall|j: int| 0 <= j < i ==> window[j] == pat@[j],
        decreases pat.len() - i,
    {
        if text[lo + i] != pat[i] {
            assert(window.subrange(0, pat.len() as int)[i as int] != pat@[i as int]);
            return false;
        }
        i += 1;
    }
    assert(pat@ =~= window.subrange(0, pat.len() as int));
    true
}

/// Whether the window `[lo, hi)` of `text` ends with `pat`.
pub fn window_ends_with(text: &Vec<char>, lo: usize, hi: usize, pat: &Vec<char>) -> (b: bool)
    requires
        lo <= hi <= text.len(),
    ensures
        b == pat@.is_suffix_of(text@.subrange(lo as int, hi as int)),
{
    if pat.len() > hi - lo {
        return false;
    }
    let ghost window = text@.subrange(lo as int, hi as int);
    let from: usize = hi - pat.len();
    let mut i: usize = 0;
    while i < pat.len()
        invariant
            lo <= hi <= text.len(),
            pat.len() <= hi - lo,
            from == hi - pat.len(),
            i <= pat.len(),
            window == text@.subrange(lo as int, hi as int),
            forall|j: int| 0 <= j < i ==> window[window.len() - pat.len() + j] == pat@[j],
        decreases pat.len() - i,
    {
        if text[from + i] != pat[i] {
            assert(window.subrange(window.len() - pat.len(), window.len() as int)[i as int]
                != pat@[i as int]);
            return false;
        }
        i += 1;
    }
    assert(pat@ =~= window.subrange(window.len() - pat.len(), window.len() as int));
    true
}

/// Moves the start of the window past every leading repetition of `pat`.
pub fn skip_leading(text: &Vec<char>, lo: usize, hi: usize, pat: &Vec<char>) -> (start: usize)
    requires
        lo <= hi <= text.len(),
    ensures
        lo <= start <= hi,
        text@.subrange(start as int, hi as int) == strip_leading(
            text@.subrange(lo as int, hi as int),
            pat@,
        ),
{
    let mut start: usize = lo;
    if pat.len() == 0 {
        return start;
    }
    while window_starts_with(text, start, hi, pat)
        invariant
            lo <= start <= hi <= text.len(),
            0 < pat.len(),
            strip_leading(text@.subrange(start as int, hi as int), pat@) == strip_leading(
                text@.subrange(lo as int, hi as int),
                pat@,
            ),
        decreases hi - start,
    {
        assert(text@.subrange(start as int, hi as int).skip(pat.len() as int) =~= text@.subrange(
            start + pat.len(),
            hi as int,
        ));
        start += pat.len();
    }
    start
}

/// Moves the end of the window before every trailing repetition of `pat`.
pub fn skip_trailing(text: &Vec<char>, lo: usize, hi: usize, pat: &Vec<char>) -> (end: usize)
    requires
        lo <= hi <= text.len(),
    ensures
        lo <= end <= hi,
        text@.subrange(lo as int, end as int) == strip_trailing(
            text@.subrange(lo as int, hi as int),
            pat@,
        ),
{
    let mut end: usize = hi;
    if pat.len() == 0 {
        return end;
    }
    while window_ends_with(text, lo, end, pat)
        invariant
            lo <= end <= hi <= text.len(),
            0 < pat.len(),
            strip_trailing(text@.subrange(lo as int, end as int), pat@) == strip_trailing(
                text@.subrange(lo as int, hi as int),
                pat@,
            ),
        decreases end - lo,
    {
        assert(text@.subrange(lo as int, end as int).take(end - lo - pat.len())
            =~= text@.subrange(lo as int, end - pat.len()));
        end -= pat.len();
    }
    end
}

/// Moves the start of the window past its leading whitespace.
pub fn skip_whitespace(text: &Vec<char>, lo: usize, hi: usize) -> (start: usize)
    requires
        lo <= hi <= text.len(),
    ensures
        lo <= start <= hi,
        text@.subrange(start as int, hi as int) == trim_start(text@.subrange(lo as int, hi as int)),
{
    let mut start: usize = lo;
    while start < hi && char_is_whitespace(text[start])
        invariant
            lo <= start <= hi <= text.len(),
            trim_start(text@.subrange(start as int, hi as int)) == trim_start(
                text@.subrange(lo as int, hi as int),
            ),
        decreases hi - start,
    {
        assert(text@.subrange(start as int, hi as int).skip(1) =~= text@.subrange(
            start + 1,
            hi as int,
        ));
        start += 1;
    }
    start
}

/// Moves the end of the window before its trailing whitespace.
pub fn drop_whitespace(text: &Vec<char>, lo: usize, hi: usize) -> (end: usize)
    requires
        lo <= hi <= text.len(),
    ensures
        lo <= end <= hi,
        text@.subrange(lo as int, end as int) == trim_end(text@.subrange(lo as int, hi as int)),
{
    let mut end: usize = hi;
    while lo < end && char_is_whitespace(text[end - 1])
        invariant
            lo <= end <= hi <= text.len(),
            trim_end(text@.subrange(lo as int, end as int)) == trim_end(
                text@.subrange(lo as int, hi as int),
            ),
        decreases end - lo,
    {
        assert(text@.subrange(lo as int, end as int).drop_last() =~= text@.subrange(
            lo as int,
            end - 1,
        ));
        end -= 1;
    }
    end
}

/// Calls `itertools::Itertools::join` on the parts. Believed, not proved:
/// the result holds the parts in order, each as it is, with `separator`
/// between each two neighbours, and is empty where there is no part.
#[verifier::external_body]
pub(crate) fn join_parts(parts: &Vec<String>, separator: &str) -> (whole: String)
    ensures
        whole@ == joined(parts.deep_view(), separator@),
{
    parts.iter().join(separator)
}

/// The part of `s` between its backticks at either end.
pub fn trim_code_marks(s: &str) -> (inner: &str)
    ensures
        inner@ == trim_backticks(s@),
{
    let chars = to_chars(s);
    let mut tick: Vec<char> = Vec::new();
    tick.push('`');
    assert(tick@ =~= seq!['`']);
    assert(chars@.subrange(0, chars.len() as int) =~= chars@);
    let start = skip_leading(&chars, 0, chars.len(), &tick);
    let end = skip_trailing(&chars, start, chars.len(), &tick);
    s.substring_char(start, end)
}

/// Whether two strings hold the same characters.
pub fn same_text(a: &str, b: &str) -> (same: bool)
    ensures
        same == (a@ == b@),
{
    let left = to_chars(a);
    let right = to_chars(b);
    if left.len() != right.len() {
        return false;
    }
    assert(left@.subrange(0, left.len() as int) =~= left@);
    window_starts_with(&left, 0, left.len(), &right)
}

/// Whether `pat` occurs somewhere in `text`.
pub fn contains(text: &str, pat: &str) -> (b: bool)
    ensures
        b == occurs_in(pat@, text@),
{
    let chars = to_chars(text);
    let want = to_chars(pat);
    if want.len() > chars.len() {
        return false;
    }
    let last: usize = chars.len() - want.len();
    let mut i: usize = 0;
    while i <= last
        invariant
            chars@ == text@,
            want@ == pat@,
            last == chars.len() - want.len(),
            i <= last + 1,
            forall|j: int| 0 <= j < i ==> !occurs_at(pat@, text@, j),
        decreases last + 1 - i,
    {
        let found = window_starts_with(&chars, i, chars.len(), &want);
        assert(chars@.subrange(i as int, chars.len() as int).subrange(0, want.len() as int)
            =~= chars@.subrange(i as int, i + want.len()));
        if found {
            assert(occurs_at(pat@, text@, i as int));
            return true;
        }
        i += 1;
    }
    false
}

} // verus!
