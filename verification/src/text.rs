//! Text primitives the catalog and the command rely on: whitespace trimming,
//! ASCII case-insensitive comparison, equality and splitting at the first `-`.
//!
//! The executable operations are std's own `str` methods; each is wrapped once
//! and its contract restates what std documents for it, over `Seq<char>`.

use vstd::prelude::*;

verus! {

/// Unicode `White_Space` (the property `str::trim` and `char::is_whitespace`
/// are documented to use): U+0009..U+000D, U+0020, U+0085, U+00A0, U+1680,
/// U+2000..U+200A, U+2028, U+2029, U+202F, U+205F, U+3000.
pub open spec fn is_white_space(c: char) -> bool {
    let n = c as int;
    ||| 0x9 <= n <= 0xd
    ||| n == 0x20
    ||| n == 0x85
    ||| n == 0xa0
    ||| n == 0x1680
    ||| 0x2000 <= n <= 0x200a
    ||| n == 0x2028
    ||| n == 0x2029
    ||| n == 0x202f
    ||| n == 0x205f
    ||| n == 0x3000
}

/// `s` without its leading white space.
pub open spec fn trim_start(s: Seq<char>) -> Seq<char>
    decreases s.len(),
{
    if s.len() > 0 && is_white_space(s[0]) {
        trim_start(s.drop_first())
    } else {
        s
    }
}

/// `s` without its trailing white space.
pub open spec fn trim_end(s: Seq<char>) -> Seq<char>
    decreases s.len(),
{
    if s.len() > 0 && is_white_space(s.last()) {
        trim_end(s.drop_last())
    } else {
        s
    }
}

/// `s` without leading and trailing white space.
pub open spec fn trimmed(s: Seq<char>) -> Seq<char> {
    trim_end(trim_start(s))
}

/// ASCII case folding of one character, as a code point: `A`..`Z` map to
/// `a`..`z`, every other character is left as it is.
pub open spec fn ascii_fold(c: char) -> int {
    if 65 <= c as int <= 90 {
        c as int + 32
    } else {
        c as int
    }
}

/// Two strings are equal up to ASCII case.
pub open spec fn ascii_ci_eq(a: Seq<char>, b: Seq<char>) -> bool {
    &&& a.len() == b.len()
    &&& forall|i: int| 0 <= i < a.len() ==> ascii_fold(#[trigger] a[i]) == ascii_fold(b[i])
}

/// Index of the first `-` at or after `from`, or `s.len()` when there is none.
pub open spec fn first_dash(s: Seq<char>, from: int) -> int
    decreases s.len() - from,
{
    if from >= s.len() {
        s.len() as int
    } else if s[from] == '-' {
        from
    } else {
        first_dash(s, from + 1)
    }
}

/// Wraps `str::trim`, documented to remove leading and trailing Unicode
/// `White_Space`; the contract says the result is exactly `trimmed(s@)`.
#[verifier::external_body]
pub(crate) fn trim(s: &str) -> (r: &str)
    ensures
        r@ == trimmed(s@),
{
    s.trim()
}

/// Wraps `str::eq_ignore_ascii_case`, documented as `to_ascii_lowercase(a) ==
/// to_ascii_lowercase(b)`, where only `A`..`Z` change; the contract states
/// that comparison character by character.
#[verifier::external_body]
pub(crate) fn eq_ignore_ascii_case(a: &str, b: &str) -> (r: bool)
    ensures
        r == ascii_ci_eq(a@, b@),
{
    a.eq_ignore_ascii_case(b)
}

/// Wraps `<str as PartialEq>::eq`: the result is whether the two strings hold
/// the same characters.
#[verifier::external_body]
pub(crate) fn str_eq(a: &str, b: &str) -> (r: bool)
    ensures
        r == (a@ == b@),
{
    a == b
}

/// Wraps `str::split_once('-')`, documented to split at the first occurrence
/// of the delimiter: `None` when there is no `-`, else the parts before and
/// after the first one.
#[verifier::external_body]
pub(crate) fn split_once_dash(s: &str) -> (r: Option<(&str, &str)>)
    ensures
        match r {
            None => !s@.contains('-'),
            Some((before, after)) => s@ == before@ + seq!['-'] + after@ && !before@.contains('-'),
        },
{
    s.split_once('-')
}

/// A string that holds no `-` before `k` and one at `k` has its first dash at `k`.
pub proof fn lemma_first_dash_at(s: Seq<char>, from: int, k: int)
    requires
        0 <= from <= k < s.len(),
        s[k] == '-',
        forall|j: int| from <= j < k ==> s[j] != '-',
    ensures
        first_dash(s, from) == k,
    decreases k - from,
{
    if from < k {
        lemma_first_dash_at(s, from + 1, k);
    }
}

/// A string without `-` from `from` on has no first dash there.
pub proof fn lemma_first_dash_none(s: Seq<char>, from: int)
    requires
        0 <= from,
        forall|j: int| from <= j < s.len() ==> s[j] != '-',
    ensures
        first_dash(s, from) == s.len(),
    decreases s.len() - from,
{
    if from < s.len() {
        lemma_first_dash_none(s, from + 1);
    }
}

/// Trimming the end leaves a prefix.
proof fn lemma_trim_end_prefix(s: Seq<char>)
    ensures
        trim_end(s).len() <= s.len(),
        trim_end(s) =~= s.subrange(0, trim_end(s).len() as int),
        trim_end(s).len() > 0 ==> !is_white_space(trim_end(s).last()),
    decreases s.len(),
{
    if s.len() > 0 && is_white_space(s.last()) {
        lemma_trim_end_prefix(s.drop_last());
    }
}

/// Trimming the start leaves a suffix.
proof fn lemma_trim_start_suffix(s: Seq<char>)
    ensures
        trim_start(s).len() <= s.len(),
        trim_start(s) =~= s.subrange(s.len() - trim_start(s).len(), s.len() as int),
        trim_start(s).len() > 0 ==> !is_white_space(trim_start(s)[0]),
    decreases s.len(),
{
    if s.len() > 0 && is_white_space(s[0]) {
        lemma_trim_start_suffix(s.drop_first());
    }
}

/// Trimming a trimmed string changes nothing.
pub proof fn lemma_trimmed_idempotent(s: Seq<char>)
    ensures
        trimmed(trimmed(s)) == trimmed(s),
{
    let t = trimmed(s);
    let a = trim_start(s);
    lemma_trim_start_suffix(s);
    lemma_trim_end_prefix(a);
    // t is a prefix of a, and a starts with no white space
    if t.len() > 0 {
        assert(t[0] == a[0]);
    }
    assert(trim_start(t) == t);
    lemma_trim_end_prefix(t);
    if t.len() > 0 {
        assert(!is_white_space(t.last()));
    }
    assert(trim_end(t) == t);
}

} // verus!
