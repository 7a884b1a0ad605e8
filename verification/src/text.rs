//! Character-level building blocks shared by the grammars: literal matching,
//! runs of digits and blanks, searching, and trimming.
//!
//! Text is modelled as `Seq<char>`, the view of `str`. Every specification
//! speaks of a sequence and of positions in it; the executable functions work
//! on a slice of characters holding the same sequence.
use vstd::prelude::*;
use vstd::string::StrSliceExecFns;
use vstd::string::StringExecFns;

verus! {

/// An ASCII decimal digit.
pub open spec fn is_digit(c: char) -> bool {
    '0' <= c <= '9'
}

/// A space or a horizontal tab: the only characters allowed between the
/// tokens of a phrase.
pub open spec fn is_blank(c: char) -> bool {
    c == ' ' || c == '\t'
}

/// A character with the Unicode `White_Space` property, which is what
/// trimming removes.
pub open spec fn is_whitespace(c: char) -> bool {
    ||| '\u{9}' <= c <= '\u{d}'
    ||| c == ' '
    ||| c == '\u{85}'
    ||| c == '\u{a0}'
    ||| c == '\u{1680}'
    ||| '\u{2000}' <= c <= '\u{200a}'
    ||| c == '\u{2028}'
    ||| c == '\u{2029}'
    ||| c == '\u{202f}'
    ||| c == '\u{205f}'
    ||| c == '\u{3000}'
}

/// The numeric value of a digit character.
pub open spec fn digit_value(c: char) -> nat
    recommends
        is_digit(c),
{
    (c as int - '0' as int) as nat
}

/// `pat` occurs in `s` starting at position `at`.
pub open spec fn matches_at(s: Seq<char>, at: int, pat: Seq<char>) -> bool {
    &&& 0 <= at
    &&& at + pat.len() <= s.len()
    &&& s.subrange(at, at + pat.len()) == pat
}

/// The number of consecutive digits in `s` starting at position `at`.
pub open spec fn digit_run(s: Seq<char>, at: int) -> nat
    decreases s.len() - at,
{
    if 0 <= at < s.len() && is_digit(s[at]) {
        1 + digit_run(s, at + 1)
    } else {
        0
    }
}

/// The number of consecutive blanks in `s` starting at position `at`.
pub open spec fn blank_run(s: Seq<char>, at: int) -> nat
    decreases s.len() - at,
{
    if 0 <= at < s.len() && is_blank(s[at]) {
        1 + blank_run(s, at + 1)
    } else {
        0
    }
}

/// The position of the first occurrence of `pat` in `s` that starts at or
/// after `from`, if there is one.
pub open spec fn find_from(s: Seq<char>, from: int, pat: Seq<char>) -> Option<int>
    decreases s.len() + 1 - from,
{
    if from < 0 || from + pat.len() > s.len() {
        None
    } else if matches_at(s, from, pat) {
        Some(from)
    } else {
        find_from(s, from + 1, pat)
    }
}

/// The position of the last occurrence of `pat` in `s` that starts before
/// `before`, if there is one.
pub open spec fn rfind_before(s: Seq<char>, before: int, pat: Seq<char>) -> Option<int>
    decreases before,
{
    if before <= 0 {
        None
    } else if matches_at(s, before - 1, pat) {
        Some(before - 1)
    } else {
        rfind_before(s, before - 1, pat)
    }
}

/// The position of the last occurrence of `pat` in `s`, if there is one.
pub open spec fn last_occurrence(s: Seq<char>, pat: Seq<char>) -> Option<int> {
    rfind_before(s, s.len() as int + 1, pat)
}

/// The first position in `lo..hi` that holds no whitespace, or `hi`.
pub open spec fn trim_start(s: Seq<char>, lo: int, hi: int) -> int
    decreases hi - lo,
{
    if 0 <= lo < hi <= s.len() && is_whitespace(s[lo]) {
        trim_start(s, lo + 1, hi)
    } else {
        lo
    }
}

/// The end of the last stretch in `lo..hi` that ends in a character other
/// than whitespace, or `lo`.
pub open spec fn trim_end(s: Seq<char>, lo: int, hi: int) -> int
    decreases hi - lo,
{
    if 0 <= lo < hi <= s.len() && is_whitespace(s[hi - 1]) {
        trim_end(s, lo, hi - 1)
    } else {
        hi
    }
}

/// The part `lo..hi` of `s` without its leading and trailing whitespace.
pub open spec fn trimmed(s: Seq<char>, lo: int, hi: int) -> Seq<char> {
    let start = trim_start(s, lo, hi);
    s.subrange(start, trim_end(s, start, hi))
}

/// The part of `s` from position `at` on, with every occurrence of `pat`
/// replaced by `with`. Occurrences are taken from the left, and the search
/// resumes after each.
pub open spec fn replaced_from(s: Seq<char>, at: int, pat: Seq<char>, with: Seq<char>) -> Seq<
    char,
>
    decreases s.len() - at,
{
    if at < 0 || at >= s.len() || pat.len() == 0 {
        Seq::empty()
    } else if matches_at(s, at, pat) {
        with + replaced_from(s, at + pat.len(), pat, with)
    } else {
        seq![s[at]] + replaced_from(s, at + 1, pat, with)
    }
}

/// `s` with every occurrence of `pat` replaced by `with`. An empty pattern
/// occurs nowhere.
pub open spec fn replaced(s: Seq<char>, pat: Seq<char>, with: Seq<char>) -> Seq<char> {
    if pat.len() == 0 {
        s
    } else {
        replaced_from(s, 0, pat, with)
    }
}

/// The run of digits starting at `at` ends inside `s`, and every position in
/// it holds a digit.
pub proof fn lemma_digit_run_bounds(s: Seq<char>, at: int)
    requires
        0 <= at <= s.len(),
    ensures
        at + digit_run(s, at) <= s.len(),
        forall|i: int| at <= i < at + digit_run(s, at) ==> is_digit(#[trigger] s[i]),
        at + digit_run(s, at) < s.len() ==> !is_digit(s[at + digit_run(s, at)]),
    decreases s.len() - at,
{
    if at < s.len() && is_digit(s[at]) {
        lemma_digit_run_bounds(s, at + 1);
    }
}

/// The run of blanks starting at `at` ends inside `s`.
pub proof fn lemma_blank_run_bounds(s: Seq<char>, at: int)
    requires
        0 <= at <= s.len(),
    ensures
        at + blank_run(s, at) <= s.len(),
        forall|i: int| at <= i < at + blank_run(s, at) ==> is_blank(#[trigger] s[i]),
        at + blank_run(s, at) < s.len() ==> !is_blank(s[at + blank_run(s, at)]),
    decreases s.len() - at,
{
    if at < s.len() && is_blank(s[at]) {
        lemma_blank_run_bounds(s, at + 1);
    }
}

/// What `find_from` returns is the least position at or after `from` where
/// the pattern occurs.
pub proof fn lemma_find_from_is_first(s: Seq<char>, from: int, pat: Seq<char>)
    requires
        0 <= from,
    ensures
        match find_from(s, from, pat) {
            Some(i) => {
                &&& from <= i
                &&& matches_at(s, i, pat)
                &&& forall|j: int| from <= j < i ==> !matches_at(s, j, pat)
            },
            None => forall|j: int| from <= j ==> !matches_at(s, j, pat),
        },
    decreases s.len() + 1 - from,
{
    if from + pat.len() <= s.len() && !matches_at(s, from, pat) {
        lemma_find_from_is_first(s, from + 1, pat);
    }
}

/// What `rfind_before` returns is the greatest position before `before`
/// where the pattern occurs.
pub proof fn lemma_rfind_before_is_last(s: Seq<char>, before: int, pat: Seq<char>)
    ensures
        match rfind_before(s, before, pat) {
            Some(i) => {
                &&& 0 <= i < before
                &&& matches_at(s, i, pat)
                &&& forall|j: int| i < j < before ==> !matches_at(s, j, pat)
            },
            None => forall|j: int| 0 <= j < before ==> !matches_at(s, j, pat),
        },
    decreases before,
{
    if before > 0 && !matches_at(s, before - 1, pat) {
        lemma_rfind_before_is_last(s, before - 1, pat);
    }
}

/// Trimming keeps a stretch inside `lo..hi` that neither starts nor ends
/// with whitespace, and drops nothing but whitespace.
pub proof fn lemma_trim_bounds(s: Seq<char>, lo: int, hi: int)
    requires
        0 <= lo <= hi <= s.len(),
    ensures
        ({
            let a = trim_start(s, lo, hi);
            let b = trim_end(s, a, hi);
            &&& lo <= a <= b <= hi
            &&& forall|i: int| lo <= i < a ==> is_whitespace(#[trigger] s[i])
            &&& forall|i: int| b <= i < hi ==> is_whitespace(#[trigger] s[i])
            &&& a < b ==> !is_whitespace(s[a]) && !is_whitespace(s[b - 1])
        }),
{
    lemma_trim_start_bounds(s, lo, hi);
    lemma_trim_end_bounds(s, trim_start(s, lo, hi), hi);
}

/// Where leading whitespace ends.
proof fn lemma_trim_start_bounds(s: Seq<char>, lo: int, hi: int)
    requires
        0 <= lo <= hi <= s.len(),
    ensures
        lo <= trim_start(s, lo, hi) <= hi,
        forall|i: int| lo <= i < trim_start(s, lo, hi) ==> is_whitespace(#[trigger] s[i]),
        trim_start(s, lo, hi) < hi ==> !is_whitespace(s[trim_start(s, lo, hi)]),
    decreases hi - lo,
{
    if lo < hi && is_whitespace(s[lo]) {
        lemma_trim_start_bounds(s, lo + 1, hi);
    }
}

/// Where trailing whitespace begins.
proof fn lemma_trim_end_bounds(s: Seq<char>, lo: int, hi: int)
    requires
        0 <= lo <= hi <= s.len(),
    ensures
        lo <= trim_end(s, lo, hi) <= hi,
        forall|i: int| trim_end(s, lo, hi) <= i < hi ==> is_whitespace(#[trigger] s[i]),
        lo < trim_end(s, lo, hi) ==> !is_whitespace(s[trim_end(s, lo, hi) - 1]),
    decreases hi - lo,
{
    if lo < hi && is_whitespace(s[hi - 1]) {
        lemma_trim_end_bounds(s, lo, hi - 1);
    }
}

/// The characters of a string, in order.
pub fn chars_of(s: &str) -> (chars: Vec<char>)
    ensures
        chars@ == s@,
{
    let mut chars: Vec<char> = Vec::new();
    for c in it: s.chars()
        invariant
            it.seq() == s@,
            chars@ == it.seq().take(it.index() as int),
    {
        chars.push(c);
    }
    chars
}

/// Whether a character is an ASCII decimal digit.
pub fn char_is_digit(c: char) -> (b: bool)
    ensures
        b == is_digit(c),
{
    '0' <= c && c <= '9'
}

/// Whether a character is a space or a tab.
pub fn char_is_blank(c: char) -> (b: bool)
    ensures
        b == is_blank(c),
{
    c == ' ' || c == '\t'
}

/// Whether a character is Unicode whitespace.
pub fn char_is_whitespace(c: char) -> (b: bool)
    ensures
        b == is_whitespace(c),
{
    ('\u{9}' <= c && c <= '\u{d}') || c == ' ' || c == '\u{85}' || c == '\u{a0}' || c
        == '\u{1680}' || ('\u{2000}' <= c && c <= '\u{200a}') || c == '\u{2028}' || c
        == '\u{2029}' || c == '\u{202f}' || c == '\u{205f}' || c == '\u{3000}'
}

/// Whether the literal `pat` occurs in `s` at position `at`.
pub fn occurs_at(s: &[char], at: usize, pat: &str) -> (b: bool)
    requires
        at <= s@.len(),
    ensures
        b == matches_at(s@, at as int, pat@),
        s@.len() <= usize::MAX,
{
    let len = s.len();
    let mut i: usize = at;
    let mut ok = true;
    for c in it: pat.chars()
        invariant
            it.seq() == pat@,
            at <= s@.len() == len,
            ok ==> i == at + it.index() && i <= s@.len(),
            ok ==> forall|j: int| 0 <= j < it.index() ==> s@[at + j] == pat@[j],
            !ok ==> !matches_at(s@, at as int, pat@),
    {
        if ok {
            if i < len && s[i] == c {
                i += 1;
            } else {
                ok = false;
            }
        }
    }
    proof {
        if ok {
            assert(s@.subrange(at as int, at + pat@.len()) =~= pat@);
        }
    }
    ok
}

/// The length of the run of digits in `s` starting at `at`.
pub fn count_digits(s: &[char], at: usize) -> (n: usize)
    requires
        at <= s@.len(),
    ensures
        n == digit_run(s@, at as int),
        at + n <= s@.len() <= usize::MAX,
{
    let mut i: usize = at;
    while i < s.len() && char_is_digit(s[i])
        invariant
            at <= i <= s@.len(),
            digit_run(s@, at as int) == (i - at) + digit_run(s@, i as int),
        decreases s@.len() - i,
    {
        i += 1;
    }
    i - at
}

/// The length of the run of blanks in `s` starting at `at`.
pub fn count_blanks(s: &[char], at: usize) -> (n: usize)
    requires
        at <= s@.len(),
    ensures
        n == blank_run(s@, at as int),
        at + n <= s@.len() <= usize::MAX,
{
    let mut i: usize = at;
    while i < s.len() && char_is_blank(s[i])
        invariant
            at <= i <= s@.len(),
            blank_run(s@, at as int) == (i - at) + blank_run(s@, i as int),
        decreases s@.len() - i,
    {
        i += 1;
    }
    i - at
}

/// Searches `s` for the literal `pat`, starting at `from`.
pub fn find(s: &[char], from: usize, pat: &str) -> (found: Option<usize>)
    requires
        from <= s@.len(),
    ensures
        match found {
            Some(i) => find_from(s@, from as int, pat@) == Some(i as int) && i <= s@.len(),
            None => find_from(s@, from as int, pat@) is None,
        },
{
    let mut i: usize = from;
    loop
        invariant
            from <= i <= s@.len(),
            find_from(s@, from as int, pat@) == find_from(s@, i as int, pat@),
        decreases s@.len() - i,
    {
        if occurs_at(s, i, pat) {
            return Some(i);
        }
        if i == s.len() {
            assert(find_from(s@, i + 1, pat@) is None);
            return None;
        }
        i += 1;
    }
}

/// Searches `s` backwards for the literal `pat`.
pub fn rfind(s: &[char], pat: &str) -> (found: Option<usize>)
    ensures
        match found {
            Some(i) => last_occurrence(s@, pat@) == Some(i as int) && i <= s@.len(),
            None => last_occurrence(s@, pat@) is None,
        },
{
    let mut i: usize = s.len();
    loop
        invariant
            i <= s@.len(),
            last_occurrence(s@, pat@) == rfind_before(s@, i + 1, pat@),
        decreases i,
    {
        if occurs_at(s, i, pat) {
            return Some(i);
        }
        if i == 0 {
            assert(rfind_before(s@, 0, pat@) is None);
            return None;
        }
        i -= 1;
    }
}

/// The bounds of the part `lo..hi` of `s` once its leading and trailing
/// whitespace is dropped.
pub fn trim_bounds(s: &[char], lo: usize, hi: usize) -> (bounds: (usize, usize))
    requires
        lo <= hi <= s@.len(),
    ensures
        bounds.0 == trim_start(s@, lo as int, hi as int),
        bounds.1 == trim_end(s@, bounds.0 as int, hi as int),
        lo <= bounds.0 <= bounds.1 <= hi,
{
    let mut a: usize = lo;
    while a < hi && char_is_whitespace(s[a])
        invariant
            lo <= a <= hi <= s@.len(),
            trim_start(s@, lo as int, hi as int) == trim_start(s@, a as int, hi as int),
        decreases hi - a,
    {
        a += 1;
    }
    let mut b: usize = hi;
    while a < b && char_is_whitespace(s[b - 1])
        invariant
            a <= b <= hi <= s@.len(),
            trim_end(s@, a as int, hi as int) == trim_end(s@, a as int, b as int),
        decreases b - a,
    {
        b -= 1;
    }
    (a, b)
}

/// Replaces every occurrence of `pat` in `s` by `with`.
pub fn replace_all(s: &str, pat: &str, with: &str) -> (out: String)
    ensures
        out@ == replaced(s@, pat@, with@),
{
    let width = pat.unicode_len();
    if width == 0 {
        return s.to_owned();
    }
    let chars = chars_of(s);
    let text = chars.as_slice();
    let mut out = String::new();
    let mut kept_from: usize = 0;
    let mut at: usize = 0;
    while at < text.len()
        invariant
            text@ == s@,
            width == pat@.len(),
            width > 0,
            kept_from <= at <= s@.len(),
            replaced_from(s@, 0, pat@, with@) == out@ + s@.subrange(kept_from as int, at as int)
                + replaced_from(s@, at as int, pat@, with@),
        decreases s@.len() - at,
    {
        if occurs_at(text, at, pat) {
            out.append(s.substring_char(kept_from, at));
            out.append(with);
            at = at + width;
            kept_from = at;
        } else {
            at = at + 1;
        }
    }
    out.append(s.substring_char(kept_from, at));
    out
}

} // verus!
