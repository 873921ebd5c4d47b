//! Verified text operations on character sequences: searching for a pattern,
//! cutting at a character, ASCII lowercasing and decimal numbers.
use vstd::prelude::*;

verus! {

/// The end of the last occurrence of `pat` in `s` that ends at or before `j`,
/// or 0 when there is none.
pub open spec fn last_end(s: Seq<char>, pat: Seq<char>, j: int) -> int
    decreases j,
{
    if j <= 0 || j < pat.len() {
        0
    } else if s.subrange(j - pat.len(), j) == pat {
        j
    } else {
        last_end(s, pat, j - 1)
    }
}

/// What follows the last occurrence of `pat` in `s`; all of `s` when `pat`
/// does not occur.
pub open spec fn after_last(s: Seq<char>, pat: Seq<char>) -> Seq<char> {
    s.subrange(last_end(s, pat, s.len() as int), s.len() as int)
}

/// The index of the first `c` in `s` at or after `j`, or the length of `s`.
pub open spec fn first_from(s: Seq<char>, c: char, j: int) -> int
    decreases s.len() - j,
{
    if j >= s.len() {
        s.len() as int
    } else if s[j] == c {
        j
    } else {
        first_from(s, c, j + 1)
    }
}

/// What comes before the first `c` in `s`; all of `s` when there is none.
pub open spec fn before_first(s: Seq<char>, c: char) -> Seq<char> {
    s.subrange(0, first_from(s, c, 0))
}

/// The first `c` from `j` on is at or after `j`, and within `s`.
pub proof fn lemma_first_from_bounds(s: Seq<char>, c: char, j: int)
    requires
        0 <= j <= s.len(),
    ensures
        j <= first_from(s, c, j) <= s.len(),
    decreases s.len() - j,
{
    if j < s.len() && s[j] != c {
        lemma_first_from_bounds(s, c, j + 1);
    }
}

/// The line that starts at `j`: up to the next newline (without a carriage
/// return right before it), or to the end.
pub open spec fn line_at(s: Seq<char>, j: int) -> Seq<char> {
    let e = first_from(s, '\n', j);
    if j < e < s.len() && s[e - 1] == '\r' {
        s.subrange(j, e - 1)
    } else {
        s.subrange(j, e)
    }
}

/// The lines of `s` from `j` on. A newline ends a line; a final line needs
/// none, and an empty text has no lines.
pub open spec fn lines_from(s: Seq<char>, j: int) -> Seq<Seq<char>>
    decreases s.len() - j,
    via lines_from_decreases
{
    if j < 0 || j >= s.len() {
        Seq::empty()
    } else {
        let e = first_from(s, '\n', j);
        if e >= s.len() {
            seq![line_at(s, j)]
        } else {
            seq![line_at(s, j)] + lines_from(s, e + 1)
        }
    }
}

#[via_fn]
proof fn lines_from_decreases(s: Seq<char>, j: int) {
    if 0 <= j < s.len() {
        lemma_first_from_bounds(s, '\n', j);
    }
}

/// `c` with `A` to `Z` mapped to `a` to `z`.
pub open spec fn ascii_lower(c: char) -> char {
    if 'A' <= c && c <= 'Z' {
        ((c as u32) + 32) as char
    } else {
        c
    }
}

/// `s` with its ASCII capitals made small; other characters stay.
pub open spec fn ascii_lowercase(s: Seq<char>) -> Seq<char> {
    s.map_values(|c: char| ascii_lower(c))
}

/// The digit character of `d` (below 10).
pub open spec fn digit_char(d: nat) -> char {
    (('0' as u32) + d) as char
}

/// The decimal notation of `n`, without leading zeros.
pub open spec fn decimal(n: nat) -> Seq<char>
    decreases n,
{
    if n < 10 {
        seq![digit_char(n)]
    } else {
        decimal(n / 10).push(digit_char(n % 10))
    }
}

/// The character sequences held by a sequence of strings.
pub open spec fn strings_view(v: Seq<String>) -> Seq<Seq<char>> {
    v.map_values(|s: String| s@)
}

/// Pushing a string pushes its characters onto the view.
pub proof fn lemma_strings_view_push(v: Seq<String>, s: String)
    ensures
        strings_view(v.push(s)) == strings_view(v).push(s@),
{
    assert(strings_view(v.push(s)) =~= strings_view(v).push(s@));
}

/// Relies on String::push: appends one character.
#[verifier::external_body]
pub(crate) fn push_char(s: &mut String, c: char)
    ensures
        final(s)@ == old(s)@.push(c),
{
    s.push(c);
}

/// The characters of `s`, in order.
pub fn chars_of(s: &str) -> (r: Vec<char>)
    ensures
        r@ == s@,
{
    let mut v: Vec<char> = Vec::new();
    for c in it: s.chars()
        invariant
            v@ == it.seq().take(it.index() as int),
    {
        v.push(c);
    }
    v
}

/// The string of the characters `v[from..to]`.
pub fn string_of(v: &Vec<char>, from: usize, to: usize) -> (r: String)
    requires
        from <= to <= v@.len(),
    ensures
        r@ == v@.subrange(from as int, to as int),
{
    let mut s = String::new();
    let mut i: usize = from;
    while i < to
        invariant
            from <= i <= to <= v@.len(),
            s@ == v@.subrange(from as int, i as int),
        decreases to - i,
    {
        push_char(&mut s, v[i]);
        assert(s@ =~= v@.subrange(from as int, i + 1));
        i = i + 1;
    }
    s
}

/// Whether `v[j - pat.len() .. j]` is `pat`.
pub fn ends_with_at(v: &Vec<char>, pat: &Vec<char>, j: usize) -> (r: bool)
    requires
        pat@.len() <= j <= v@.len(),
    ensures
        r == (v@.subrange(j - pat@.len(), j as int) == pat@),
{
    let start = j - pat.len();
    let mut k: usize = 0;
    while k < pat.len()
        invariant
            start + pat@.len() == j <= v@.len(),
            k <= pat@.len(),
            forall|m: int| 0 <= m < k ==> v@[start + m] == pat@[m],
        decreases pat@.len() - k,
    {
        if v[start + k] != pat[k] {
            assert(v@.subrange(start as int, j as int)[k as int] != pat@[k as int]);
            return false;
        }
        k = k + 1;
    }
    assert(v@.subrange(start as int, j as int) =~= pat@);
    true
}

/// The end of the last occurrence of `pat` in `v`, or 0 when there is none.
fn last_match_end(v: &Vec<char>, pat: &Vec<char>) -> (r: usize)
    ensures
        r == last_end(v@, pat@, v@.len() as int),
        r <= v@.len(),
{
    let mut j: usize = v.len();
    while j > 0 && j >= pat.len()
        invariant
            j <= v@.len(),
            last_end(v@, pat@, v@.len() as int) == last_end(v@, pat@, j as int),
        decreases j,
    {
        if ends_with_at(v, pat, j) {
            return j;
        }
        j = j - 1;
    }
    0
}

/// The index of the first `c` in `v` at or after `from`, or the length of `v`.
fn first_index_from(v: &Vec<char>, c: char, from: usize) -> (r: usize)
    requires
        from <= v@.len(),
    ensures
        r == first_from(v@, c, from as int),
        from <= r <= v@.len(),
{
    let mut j: usize = from;
    while j < v.len()
        invariant
            from <= j <= v@.len(),
            first_from(v@, c, from as int) == first_from(v@, c, j as int),
        decreases v@.len() - j,
    {
        if v[j] == c {
            return j;
        }
        j = j + 1;
    }
    j
}

/// What follows the last occurrence of `pat` in `s` (all of `s` when there is
/// none), cut before the first `stop` (if any).
pub fn between(s: &str, pat: &str, stop: char) -> (r: String)
    ensures
        r@ == before_first(after_last(s@, pat@), stop),
{
    let v = chars_of(s);
    let p = chars_of(pat);
    let start = last_match_end(&v, &p);
    let tail = string_of(&v, start, v.len());
    let t = chars_of(tail.as_str());
    let end = first_index_from(&t, stop, 0);
    string_of(&t, 0, end)
}

/// The lines of `s`, split at newlines; a carriage return before a newline is
/// dropped.
pub fn split_lines(s: &str) -> (r: Vec<String>)
    ensures
        strings_view(r@) == lines_from(s@, 0),
{
    let v = chars_of(s);
    let mut lines: Vec<String> = Vec::new();
    let mut j: usize = 0;
    while j < v.len()
        invariant
            j <= v@.len(),
            v@ == s@,
            strings_view(lines@) + lines_from(v@, j as int) == lines_from(v@, 0),
        decreases v@.len() - j,
    {
        let e = first_index_from(&v, '\n', j);
        let end = if j < e && e < v.len() && v[e - 1] == '\r' {
            e - 1
        } else {
            e
        };
        let line = string_of(&v, j, end);
        let ghost before = lines@;
        proof {
            lemma_first_from_bounds(v@, '\n', j as int);
        }
        lines.push(line);
        assert(strings_view(lines@) =~= strings_view(before).push(
            line_at(v@, j as int),
        )) by {
            lemma_strings_view_push(before, line);
        }
        assert(lines_from(v@, j as int) == seq![line_at(v@, j as int)] + lines_from(
            v@,
            e + 1,
        )) by {
            if e >= v@.len() {
                assert(lines_from(v@, e + 1) =~= Seq::<Seq<char>>::empty());
            }
        }
        assert(strings_view(lines@) + lines_from(v@, e + 1) =~= strings_view(before) + lines_from(v@, j as int));
        if e < v.len() {
            j = e + 1;
        } else {
            assert(lines_from(v@, e as int) =~= lines_from(v@, e + 1));
            j = e;
        }
    }
    assert(lines_from(v@, j as int) =~= Seq::<Seq<char>>::empty());
    assert(strings_view(lines@) =~= strings_view(lines@) + lines_from(
        v@,
        j as int,
    ));
    lines
}

/// What follows the last occurrence of `pat` in `s`; all of `s` when there is
/// none.
pub fn after_last_of(s: &str, pat: &str) -> (r: String)
    ensures
        r@ == after_last(s@, pat@),
{
    let v = chars_of(s);
    let p = chars_of(pat);
    let start = last_match_end(&v, &p);
    string_of(&v, start, v.len())
}

/// `s` with its ASCII capitals made small.
pub fn to_ascii_lowercase(s: &str) -> (r: String)
    ensures
        r@ == ascii_lowercase(s@),
{
    let v = chars_of(s);
    let mut out = String::new();
    let mut i: usize = 0;
    while i < v.len()
        invariant
            i <= v@.len(),
            out@ == ascii_lowercase(v@.subrange(0, i as int)),
        decreases v@.len() - i,
    {
        let c = v[i];
        let lower = if 'A' <= c && c <= 'Z' {
            ((c as u8) + 32) as char
        } else {
            c
        };
        push_char(&mut out, lower);
        assert(out@ =~= ascii_lowercase(v@.subrange(0, i + 1)));
        i = i + 1;
    }
    assert(v@.subrange(0, i as int) =~= v@);
    out
}

/// Appends the decimal notation of `n`.
pub fn push_decimal(s: &mut String, n: u16)
    ensures
        final(s)@ == old(s)@ + decimal(n as nat),
    decreases n,
{
    if n >= 10 {
        push_decimal(s, n / 10);
    }
    let d = (n % 10) as u8;
    push_char(s, (48u8 + d) as char);
    assert(final(s)@ =~= old(s)@ + decimal(n as nat));
}

} // verus!
