//! Character classes of the lexical grammar, and helpers for describing
//! maximal runs of characters and newline counts within a character sequence.

use vstd::prelude::*;

verus! {

/// A decimal digit, the only digits the numeric grammar admits.
pub open spec fn is_digit(c: char) -> bool {
    ('0' as u32) <= (c as u32) && (c as u32) <= ('9' as u32)
}

/// A character that may open an identifier: a letter or an underscore.
pub open spec fn is_alpha(c: char) -> bool {
    ||| ('a' as u32) <= (c as u32) && (c as u32) <= ('z' as u32)
    ||| ('A' as u32) <= (c as u32) && (c as u32) <= ('Z' as u32)
    ||| c == '_'
}

/// A character that may continue an identifier.
pub open spec fn is_alnum(c: char) -> bool {
    is_alpha(c) || is_digit(c)
}

pub fn digit_char(c: char) -> (r: bool)
    ensures
        r == is_digit(c),
{
    ('0' as u32) <= (c as u32) && (c as u32) <= ('9' as u32)
}

pub fn alpha_char(c: char) -> (r: bool)
    ensures
        r == is_alpha(c),
{
    (('a' as u32) <= (c as u32) && (c as u32) <= ('z' as u32)) || (('A' as u32) <= (c as u32)
        && (c as u32) <= ('Z' as u32)) || c == '_'
}

pub fn alnum_char(c: char) -> (r: bool)
    ensures
        r == is_alnum(c),
{
    alpha_char(c) || digit_char(c)
}

/// First position at or after `i` whose character fails `p`; the scanner's
/// maximal runs (digits, identifier characters, a comment's body, a string
/// literal's body) all end at such a position.
pub open spec fn run_end(s: Seq<char>, i: int, p: spec_fn(char) -> bool) -> int
    decreases s.len() - i,
{
    if 0 <= i && i < s.len() && p(s[i]) {
        run_end(s, i + 1, p)
    } else {
        i
    }
}

pub proof fn lemma_run_end(s: Seq<char>, i: int, p: spec_fn(char) -> bool)
    requires
        0 <= i <= s.len(),
    ensures
        i <= run_end(s, i, p) <= s.len(),
        forall|j: int| i <= j < run_end(s, i, p) ==> p(s[j]),
        run_end(s, i, p) < s.len() ==> !p(s[run_end(s, i, p)]),
    decreases s.len() - i,
{
    if i < s.len() && p(s[i]) {
        lemma_run_end(s, i + 1, p);
    }
}

pub proof fn lemma_run_end_is(s: Seq<char>, i: int, e: int, p: spec_fn(char) -> bool)
    requires
        0 <= i <= e <= s.len(),
        forall|j: int| i <= j < e ==> p(s[j]),
        e < s.len() ==> !p(s[e]),
    ensures
        run_end(s, i, p) == e,
    decreases e - i,
{
    if i < e {
        assert(p(s[i]));
        lemma_run_end_is(s, i + 1, e, p);
    }
}

/// End of a maximal run of decimal digits starting at `i`.
pub open spec fn digits_end(s: Seq<char>, i: int) -> int {
    run_end(s, i, |c: char| is_digit(c))
}

pub proof fn lemma_digits_end(s: Seq<char>, i: int)
    requires
        0 <= i <= s.len(),
    ensures
        i <= digits_end(s, i) <= s.len(),
        forall|j: int| i <= j < digits_end(s, i) ==> is_digit(#[trigger] s[j]),
        digits_end(s, i) < s.len() ==> !is_digit(s[digits_end(s, i)]),
{
    lemma_run_end(s, i, |c: char| is_digit(c));
}

pub proof fn lemma_digits_end_is(s: Seq<char>, i: int, e: int)
    requires
        0 <= i <= e <= s.len(),
        forall|j: int| i <= j < e ==> is_digit(#[trigger] s[j]),
        e < s.len() ==> !is_digit(s[e]),
    ensures
        digits_end(s, i) == e,
{
    lemma_run_end_is(s, i, e, |c: char| is_digit(c));
}

/// End of a maximal run of identifier characters starting at `i`.
pub open spec fn alnum_end(s: Seq<char>, i: int) -> int {
    run_end(s, i, |c: char| is_alnum(c))
}

pub proof fn lemma_alnum_end_is(s: Seq<char>, i: int, e: int)
    requires
        0 <= i <= e <= s.len(),
        forall|j: int| i <= j < e ==> is_alnum(#[trigger] s[j]),
        e < s.len() ==> !is_alnum(s[e]),
    ensures
        alnum_end(s, i) == e,
{
    lemma_run_end_is(s, i, e, |c: char| is_alnum(c));
}

/// First newline at or after `i`, or the end of input: where a line comment's
/// body ends.
pub open spec fn line_end(s: Seq<char>, i: int) -> int {
    run_end(s, i, |c: char| c != '\n')
}

pub proof fn lemma_line_end_is(s: Seq<char>, i: int, e: int)
    requires
        0 <= i <= e <= s.len(),
        forall|j: int| i <= j < e ==> (#[trigger] s[j]) != '\n',
        e < s.len() ==> s[e] == '\n',
    ensures
        line_end(s, i) == e,
{
    lemma_run_end_is(s, i, e, |c: char| c != '\n');
}

/// First double quote at or after `i`, or the end of input: where a string
/// literal's body ends.
pub open spec fn quote_end(s: Seq<char>, i: int) -> int {
    run_end(s, i, |c: char| c != '"')
}

pub proof fn lemma_quote_end_is(s: Seq<char>, i: int, e: int)
    requires
        0 <= i <= e <= s.len(),
        forall|j: int| i <= j < e ==> (#[trigger] s[j]) != '"',
        e < s.len() ==> s[e] == '"',
    ensures
        quote_end(s, i) == e,
{
    lemma_run_end_is(s, i, e, |c: char| c != '"');
}

/// Number of newline characters in `s` at positions `[i, j)`.
pub open spec fn count_nl(s: Seq<char>, i: int, j: int) -> nat
    decreases j - i,
{
    if 0 <= i && i < j {
        (if s[i] == '\n' {
            1nat
        } else {
            0nat
        }) + count_nl(s, i + 1, j)
    } else {
        0nat
    }
}

pub proof fn lemma_count_nl_snoc(s: Seq<char>, i: int, j: int)
    requires
        0 <= i <= j,
    ensures
        count_nl(s, i, j + 1) == count_nl(s, i, j) + (if s[j] == '\n' {
            1nat
        } else {
            0nat
        }),
    decreases j - i,
{
    if i < j {
        lemma_count_nl_snoc(s, i + 1, j);
    } else {
        assert(count_nl(s, j + 1, j + 1) == 0);
    }
}

} // verus!
