//! Character classes of the source alphabet, maximal runs of a class, and
//! line counting.

use vstd::prelude::*;

verus! {

/// An ASCII decimal digit.
pub open spec fn spec_is_digit(c: char) -> bool {
    '0' <= c && c <= '9'
}

/// An ASCII letter or an underscore: what may start an identifier.
pub open spec fn spec_is_alpha(c: char) -> bool {
    ('a' <= c && c <= 'z') || ('A' <= c && c <= 'Z') || c == '_'
}

/// What may continue an identifier.
pub open spec fn spec_is_alpha_numeric(c: char) -> bool {
    is_alpha(c) || is_digit(c)
}

/// Whether `c` is an ASCII decimal digit.
#[verifier::when_used_as_spec(spec_is_digit)]
pub fn is_digit(c: char) -> (r: bool)
    ensures
        r == spec_is_digit(c),
{
    c >= '0' && c <= '9'
}

/// Whether `c` may start an identifier: an ASCII letter or an underscore.
#[verifier::when_used_as_spec(spec_is_alpha)]
pub fn is_alpha(c: char) -> (r: bool)
    ensures
        r == spec_is_alpha(c),
{
    (c >= 'a' && c <= 'z') || (c >= 'A' && c <= 'Z') || c == '_'
}

/// Whether `c` may continue an identifier.
#[verifier::when_used_as_spec(spec_is_alpha_numeric)]
pub fn is_alpha_numeric(c: char) -> (r: bool)
    ensures
        r == spec_is_alpha_numeric(c),
{
    is_alpha(c) || is_digit(c)
}

/// The class of decimal digits, as a predicate value.
pub open spec fn digits() -> spec_fn(char) -> bool {
    |c: char| is_digit(c)
}

/// The class of identifier characters, as a predicate value.
pub open spec fn word_chars() -> spec_fn(char) -> bool {
    |c: char| is_alpha_numeric(c)
}

/// Every character but `stop`, as a predicate value.
pub open spec fn all_but(stop: char) -> spec_fn(char) -> bool {
    |c: char| c != stop
}

/// Where the longest run of characters in class `p` that starts at `from`
/// ends: the first index at or after `from` that is past the end of `s` or
/// holds a character outside `p`.
pub open spec fn run_end(s: Seq<char>, from: int, p: spec_fn(char) -> bool) -> int
    decreases s.len() - from,
{
    if 0 <= from < s.len() && p(s[from]) {
        run_end(s, from + 1, p)
    } else {
        from
    }
}

/// `run_end` delimits a run: everything before it is in the class, and the
/// run cannot be extended.
pub proof fn lemma_run_end(s: Seq<char>, from: int, p: spec_fn(char) -> bool)
    requires
        0 <= from <= s.len(),
    ensures
        from <= run_end(s, from, p) <= s.len(),
        forall|i: int| from <= i < run_end(s, from, p) ==> p(#[trigger] s[i]),
        run_end(s, from, p) < s.len() ==> !p(s[run_end(s, from, p)]),
    decreases s.len() - from,
{
    if from < s.len() && p(s[from]) {
        lemma_run_end(s, from + 1, p);
    }
}

/// Any index that delimits a run in the sense of `lemma_run_end` is `run_end`.
pub proof fn lemma_run_end_unique(s: Seq<char>, from: int, p: spec_fn(char) -> bool, end: int)
    requires
        0 <= from <= end <= s.len(),
        forall|i: int| from <= i < end ==> p(#[trigger] s[i]),
        end < s.len() ==> !p(s[end]),
    ensures
        run_end(s, from, p) == end,
    decreases end - from,
{
    if from < end {
        assert(p(s[from]));
        lemma_run_end_unique(s, from + 1, p, end);
    }
}

/// The number of newline characters in `s`.
pub open spec fn newline_count(s: Seq<char>) -> nat
    decreases s.len(),
{
    if s.len() == 0 {
        0
    } else {
        newline_count(s.drop_last()) + if s.last() == '\n' {
            1nat
        } else {
            0nat
        }
    }
}

/// The 1-based line that the character at index `pos` of `s` stands on:
/// one more than the number of newlines before it.
pub open spec fn line_at(s: Seq<char>, pos: int) -> nat {
    1 + newline_count(s.take(pos))
}

/// Moving one character on moves one line on exactly at a newline.
pub proof fn lemma_line_at_next(s: Seq<char>, pos: int)
    requires
        0 <= pos < s.len(),
    ensures
        line_at(s, pos + 1) == line_at(s, pos) + if s[pos] == '\n' {
            1nat
        } else {
            0nat
        },
{
    assert(s.take(pos + 1).drop_last() == s.take(pos));
}

/// Lines never decrease along the text, and a stretch of `n` characters has
/// at most `n` newlines.
pub proof fn lemma_line_at_monotonic(s: Seq<char>, from: int, to: int)
    requires
        0 <= from <= to <= s.len(),
    ensures
        line_at(s, from) <= line_at(s, to) <= line_at(s, from) + (to - from),
    decreases to - from,
{
    if from < to {
        lemma_line_at_monotonic(s, from, to - 1);
        lemma_line_at_next(s, to - 1);
    }
}

/// A stretch without newlines stays on one line.
pub proof fn lemma_line_at_same(s: Seq<char>, from: int, to: int)
    requires
        0 <= from <= to <= s.len(),
        forall|i: int| from <= i < to ==> #[trigger] s[i] != '\n',
    ensures
        line_at(s, to) == line_at(s, from),
    decreases to - from,
{
    if from < to {
        lemma_line_at_same(s, from, to - 1);
        lemma_line_at_next(s, to - 1);
    }
}

/// The executable `predicate` is total and decides membership in `class`.
pub open spec fn decides<F: Fn(char) -> bool>(predicate: F, class: spec_fn(char) -> bool) -> bool {
    &&& forall|c: char| call_requires(predicate, (c,))
    &&& forall|c: char, r: bool| call_ensures(predicate, (c,), r) ==> r == class(c)
}

/// Walks over `chars` from `from` while `predicate` holds and returns where
/// the run ends.
pub(crate) fn skip_while<F: Fn(char) -> bool>(
    chars: &Vec<char>,
    from: usize,
    predicate: F,
    Ghost(class): Ghost<spec_fn(char) -> bool>,
) -> (end: usize)
    requires
        from <= chars@.len(),
        decides(predicate, class),
    ensures
        end == run_end(chars@, from as int, class),
        from <= end <= chars@.len(),
{
    let mut i: usize = from;
    while i < chars.len()
        invariant
            from <= i <= chars@.len(),
            decides(predicate, class),
            run_end(chars@, from as int, class) == run_end(chars@, i as int, class),
        decreases chars@.len() - i,
    {
        if !predicate(chars[i]) {
            return i;
        }
        i += 1;
    }
    i
}

} // verus!
