//! The mathematical model of the text store: a sequence of Unicode scalar
//! values, addressed by char index or by (line, column). A line terminator
//! (`'\n'`) belongs to the line it ends; the last line has no terminator.

use vstd::prelude::*;

verus! {

/// Number of line terminators in `s[0..end]`.
pub open spec fn newline_count(s: Seq<char>, end: int) -> int
    decreases end,
{
    if end <= 0 {
        0
    } else {
        newline_count(s, end - 1) + if 0 <= end - 1 < s.len() && s[end - 1] == '\n' {
            1int
        } else {
            0int
        }
    }
}

/// Number of lines in the store: one more than the number of terminators.
/// An empty store has one (empty) line; a store ending in `'\n'` has a final
/// empty line after it.
pub open spec fn line_count(s: Seq<char>) -> int {
    newline_count(s, s.len() as int) + 1
}

/// Index of the first line terminator at or after `i`, or `s.len()` if there
/// is none.
pub open spec fn line_break_from(s: Seq<char>, i: int) -> int
    decreases s.len() - i,
{
    if i < 0 || i >= s.len() {
        s.len() as int
    } else if s[i] == '\n' {
        i
    } else {
        line_break_from(s, i + 1)
    }
}

/// Char index of the start of line `l`: the index just after the `l`-th
/// terminator. For `l == line_count(s)` this is `s.len()`, one past the end.
pub open spec fn line_start(s: Seq<char>, l: int) -> int
    decreases l,
{
    if l <= 0 {
        0
    } else {
        let e = line_break_from(s, line_start(s, l - 1)) + 1;
        if e > s.len() {
            s.len() as int
        } else {
            e
        }
    }
}

/// Char index of the last char of line `l`, terminator included; for the
/// last line this is the store's final char.
pub open spec fn line_end(s: Seq<char>, l: int) -> int {
    line_start(s, l + 1) - 1
}

/// Char length of line `l`, terminator included.
pub open spec fn line_len(s: Seq<char>, l: int) -> int {
    line_start(s, l + 1) - line_start(s, l)
}

/// The chars of line `l`, terminator included.
pub open spec fn line_chars(s: Seq<char>, l: int) -> Seq<char> {
    s.subrange(line_start(s, l), line_start(s, l + 1))
}

/// The store after inserting `t` at char index `i`.
pub open spec fn splice_insert(s: Seq<char>, i: int, t: Seq<char>) -> Seq<char> {
    s.subrange(0, i) + t + s.subrange(i, s.len() as int)
}

/// The store after removing the char range `[a, b)`.
pub open spec fn splice_remove(s: Seq<char>, a: int, b: int) -> Seq<char> {
    s.subrange(0, a) + s.subrange(b, s.len() as int)
}

/// The text from `i` on with every CRLF pair collapsed to a bare
/// terminator.
pub open spec fn lf_normal_from(s: Seq<char>, i: int) -> Seq<char>
    decreases s.len() - i,
{
    if i < 0 || i >= s.len() {
        Seq::empty()
    } else if s[i] == '\r' && i + 1 < s.len() && s[i + 1] == '\n' {
        seq!['\n'] + lf_normal_from(s, i + 2)
    } else {
        seq![s[i]] + lf_normal_from(s, i + 1)
    }
}

/// The text without the one trailing terminator a saved file usually
/// carries; a store built from the result satisfies the line model,
/// where the last line has no terminator.
pub open spec fn strip_trailing_terminator(s: Seq<char>) -> Seq<char> {
    if s.len() > 0 && s[s.len() - 1] == '\n' {
        s.drop_last()
    } else {
        s
    }
}

/// Normalizes loaded text for the store: collapses CRLF pairs to `'\n'`
/// and strips one trailing terminator. The host's loader converts its
/// bytes to chars and hands them here before building a store.
pub fn normalize_loaded(chars: Vec<char>) -> (r: Vec<char>)
    ensures
        r@ == strip_trailing_terminator(lf_normal_from(chars@, 0)),
{
    let ghost s = chars@;
    let mut out: Vec<char> = Vec::new();
    let mut i: usize = 0;
    proof {
        assert(lf_normal_from(s, 0) =~= out@ + lf_normal_from(s, 0));
    }
    while i < chars.len()
        invariant
            i <= chars.len(),
            s == chars@,
            lf_normal_from(s, 0) == out@ + lf_normal_from(s, i as int),
        decreases chars.len() - i,
    {
        let c = chars[i];
        if c == '\r' && i + 1 < chars.len() && chars[i + 1] == '\n' {
            out.push('\n');
            proof {
                assert(lf_normal_from(s, 0) =~= out@ + lf_normal_from(s, i + 2));
            }
            i = i + 2;
        } else {
            out.push(c);
            proof {
                assert(lf_normal_from(s, 0) =~= out@ + lf_normal_from(s, i + 1));
            }
            i = i + 1;
        }
    }
    if out.len() > 0 && out[out.len() - 1] == '\n' {
        out.truncate(out.len() - 1);
        proof {
            assert(out@ =~= strip_trailing_terminator(lf_normal_from(s, 0)));
        }
    }
    out
}

pub proof fn lemma_line_break_from_bounds(s: Seq<char>, i: int)
    requires
        0 <= i <= s.len(),
    ensures
        i <= line_break_from(s, i) <= s.len(),
        line_break_from(s, i) < s.len() ==> s[line_break_from(s, i)] == '\n',
        forall|k: int| i <= k < line_break_from(s, i) ==> s[k] != '\n',
    decreases s.len() - i,
{
    if i < s.len() && s[i] != '\n' {
        lemma_line_break_from_bounds(s, i + 1);
    }
}

pub proof fn lemma_line_start_bounds(s: Seq<char>, l: int)
    requires
        l >= 0,
    ensures
        0 <= line_start(s, l) <= s.len(),
    decreases l,
{
    if l > 0 {
        lemma_line_start_bounds(s, l - 1);
        lemma_line_break_from_bounds(s, line_start(s, l - 1));
    }
}

pub proof fn lemma_line_start_step(s: Seq<char>, l: int)
    requires
        l >= 0,
    ensures
        line_start(s, l) <= line_start(s, l + 1) <= s.len(),
        line_break_from(s, line_start(s, l)) == s.len() ==> line_start(s, l + 1) == s.len(),
        line_break_from(s, line_start(s, l)) < s.len() ==> {
            &&& line_start(s, l + 1) == line_break_from(s, line_start(s, l)) + 1
            &&& s[line_start(s, l + 1) - 1] == '\n'
        },
        forall|k: int|
            line_start(s, l) <= k < line_break_from(s, line_start(s, l)) ==> s[k] != '\n',
{
    lemma_line_start_bounds(s, l);
    lemma_line_break_from_bounds(s, line_start(s, l));
}

pub proof fn lemma_line_start_monotone(s: Seq<char>, l1: int, l2: int)
    requires
        0 <= l1 <= l2,
    ensures
        line_start(s, l1) <= line_start(s, l2),
    decreases l2 - l1,
{
    if l1 < l2 {
        lemma_line_start_step(s, l2 - 1);
        lemma_line_start_monotone(s, l1, l2 - 1);
    }
}

pub proof fn lemma_newline_count_monotone(s: Seq<char>, a: int, b: int)
    requires
        0 <= a <= b <= s.len(),
    ensures
        newline_count(s, a) <= newline_count(s, b),
        (forall|k: int| a <= k < b ==> s[k] != '\n') ==> newline_count(s, a) == newline_count(
            s,
            b,
        ),
    decreases b - a,
{
    if a < b {
        lemma_newline_count_monotone(s, a, b - 1);
    }
}

/// Line `l` starts after exactly `l` terminators; the line after the last
/// one starts one past the end of the store.
pub proof fn lemma_line_structure(s: Seq<char>, l: int)
    requires
        0 <= l < line_count(s),
    ensures
        line_start(s, l) <= s.len(),
        newline_count(s, line_start(s, l)) == l,
        l == line_count(s) - 1 ==> line_start(s, l + 1) == s.len(),
    decreases l,
{
    lemma_newline_count_monotone(s, 0, s.len() as int);
    if l == 0 {
    } else {
        lemma_line_structure(s, l - 1);
        let p = line_start(s, l - 1);
        let b = line_break_from(s, p);
        lemma_line_break_from_bounds(s, p);
        lemma_newline_count_monotone(s, p, b);
        if b == s.len() {
            // then the store would hold only l - 1 terminators
            assert(newline_count(s, s.len() as int) == l - 1);
            assert(false);
        }
        assert(newline_count(s, b + 1) == l);
    }
    if l == line_count(s) - 1 {
        let p = line_start(s, l);
        let b = line_break_from(s, p);
        lemma_line_break_from_bounds(s, p);
        lemma_newline_count_monotone(s, p, b);
        if b < s.len() {
            assert(newline_count(s, b + 1) == l + 1);
            lemma_newline_count_monotone(s, b + 1, s.len() as int);
            assert(false);
        }
    }
}

/// Every line but the last ends in a terminator, so it holds at least
/// one char.
pub proof fn lemma_nonlast_line_has_terminator(s: Seq<char>, l: int)
    requires
        0 <= l < line_count(s) - 1,
    ensures
        line_start(s, l) < line_start(s, l + 1) <= s.len(),
        s[line_start(s, l + 1) - 1] == '\n',
{
    lemma_line_structure(s, l);
    lemma_line_start_bounds(s, l);
    let p = line_start(s, l);
    let b = line_break_from(s, p);
    lemma_line_break_from_bounds(s, p);
    lemma_newline_count_monotone(s, p, b);
    if b == s.len() {
        assert(newline_count(s, s.len() as int) == l);
        assert(false);
    }
    lemma_line_start_step(s, l);
}

/// Every store has at least one line.
pub proof fn lemma_line_count_pos(s: Seq<char>)
    ensures
        line_count(s) >= 1,
{
    lemma_newline_count_monotone(s, 0, s.len() as int);
}

/// The one-past-the-last-line start index is the store's length.
pub proof fn lemma_line_start_at_count(s: Seq<char>)
    ensures
        line_start(s, line_count(s)) == s.len(),
{
    lemma_newline_count_monotone(s, 0, s.len() as int);
    lemma_line_structure(s, line_count(s) - 1);
}

/// LAW. For every line `n` that has a following line, the char index of the
/// next line's start is one past the char index of this line's end: lines
/// tile the store with no gap and no overlap.
pub proof fn lemma_line_tiling(s: Seq<char>, n: int)
    requires
        0 <= n < line_count(s) - 1,
    ensures
        line_start(s, n + 1) == line_end(s, n) + 1,
{
}

/// LAW. Inserting `t` at char index `i` and then removing the char range
/// `[i, i + t.len())` restores the store to its original content (and hence
/// its original length).
pub proof fn lemma_insert_remove_round_trip(s: Seq<char>, i: int, t: Seq<char>)
    requires
        0 <= i <= s.len(),
    ensures
        splice_remove(splice_insert(s, i, t), i, i + t.len()) == s,
{
    assert(splice_remove(splice_insert(s, i, t), i, i + t.len()) =~= s);
}

} // verus!
