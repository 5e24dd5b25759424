//! Trusted boundary around the `ropey` rope that backs the text store.
//!
//! The rope's contents are named by the spec function [`rope_chars`]; every
//! wrapper states what the wrapped `ropey` call does in terms of that name
//! and the line arithmetic of [`crate::text`]. `ropey` is built without its
//! `cr_lines`/`unicode_lines` features, so `'\n'` is its only line break and
//! its line indexing agrees with [`crate::text::line_start`].

use vstd::prelude::*;

use crate::text::line_count;
use crate::text::line_start;
use crate::text::splice_insert;
use crate::text::splice_remove;

verus! {

#[verifier::external_type_specification]
#[verifier::external_body]
pub struct ExRope(ropey::Rope);

/// The contents of a rope, as the sequence of its chars in order.
pub uninterp spec fn rope_chars(r: ropey::Rope) -> Seq<char>;

/// Relies on `ropey::Rope::from_str`: builds a rope holding exactly the
/// chars of `text`.
#[verifier::external_body]
pub(crate) fn rope_from_str(text: &str) -> (r: ropey::Rope)
    ensures
        rope_chars(r) == text@,
{
    ropey::Rope::from_str(text)
}

/// Relies on `ropey::Rope::len_chars`: the total number of chars.
#[verifier::external_body]
pub(crate) fn rope_len_chars(r: &ropey::Rope) -> (n: usize)
    ensures
        n == rope_chars(*r).len(),
{
    r.len_chars()
}

/// Relies on `ropey::Rope::len_lines`: one more than the number of line
/// breaks, which with the feature set used are exactly the `'\n'` chars.
#[verifier::external_body]
pub(crate) fn rope_len_lines(r: &ropey::Rope) -> (n: usize)
    ensures
        n == line_count(rope_chars(*r)),
{
    r.len_lines()
}

/// Relies on `ropey::Rope::char`: the char at `char_idx`; it panics when the
/// index is out of bounds, which the precondition rules out.
#[verifier::external_body]
pub(crate) fn rope_char(r: &ropey::Rope, char_idx: usize) -> (c: char)
    requires
        char_idx < rope_chars(*r).len(),
    ensures
        c == rope_chars(*r)[char_idx as int],
{
    r.char(char_idx)
}

/// Relies on `ropey::Rope::line_to_char`: the char index of the start of
/// line `line_idx`; `line_idx` may be one past the last line, giving the
/// one-past-the-end char index. It panics beyond that, which the
/// precondition rules out.
#[verifier::external_body]
pub(crate) fn rope_line_to_char(r: &ropey::Rope, line_idx: usize) -> (n: usize)
    requires
        line_idx <= line_count(rope_chars(*r)),
    ensures
        n == line_start(rope_chars(*r), line_idx as int),
{
    r.line_to_char(line_idx)
}

/// Relies on `ropey::Rope::insert`: splices the chars of `text` in at char
/// index `char_idx`; it panics when `char_idx > len_chars()`, which the
/// precondition rules out.
#[verifier::external_body]
pub(crate) fn rope_insert(r: &mut ropey::Rope, char_idx: usize, text: &str)
    requires
        char_idx <= rope_chars(*old(r)).len(),
    ensures
        rope_chars(*final(r)) == splice_insert(rope_chars(*old(r)), char_idx as int, text@),
{
    r.insert(char_idx, text)
}

/// Relies on `ropey::Rope::insert_char`: splices one char in at char index
/// `char_idx`; it panics when `char_idx > len_chars()`, which the
/// precondition rules out.
#[verifier::external_body]
pub(crate) fn rope_insert_char(r: &mut ropey::Rope, char_idx: usize, ch: char)
    requires
        char_idx <= rope_chars(*old(r)).len(),
    ensures
        rope_chars(*final(r)) == splice_insert(
            rope_chars(*old(r)),
            char_idx as int,
            seq![ch],
        ),
{
    r.insert_char(char_idx, ch)
}

/// Relies on `ropey::Rope::remove`: removes the char range `[start, end)`;
/// it panics when `start > end` or `end > len_chars()`, which the
/// precondition rules out.
#[verifier::external_body]
pub(crate) fn rope_remove(r: &mut ropey::Rope, start: usize, end: usize)
    requires
        start <= end <= rope_chars(*old(r)).len(),
    ensures
        rope_chars(*final(r)) == splice_remove(rope_chars(*old(r)), start as int, end as int),
{
    r.remove(start..end)
}

/// Relies on `ropey::Rope::slice` and `ropey::iter::Chars`: the chars of the
/// char range `[start, end)`, in order. `slice` panics on an invalid range,
/// which the precondition rules out.
#[verifier::external_body]
pub(crate) fn rope_chars_range(r: &ropey::Rope, start: usize, end: usize) -> (v: Vec<char>)
    requires
        start <= end <= rope_chars(*r).len(),
    ensures
        v@ == rope_chars(*r).subrange(start as int, end as int),
{
    r.slice(start..end).chars().collect()
}

/// Whether a char has the Unicode `White_Space` property.
pub uninterp spec fn is_white(c: char) -> bool;

/// Relies on `char::is_whitespace`: true exactly of the `White_Space`
/// chars, a function of the char alone.
#[verifier::external_body]
pub(crate) fn char_is_whitespace(c: char) -> (b: bool)
    ensures
        b == is_white(c),
{
    c.is_whitespace()
}

/// Whether a char is in one of the Unicode numeric categories (Nd, Nl, No).
pub uninterp spec fn is_num(c: char) -> bool;

/// Relies on `char::is_numeric`: true exactly of the chars in the Unicode
/// categories Nd, Nl and No, a function of the char alone.
#[verifier::external_body]
pub(crate) fn char_is_numeric(c: char) -> (b: bool)
    ensures
        b == is_num(c),
{
    c.is_numeric()
}

} // verus!
