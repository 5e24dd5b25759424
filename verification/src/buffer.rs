//! The text store: a rope addressed by char index and by (line, column),
//! with a cursor, line queries and word segmentation over char ranges.

use vstd::prelude::*;

use crate::rope_text::rope_char;
use crate::rope_text::rope_chars;
use crate::rope_text::rope_chars_range;
use crate::rope_text::rope_from_str;
use crate::rope_text::rope_insert;
use crate::rope_text::rope_insert_char;
use crate::rope_text::rope_len_chars;
use crate::rope_text::rope_len_lines;
use crate::rope_text::rope_line_to_char;
use crate::rope_text::rope_remove;
use crate::text::lemma_line_start_at_count;
use crate::text::lemma_line_start_bounds;
use crate::text::lemma_line_start_monotone;
use crate::text::lemma_line_start_step;
use crate::text::line_chars;
use crate::text::line_count;
use crate::text::line_len;
use crate::text::line_start;
use crate::text::splice_insert;
use crate::text::splice_remove;
use crate::words::segment_words;
use vstd::string::StringExecFns;
use crate::words::words_from;
use crate::words::words_match;
use crate::words::Word;

verus! {

/// A (column, row) position, both zero-based. No bound is enforced here:
/// every consumer classifies the position against the store itself.
#[derive(Debug, Default, Copy, Clone, PartialEq, Eq, Structural)]
pub struct Cursor {
    pub x: usize,
    pub y: usize,
}

impl From<(usize, usize)> for Cursor {
    fn from(value: (usize, usize)) -> (r: Cursor) {
        Cursor { x: value.0, y: value.1 }
    }
}

impl vstd::std_specs::convert::FromSpecImpl<(usize, usize)> for Cursor {
    open spec fn obeys_from_spec() -> bool {
        true
    }

    open spec fn from_spec(t: (usize, usize)) -> Cursor {
        Cursor { x: t.0, y: t.1 }
    }
}

/// A failure of a store operation: an index that does not address the
/// store's current content.
#[derive(Debug)]
#[allow(inconsistent_fields)]
pub enum Error {
    NoCharsInFile,
    NoBytesInLine,
    CursorOutOfBounds,
    CharRangeInvalid { start: usize, end: usize },
    CharRangeOutOfBounds { start: Option<usize>, end: Option<usize>, rope_char_len: usize },
    InsertPointOutOfBounds { attempted_idx: usize, rope_char_count: usize },
    LineIndexOutOfBounds { attempted_idx: usize, len_lines: usize },
}

pub type BufferResult<T> = Result<T, Error>;

/// Whether a line's content is visually empty: no chars at all, or exactly
/// one char that is the line terminator.
pub open spec fn visually_empty(l: Seq<char>) -> bool {
    l.len() == 0 || (l.len() == 1 && l[0] == '\n')
}

/// The visual length of a line's content: its char count without the
/// trailing terminator, if it has one.
pub open spec fn visual_length(l: Seq<char>) -> int {
    if l.len() > 0 && l[l.len() - 1] == '\n' {
        l.len() - 1
    } else {
        l.len() as int
    }
}

/// One line of the store, copied out of it; editing the store invalidates
/// any line taken before the edit.
#[derive(Debug)]
pub struct Line {
    chars: Vec<char>,
}

impl View for Line {
    type V = Seq<char>;

    closed spec fn view(&self) -> Seq<char> {
        self.chars@
    }
}

impl Line {
    /// True if there are no visual chars in the line: it is empty or holds
    /// only its terminator.
    pub fn is_visually_empty(&self) -> (r: bool)
        ensures
            r == visually_empty(self@),
    {
        self.chars.len() == 0 || (self.chars.len() == 1 && self.chars[0] == '\n')
    }

    /// True if the line has no chars at all, terminator included.
    pub fn is_empty(&self) -> (r: bool)
        ensures
            r == (self@.len() == 0),
    {
        self.chars.len() == 0
    }

    /// The char length of the line, ignoring a trailing terminator.
    pub fn visual_len(&self) -> (r: usize)
        ensures
            r == visual_length(self@),
    {
        let n = self.chars.len();
        if n > 0 && self.chars[n - 1] == '\n' {
            n - 1
        } else {
            n
        }
    }

    /// The char length of the line, terminator included.
    pub fn len(&self) -> (r: usize)
        ensures
            r == self@.len(),
    {
        self.chars.len()
    }

    /// The chars of the line, terminator included.
    pub fn chars(&self) -> (r: Vec<char>)
        ensures
            r@ == self@,
    {
        let mut v: Vec<char> = Vec::new();
        let mut i: usize = 0;
        while i < self.chars.len()
            invariant
                i <= self.chars.len(),
                v@ == self.chars@.subrange(0, i as int),
            decreases self.chars.len() - i,
        {
            v.push(self.chars[i]);
            proof {
                assert(v@ =~= self.chars@.subrange(0, i + 1));
            }
            i = i + 1;
        }
        proof {
            assert(v@ =~= self@);
        }
        v
    }
}

/// The text store with its cursor.
#[derive(Debug)]
pub struct Buffer {
    pub rope: ropey::Rope,
    pub cursor: Cursor,
}

impl View for Buffer {
    type V = Seq<char>;

    open spec fn view(&self) -> Seq<char> {
        rope_chars(self.rope)
    }
}

impl Buffer {
    /// Builds a store from text already loaded and normalized by the host:
    /// line terminators are `'\n'` and no loader-added trailing terminator
    /// remains. The cursor starts at the origin.
    pub fn from_text(text: &str) -> (r: Buffer)
        ensures
            r@ == text@,
            r.cursor == (Cursor { x: 0, y: 0 }),
    {
        Buffer { rope: rope_from_str(text), cursor: Cursor { x: 0, y: 0 } }
    }

    /// Number of lines in the store; a store ending in a terminator has a
    /// final empty line, and an empty store has one empty line.
    pub fn len_lines(&self) -> (n: usize)
        ensures
            n == line_count(self@),
    {
        rope_len_lines(&self.rope)
    }

    /// Total number of chars in the store.
    pub fn len(&self) -> (n: usize)
        ensures
            n == self@.len(),
    {
        rope_len_chars(&self.rope)
    }

    /// True if the store holds no chars.
    pub fn is_empty(&self) -> (r: bool)
        ensures
            r == (self@.len() == 0),
    {
        rope_len_chars(&self.rope) == 0
    }

    /// The line at `line_idx`, terminator included; fails when the index
    /// is at or past the line count.
    pub fn line(&self, line_idx: usize) -> (r: BufferResult<Line>)
        ensures
            match r {
                Ok(l) => line_idx < line_count(self@) && l@ == line_chars(self@, line_idx as int),
                Err(e) => line_idx >= line_count(self@) && e == (Error::LineIndexOutOfBounds {
                    attempted_idx: line_idx,
                    len_lines: (line_count(self@) as usize),
                }),
            },
    {
        let n = self.len_lines();
        if line_idx >= n {
            return Err(Error::LineIndexOutOfBounds { attempted_idx: line_idx, len_lines: n });
        }
        proof {
            lemma_line_start_step(self@, line_idx as int);
            lemma_line_start_bounds(self@, line_idx as int);
            lemma_line_start_at_count(self@);
            lemma_line_start_monotone(self@, line_idx + 1, line_count(self@));
        }
        let a = rope_line_to_char(&self.rope, line_idx);
        let b = rope_line_to_char(&self.rope, line_idx + 1);
        let chars = rope_chars_range(&self.rope, a, b);
        Ok(Line { chars })
    }

    /// True if `pos` is on the store's tail: the unique position one past
    /// the final char, the only valid insertion point at end of file.
    pub fn on_rope_tail(&self, pos: (usize, usize)) -> (r: bool)
        ensures
            r == on_tail(self@, pos),
    {
        let n = self.len_lines();
        proof {
            crate::text::lemma_line_count_pos(self@);
        }
        let on_last_line = pos.1 == n - 1;
        if !on_last_line {
            return false;
        }
        let line = match self.line(pos.1) {
            Ok(l) => l,
            Err(_) => {
                proof {
                    assert(false);
                }
                return false;
            },
        };
        proof {
            lemma_line_start_step(self@, pos.1 as int);
            lemma_line_start_bounds(self@, pos.1 as int);
            lemma_line_start_at_count(self@);
        }
        line.len() == pos.0
    }

    /// The char index under `pos`; fails when `pos` is not in raw bounds.
    pub fn char_idx_under_pos(&self, pos: (usize, usize)) -> (r: BufferResult<usize>)
        ensures
            match r {
                Ok(i) => in_raw_bounds(self@, pos) && i == line_start(self@, pos.1 as int)
                    + pos.0,
                Err(e) => !in_raw_bounds(self@, pos) && e == Error::CursorOutOfBounds,
            },
    {
        if !self.in_rope_bounds(pos) {
            return Err(Error::CursorOutOfBounds);
        }
        let n = self.len_lines();
        proof {
            lemma_line_start_step(self@, pos.1 as int);
            lemma_line_start_bounds(self@, pos.1 as int);
            lemma_line_start_at_count(self@);
            lemma_line_start_monotone(self@, pos.1 + 1, line_count(self@));
        }
        let a = rope_line_to_char(&self.rope, pos.1);
        let b = rope_line_to_char(&self.rope, pos.1 + 1);
        proof {
            assert(a + pos.0 < b);
        }
        Ok(a + pos.0)
    }

    /// The char under `pos`; fails when `pos` is not in raw bounds.
    pub fn char_under_pos(&self, pos: (usize, usize)) -> (r: BufferResult<char>)
        ensures
            match r {
                Ok(c) => in_raw_bounds(self@, pos) && c == self@[line_start(self@, pos.1 as int)
                    + pos.0],
                Err(e) => !in_raw_bounds(self@, pos) && e == Error::CursorOutOfBounds,
            },
    {
        let char_idx = match self.char_idx_under_pos(pos) {
            Ok(i) => i,
            Err(e) => {
                return Err(e);
            },
        };
        proof {
            lemma_line_start_step(self@, pos.1 as int);
            lemma_line_start_at_count(self@);
            lemma_line_start_monotone(self@, pos.1 + 1, line_count(self@));
        }
        Ok(rope_char(&self.rope, char_idx))
    }

    /// True if `pos` is in raw bounds: on an existing line, at a column
    /// before the line's end, terminator included.
    pub fn in_rope_bounds(&self, pos: (usize, usize)) -> (r: bool)
        ensures
            r == in_raw_bounds(self@, pos),
    {
        let line = match self.line(pos.1) {
            Ok(l) => l,
            Err(_) => {
                return false;
            },
        };
        proof {
            lemma_line_start_step(self@, pos.1 as int);
            lemma_line_start_bounds(self@, pos.1 as int);
        }
        pos.0 < line.len()
    }

    /// True if `pos` is in visual bounds: in raw bounds and not on the
    /// line terminator.
    pub fn in_visual_bounds(&self, pos: (usize, usize)) -> (r: bool)
        ensures
            r == in_vis_bounds(self@, pos),
    {
        let line = match self.line(pos.1) {
            Ok(l) => l,
            Err(_) => {
                return false;
            },
        };
        proof {
            lemma_line_start_step(self@, pos.1 as int);
            lemma_line_start_bounds(self@, pos.1 as int);
        }
        pos.0 < line.visual_len()
    }

    /// Removes the char range `[start, end)`; fails when the range is
    /// inverted or reaches past the store's end, and then changes nothing.
    pub fn remove(&mut self, start: usize, end: usize) -> (r: BufferResult<()>)
        ensures
            final(self).cursor == old(self).cursor,
            match r {
                Ok(()) => start <= end <= old(self)@.len() && final(self)@ == splice_remove(
                    old(self)@,
                    start as int,
                    end as int,
                ),
                Err(e) => final(self)@ == old(self)@ && if start > end {
                    e == (Error::CharRangeInvalid { start, end })
                } else {
                    end > old(self)@.len() && e == (Error::CharRangeOutOfBounds {
                        start: Some(start),
                        end: Some(end),
                        rope_char_len: (old(self)@.len() as usize),
                    })
                },
            },
    {
        if start > end {
            return Err(Error::CharRangeInvalid { start, end });
        }
        let n = self.len();
        if end > n {
            return Err(
                Error::CharRangeOutOfBounds { start: Some(start), end: Some(end), rope_char_len: n },
            );
        }
        rope_remove(&mut self.rope, start, end);
        Ok(())
    }

    /// The char index of the start of line `line_idx`; fails when the
    /// index is at or past the line count.
    pub fn char_idx_line_start(&self, line_idx: usize) -> (r: BufferResult<usize>)
        ensures
            match r {
                Ok(i) => line_idx < line_count(self@) && i == line_start(self@, line_idx as int),
                Err(e) => line_idx >= line_count(self@) && e == (Error::LineIndexOutOfBounds {
                    attempted_idx: line_idx,
                    len_lines: (line_count(self@) as usize),
                }),
            },
    {
        let n = self.len_lines();
        if line_idx >= n {
            return Err(Error::LineIndexOutOfBounds { attempted_idx: line_idx, len_lines: n });
        }
        Ok(rope_line_to_char(&self.rope, line_idx))
    }

    /// The char index of the last char of line `line_idx`, terminator
    /// included; fails when the index is at or past the line count. The
    /// store must not be empty: an empty store has no last char on its one
    /// line.
    pub fn char_idx_line_end(&self, line_idx: usize) -> (r: BufferResult<usize>)
        requires
            self@.len() > 0,
        ensures
            match r {
                Ok(i) => line_idx < line_count(self@) && i == line_start(self@, line_idx + 1)
                    - 1,
                Err(e) => line_idx >= line_count(self@) && e == (Error::LineIndexOutOfBounds {
                    attempted_idx: line_idx,
                    len_lines: (line_count(self@) as usize),
                }),
            },
    {
        let n = self.len_lines();
        if line_idx >= n {
            return Err(Error::LineIndexOutOfBounds { attempted_idx: line_idx, len_lines: n });
        }
        proof {
            lemma_line_start_monotone(self@, line_idx + 1, line_count(self@));
            lemma_line_start_at_count(self@);
            lemma_line_start_step(self@, line_idx as int);
            lemma_line_start_bounds(self@, line_idx as int);
            if line_start(self@, line_idx + 1) == 0 {
                crate::text::lemma_line_break_from_bounds(
                    self@,
                    line_start(self@, line_idx as int),
                );
                assert(false);
            }
        }
        let i = rope_line_to_char(&self.rope, line_idx + 1);
        Ok(i - 1)
    }

    /// Removes line `line_idx` whole, terminator included; fails when the
    /// index is at or past the line count, and then changes nothing.
    pub fn delete_line(&mut self, line_idx: usize) -> (r: BufferResult<()>)
        ensures
            final(self).cursor == old(self).cursor,
            match r {
                Ok(()) => line_idx < line_count(old(self)@) && final(self)@ == splice_remove(
                    old(self)@,
                    line_start(old(self)@, line_idx as int),
                    line_start(old(self)@, line_idx + 1),
                ),
                Err(e) => final(self)@ == old(self)@ && line_idx >= line_count(old(self)@) && e
                    == (Error::LineIndexOutOfBounds {
                    attempted_idx: line_idx,
                    len_lines: (line_count(old(self)@) as usize),
                }),
            },
    {
        let n = self.len_lines();
        if line_idx >= n {
            return Err(Error::LineIndexOutOfBounds { attempted_idx: line_idx, len_lines: n });
        }
        proof {
            lemma_line_start_step(self@, line_idx as int);
            lemma_line_start_bounds(self@, line_idx as int);
            lemma_line_start_at_count(self@);
            lemma_line_start_monotone(self@, line_idx + 1, line_count(self@));
        }
        let a = rope_line_to_char(&self.rope, line_idx);
        let b = rope_line_to_char(&self.rope, line_idx + 1);
        rope_remove(&mut self.rope, a, b);
        Ok(())
    }

    /// Inserts `text` at char index `char_offset`; fails when the offset
    /// is past the store's end, and then changes nothing.
    pub fn insert(&mut self, char_offset: usize, text: &str) -> (r: BufferResult<()>)
        ensures
            final(self).cursor == old(self).cursor,
            match r {
                Ok(()) => char_offset <= old(self)@.len() && final(self)@ == splice_insert(
                    old(self)@,
                    char_offset as int,
                    text@,
                ),
                Err(e) => final(self)@ == old(self)@ && char_offset > old(self)@.len() && e
                    == (Error::InsertPointOutOfBounds {
                    attempted_idx: char_offset,
                    rope_char_count: (old(self)@.len() as usize),
                }),
            },
    {
        let n = self.len();
        if char_offset > n {
            return Err(
                Error::InsertPointOutOfBounds { attempted_idx: char_offset, rope_char_count: n },
            );
        }
        rope_insert(&mut self.rope, char_offset, text);
        Ok(())
    }

    /// Inserts one char at char index `char_offset`; fails when the offset
    /// is past the store's end, and then changes nothing.
    pub fn insert_char(&mut self, char_offset: usize, ch: char) -> (r: BufferResult<()>)
        ensures
            final(self).cursor == old(self).cursor,
            match r {
                Ok(()) => char_offset <= old(self)@.len() && final(self)@ == splice_insert(
                    old(self)@,
                    char_offset as int,
                    seq![ch],
                ),
                Err(e) => final(self)@ == old(self)@ && char_offset > old(self)@.len() && e
                    == (Error::InsertPointOutOfBounds {
                    attempted_idx: char_offset,
                    rope_char_count: (old(self)@.len() as usize),
                }),
            },
    {
        let n = self.len();
        if char_offset > n {
            return Err(
                Error::InsertPointOutOfBounds { attempted_idx: char_offset, rope_char_count: n },
            );
        }
        rope_insert_char(&mut self.rope, char_offset, ch);
        Ok(())
    }

    /// The short words of the char range `[start, end)`, each char tagged
    /// with its position relative to the range; fails as `remove` does on
    /// a bad range.
    pub fn words(&self, start: usize, end: usize) -> (r: BufferResult<Vec<Word>>)
        ensures
            match r {
                Ok(ws) => start <= end <= self@.len() && words_match(
                    ws@,
                    self@.subrange(start as int, end as int),
                    words_from(self@.subrange(start as int, end as int), 0, false),
                ),
                Err(e) => if start > end {
                    e == (Error::CharRangeInvalid { start, end })
                } else {
                    end > self@.len() && e == (Error::CharRangeOutOfBounds {
                        start: Some(start),
                        end: Some(end),
                        rope_char_len: (self@.len() as usize),
                    })
                },
            },
    {
        let chars = match self.range_chars(start, end) {
            Ok(v) => v,
            Err(e) => {
                return Err(e);
            },
        };
        Ok(segment_words(&chars, false))
    }

    /// The long words of the char range `[start, end)`: maximal runs of
    /// non-whitespace chars; fails as `remove` does on a bad range.
    pub fn words_long(&self, start: usize, end: usize) -> (r: BufferResult<Vec<Word>>)
        ensures
            match r {
                Ok(ws) => start <= end <= self@.len() && words_match(
                    ws@,
                    self@.subrange(start as int, end as int),
                    words_from(self@.subrange(start as int, end as int), 0, true),
                ),
                Err(e) => if start > end {
                    e == (Error::CharRangeInvalid { start, end })
                } else {
                    end > self@.len() && e == (Error::CharRangeOutOfBounds {
                        start: Some(start),
                        end: Some(end),
                        rope_char_len: (self@.len() as usize),
                    })
                },
            },
    {
        let chars = match self.range_chars(start, end) {
            Ok(v) => v,
            Err(e) => {
                return Err(e);
            },
        };
        Ok(segment_words(&chars, true))
    }

    fn range_chars(&self, start: usize, end: usize) -> (r: BufferResult<Vec<char>>)
        ensures
            match r {
                Ok(v) => start <= end <= self@.len() && v@ == self@.subrange(
                    start as int,
                    end as int,
                ),
                Err(e) => if start > end {
                    e == (Error::CharRangeInvalid { start, end })
                } else {
                    end > self@.len() && e == (Error::CharRangeOutOfBounds {
                        start: Some(start),
                        end: Some(end),
                        rope_char_len: (self@.len() as usize),
                    })
                },
            },
    {
        if start > end {
            return Err(Error::CharRangeInvalid { start, end });
        }
        let n = self.len();
        if end > n {
            return Err(
                Error::CharRangeOutOfBounds { start: Some(start), end: Some(end), rope_char_len: n },
            );
        }
        Ok(rope_chars_range(&self.rope, start, end))
    }

    /// The (column, row) of the last visual char of the store: the end of
    /// the last line, or of the line before it when the last line is
    /// empty. Fails when the store holds no chars.
    pub fn end_pos(&self) -> (r: BufferResult<(usize, usize)>)
        ensures
            r == end_position(self@),
    {
        let n = self.len();
        if n == 0 {
            return Err(Error::NoCharsInFile);
        }
        proof {
            crate::text::lemma_line_count_pos(self@);
        }
        let last_line_idx = self.len_lines() - 1;
        proof {
            lemma_line_start_at_count(self@);
            lemma_line_start_step(self@, last_line_idx as int);
            lemma_line_start_bounds(self@, last_line_idx as int);
        }
        let last_start = rope_line_to_char(&self.rope, last_line_idx);
        let last_len = n - last_start;
        if last_len == 0 {
            // the store is not empty, so an empty last line follows a
            // terminated one
            proof {
                if last_line_idx == 0 {
                    assert(false);
                }
                lemma_line_start_step(self@, last_line_idx - 1);
            }
            let prev_start = rope_line_to_char(&self.rope, last_line_idx - 1);
            let prev_len = last_start - prev_start;
            let x = if prev_len >= 2 {
                prev_len - 2
            } else {
                0
            };
            Ok((x, last_line_idx - 1))
        } else {
            Ok((last_len - 1, last_line_idx))
        }
    }
}

/// The decimal digit char for a value below ten.
pub open spec fn dec_digit(d: nat) -> char {
    if d == 0 {
        '0'
    } else if d == 1 {
        '1'
    } else if d == 2 {
        '2'
    } else if d == 3 {
        '3'
    } else if d == 4 {
        '4'
    } else if d == 5 {
        '5'
    } else if d == 6 {
        '6'
    } else if d == 7 {
        '7'
    } else if d == 8 {
        '8'
    } else {
        '9'
    }
}

/// The decimal digits of `n`, most significant first, with no leading
/// zero except for zero itself.
pub open spec fn dec_str(n: nat) -> Seq<char>
    decreases n,
{
    if n < 10 {
        seq![dec_digit(n)]
    } else {
        dec_str(n / 10) + seq![dec_digit(n % 10)]
    }
}

fn digit_str(d: usize) -> (s: &'static str)
    requires
        d < 10,
    ensures
        s@ == seq![dec_digit(d as nat)],
{
    if d == 0 {
        proof {
            reveal_strlit("0");
            assert("0"@ =~= seq![dec_digit(d as nat)]);
        }
        "0"
    } else if d == 1 {
        proof {
            reveal_strlit("1");
            assert("1"@ =~= seq![dec_digit(d as nat)]);
        }
        "1"
    } else if d == 2 {
        proof {
            reveal_strlit("2");
            assert("2"@ =~= seq![dec_digit(d as nat)]);
        }
        "2"
    } else if d == 3 {
        proof {
            reveal_strlit("3");
            assert("3"@ =~= seq![dec_digit(d as nat)]);
        }
        "3"
    } else if d == 4 {
        proof {
            reveal_strlit("4");
            assert("4"@ =~= seq![dec_digit(d as nat)]);
        }
        "4"
    } else if d == 5 {
        proof {
            reveal_strlit("5");
            assert("5"@ =~= seq![dec_digit(d as nat)]);
        }
        "5"
    } else if d == 6 {
        proof {
            reveal_strlit("6");
            assert("6"@ =~= seq![dec_digit(d as nat)]);
        }
        "6"
    } else if d == 7 {
        proof {
            reveal_strlit("7");
            assert("7"@ =~= seq![dec_digit(d as nat)]);
        }
        "7"
    } else if d == 8 {
        proof {
            reveal_strlit("8");
            assert("8"@ =~= seq![dec_digit(d as nat)]);
        }
        "8"
    } else {
        proof {
            reveal_strlit("9");
            assert("9"@ =~= seq![dec_digit(d as nat)]);
        }
        "9"
    }
}

/// Renders a number in decimal.
pub fn usize_to_string(n: usize) -> (s: String)
    ensures
        s@ == dec_str(n as nat),
    decreases n,
{
    if n < 10 {
        digit_str(n).to_owned()
    } else {
        proof {
            assert(n / 10 < n && n % 10 < 10) by (nonlinear_arith)
                requires
                    n >= 10,
            ;
        }
        let mut s = usize_to_string(n / 10);
        s.append(digit_str(n % 10));
        s
    }
}

/// The text of a possibly half-open char range, as `a..b` with either
/// bound absent.
pub open spec fn range_text(start: Option<usize>, end: Option<usize>) -> Seq<char> {
    match (start, end) {
        (None, None) => ".."@,
        (Some(a), None) => dec_str(a as nat) + ".."@,
        (None, Some(b)) => ".."@ + dec_str(b as nat),
        (Some(a), Some(b)) => dec_str(a as nat) + ".."@ + dec_str(b as nat),
    }
}

/// Renders a possibly half-open char range as `a..b`, leaving out an
/// absent bound.
pub fn write_range(start_idx: Option<usize>, end_idx: Option<usize>) -> (s: String)
    ensures
        s@ == range_text(start_idx, end_idx),
{
    match (start_idx, end_idx) {
        (None, None) => "..".to_owned(),
        (Some(a), None) => {
            let mut s = usize_to_string(a);
            s.append("..");
            s
        },
        (None, Some(b)) => {
            let mut s = "..".to_owned();
            s.append(usize_to_string(b).as_str());
            s
        },
        (Some(a), Some(b)) => {
            let mut s = usize_to_string(a);
            s.append("..");
            s.append(usize_to_string(b).as_str());
            s
        },
    }
}

/// The display text of a store error.
pub open spec fn buffer_err_text(e: Error) -> Seq<char> {
    "Buffer error: "@ + match e {
        Error::NoCharsInFile => "no bytes in line"@,
        Error::NoBytesInLine => "no bytes in line"@,
        Error::CursorOutOfBounds => "cursor is out of bounds"@,
        Error::InsertPointOutOfBounds { attempted_idx, rope_char_count } => "Insert index "@
            + dec_str(attempted_idx as nat) + " out of bounds. "@ + dec_str(rope_char_count as nat)
            + " chars in rope."@,
        Error::CharRangeOutOfBounds { start, end, rope_char_len } => (
        "Char range out of bounds: char range "@ + range_text(start, end)
            + ", Rope/RopeSlice char length "@ + dec_str(rope_char_len as nat)),
        Error::CharRangeInvalid { start, end } => "Invalid char range "@ + dec_str(start as nat)
            + ".."@ + dec_str(end as nat) + ": start must be <= end"@,
        Error::LineIndexOutOfBounds { attempted_idx, len_lines } => "Line index "@ + dec_str(
            attempted_idx as nat,
        ) + " out of bounds. "@ + dec_str(len_lines as nat) + " lines in rope."@,
    }
}

impl Error {
    /// The human-readable text of this error.
    pub fn message(&self) -> (s: String)
        ensures
            s@ == buffer_err_text(*self),
    {
        let mut s = "Buffer error: ".to_owned();
        match self {
            Error::NoCharsInFile => {
                s.append("no bytes in line");
            },
            Error::NoBytesInLine => {
                s.append("no bytes in line");
            },
            Error::CursorOutOfBounds => {
                s.append("cursor is out of bounds");
            },
            Error::InsertPointOutOfBounds { attempted_idx, rope_char_count } => {
                s.append("Insert index ");
                s.append(usize_to_string(*attempted_idx).as_str());
                s.append(" out of bounds. ");
                s.append(usize_to_string(*rope_char_count).as_str());
                s.append(" chars in rope.");
            },
            Error::CharRangeOutOfBounds { start, end, rope_char_len } => {
                s.append("Char range out of bounds: char range ");
                s.append(write_range(*start, *end).as_str());
                s.append(", Rope/RopeSlice char length ");
                s.append(usize_to_string(*rope_char_len).as_str());
            },
            Error::CharRangeInvalid { start, end } => {
                s.append("Invalid char range ");
                s.append(usize_to_string(*start).as_str());
                s.append("..");
                s.append(usize_to_string(*end).as_str());
                s.append(": start must be <= end");
            },
            Error::LineIndexOutOfBounds { attempted_idx, len_lines } => {
                s.append("Line index ");
                s.append(usize_to_string(*attempted_idx).as_str());
                s.append(" out of bounds. ");
                s.append(usize_to_string(*len_lines).as_str());
                s.append(" lines in rope.");
            },
        }
        proof {
            assert(s@ =~= buffer_err_text(*self));
        }
        s
    }
}

/// Whether `pos` is one past the final char of the store: on the last
/// line, one column past its content.
pub open spec fn on_tail(s: Seq<char>, pos: (usize, usize)) -> bool {
    pos.1 + 1 == line_count(s) && pos.0 == line_len(s, pos.1 as int)
}

/// Whether `pos` addresses an existing char, the line terminator included.
pub open spec fn in_raw_bounds(s: Seq<char>, pos: (usize, usize)) -> bool {
    pos.1 < line_count(s) && pos.0 < line_len(s, pos.1 as int)
}

/// Whether `pos` addresses an existing char other than the terminator.
pub open spec fn in_vis_bounds(s: Seq<char>, pos: (usize, usize)) -> bool {
    pos.1 < line_count(s) && pos.0 < visual_length(line_chars(s, pos.1 as int))
}

/// The position of the store's last visual char, or the error for an
/// empty store.
pub open spec fn end_position(s: Seq<char>) -> BufferResult<(usize, usize)> {
    if s.len() == 0 {
        Err(Error::NoCharsInFile)
    } else {
        let last = line_count(s) - 1;
        if line_len(s, last) == 0 {
            let prev_len = line_len(s, last - 1);
            Ok(
                (
                    if prev_len >= 2 {
                        (prev_len - 2) as usize
                    } else {
                        0usize
                    },
                    (last - 1) as usize,
                ),
            )
        } else {
            Ok(((line_len(s, last) - 1) as usize, last as usize))
        }
    }
}

} // verus!
