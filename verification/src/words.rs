//! Word classification and segmentation.
//!
//! A short word is a maximal run of chars of one classification (letter,
//! number or punctuation); a long word is a maximal run of any non-
//! whitespace chars. Whitespace runs separate words and are never emitted.

use vstd::prelude::*;

use crate::rope_text::char_is_numeric;
use crate::rope_text::char_is_whitespace;
use crate::rope_text::is_num;
use crate::rope_text::is_white;

verus! {

/// The classification of one char; the four categories are mutually
/// exclusive and cover every char.
#[derive(Debug, PartialEq, Eq, Copy, Clone, Structural)]
pub enum CharType {
    Letter,
    Number,
    Punctuation,
    Whitespace,
}

/// One char of a queried range, with its position relative to that range.
#[derive(Debug, Copy, Clone)]
pub struct Char {
    pub char: char,
    pub char_idx: usize,
}

/// A non-empty run of chars forming one word.
pub type Word = Vec<Char>;

/// Whether a char is ASCII punctuation: the four ASCII ranges
/// `!..=/`, `:..=@`, `[..=`` ` `` and `{..=~`.
pub open spec fn is_ascii_punct(c: char) -> bool {
    ||| 0x21 <= c as u32 && c as u32 <= 0x2f
    ||| 0x3a <= c as u32 && c as u32 <= 0x40
    ||| 0x5b <= c as u32 && c as u32 <= 0x60
    ||| 0x7b <= c as u32 && c as u32 <= 0x7e
}

pub fn char_is_ascii_punct(c: char) -> (b: bool)
    ensures
        b == is_ascii_punct(c),
{
    let u: u32 = c as u32;
    (0x21 <= u && u <= 0x2f) || (0x3a <= u && u <= 0x40) || (0x5b <= u && u <= 0x60) || (0x7b
        <= u && u <= 0x7e)
}

/// The classification of a char: whitespace first, then ASCII punctuation,
/// then numeric, and every other char counts as a letter.
pub open spec fn classify_char(c: char) -> CharType {
    if is_white(c) {
        CharType::Whitespace
    } else if is_ascii_punct(c) {
        CharType::Punctuation
    } else if is_num(c) {
        CharType::Number
    } else {
        CharType::Letter
    }
}

pub fn classify_exec(c: char) -> (t: CharType)
    ensures
        t == classify_char(c),
{
    if char_is_whitespace(c) {
        CharType::Whitespace
    } else if char_is_ascii_punct(c) {
        CharType::Punctuation
    } else if char_is_numeric(c) {
        CharType::Number
    } else {
        CharType::Letter
    }
}

impl Char {
    /// The classification of this char.
    pub fn classify(&self) -> (t: CharType)
        ensures
            t == classify_char(self.char),
    {
        classify_exec(self.char)
    }
}

impl Char {
    /// Tags a char with its position in the queried range.
    pub fn new(c: char, char_idx: usize) -> (r: Char)
        ensures
            r == (Char { char: c, char_idx }),
    {
        Char { char: c, char_idx }
    }
}

/// A word of the range `s`, as the half-open char interval `[start, end)`.
pub ghost struct WordSpan {
    pub start: int,
    pub end: int,
}

/// Whether the run that started before position `j` ends at `j`: a
/// whitespace char always ends it, and in short mode so does any change of
/// classification.
pub open spec fn breaks_run(s: Seq<char>, j: int, long: bool) -> bool {
    is_white(s[j]) || (!long && classify_char(s[j]) != classify_char(s[j - 1]))
}

/// The end of the word that starts at `i`: the first position after `i`
/// where the run breaks, or the end of the range.
pub open spec fn run_end(s: Seq<char>, i: int, long: bool) -> int
    decreases s.len() - i,
{
    if i < 0 || i + 1 >= s.len() {
        s.len() as int
    } else if breaks_run(s, i + 1, long) {
        i + 1
    } else {
        run_end(s, i + 1, long)
    }
}

pub proof fn lemma_run_end_bounds(s: Seq<char>, i: int, long: bool)
    requires
        0 <= i < s.len(),
    ensures
        i < run_end(s, i, long) <= s.len(),
        forall|k: int| i < k < run_end(s, i, long) ==> !breaks_run(s, k, long),
        run_end(s, i, long) < s.len() ==> breaks_run(s, run_end(s, i, long), long),
    decreases s.len() - i,
{
    if i + 1 < s.len() && !breaks_run(s, i + 1, long) {
        lemma_run_end_bounds(s, i + 1, long);
    }
}

/// The words of `s[i..]`, in order.
pub open spec fn words_from(s: Seq<char>, i: int, long: bool) -> Seq<WordSpan>
    decreases s.len() - i,
    when 0 <= i
    via words_from_decreases
{
    if i < 0 || i >= s.len() {
        Seq::empty()
    } else if is_white(s[i]) {
        words_from(s, i + 1, long)
    } else {
        seq![WordSpan { start: i, end: run_end(s, i, long) }] + words_from(
            s,
            run_end(s, i, long),
            long,
        )
    }
}

#[via_fn]
proof fn words_from_decreases(s: Seq<char>, i: int, long: bool) {
    if 0 <= i < s.len() && !is_white(s[i]) {
        lemma_run_end_bounds(s, i, long);
    }
}

/// Whether the exec word `w` lists exactly the chars of the span `m` of
/// `s`, each tagged with its position in `s`.
pub open spec fn word_matches_span(w: Seq<Char>, s: Seq<char>, m: WordSpan) -> bool {
    &&& w.len() == m.end - m.start
    &&& forall|j: int|
        0 <= j < w.len() ==> w[j] == (Char {
            char: s[m.start + j],
            char_idx: (m.start + j) as usize,
        })
}

/// Whether the exec word list `ws` matches the span list `ms`, word for
/// word and in order.
pub open spec fn words_match(ws: Seq<Word>, s: Seq<char>, ms: Seq<WordSpan>) -> bool {
    &&& ws.len() == ms.len()
    &&& forall|k: int| 0 <= k < ws.len() ==> word_matches_span(#[trigger] ws[k]@, s, ms[k])
}

/// Partitions the range into words: short mode (`long == false`) starts a
/// new word at every change of classification, long mode only at
/// whitespace. Leading, internal and trailing whitespace runs separate
/// words and are discarded; a final partial run is emitted.
pub fn segment_words(chars: &Vec<char>, long: bool) -> (r: Vec<Word>)
    ensures
        words_match(r@, chars@, words_from(chars@, 0, long)),
{
    let ghost s = chars@;
    let mut r: Vec<Word> = Vec::new();
    let ghost mut done: Seq<WordSpan> = Seq::empty();
    let mut i: usize = 0;
    proof {
        assert(words_from(s, 0, long) =~= done + words_from(s, 0, long));
    }
    while i < chars.len()
        invariant
            i <= chars.len(),
            s == chars@,
            words_match(r@, s, done),
            words_from(s, 0, long) == done + words_from(s, i as int, long),
        decreases chars.len() - i,
    {
        let c = chars[i];
        if char_is_whitespace(c) {
            proof {
                assert(words_from(s, i as int, long) == words_from(s, i + 1, long));
            }
            i = i + 1;
        } else {
            let start = i;
            let mut w: Word = Vec::new();
            w.push(Char::new(c, i));
            let mut j: usize = i + 1;
            proof {
                lemma_run_end_bounds(s, start as int, long);
            }
            loop
                invariant
                    start < j <= chars.len(),
                    s == chars@,
                    start < s.len(),
                    !is_white(s[start as int]),
                    run_end(s, start as int, long) == run_end(s, j - 1, long),
                    w@.len() == j - start,
                    forall|jj: int|
                        0 <= jj < w@.len() ==> w@[jj] == (Char {
                            char: s[start + jj],
                            char_idx: (start + jj) as usize,
                        }),
                ensures
                    run_end(s, start as int, long) == j,
                decreases chars.len() - j,
            {
                if j >= chars.len() {
                    proof {
                        assert(run_end(s, j - 1, long) == j);
                    }
                    break ;
                }
                let cj = chars[j];
                let ends_here = if char_is_whitespace(cj) {
                    true
                } else if long {
                    false
                } else {
                    classify_exec(cj) != classify_exec(chars[j - 1])
                };
                if ends_here {
                    proof {
                        assert(breaks_run(s, j as int, long));
                        assert(run_end(s, j - 1, long) == j);
                    }
                    break ;
                }
                w.push(Char::new(cj, j));
                j = j + 1;
            }
            proof {
                assert(run_end(s, start as int, long) == j);
                assert(words_from(s, start as int, long) == seq![
                    WordSpan { start: start as int, end: j as int },
                ] + words_from(s, j as int, long));
            }
            r.push(w);
            proof {
                let m = WordSpan { start: start as int, end: j as int };
                done = done + seq![m];
                assert(words_from(s, 0, long) =~= done + words_from(s, j as int, long));
            }
            i = j;
        }
    }
    r
}

/// Every span the segmentation emits lies inside the range and is not
/// empty.
pub proof fn lemma_words_from_spans(s: Seq<char>, i: int, long: bool)
    requires
        0 <= i,
    ensures
        forall|k: int|
            0 <= k < words_from(s, i, long).len() ==> i <= (
            #[trigger] words_from(s, i, long)[k]).start < words_from(s, i, long)[k].end
                <= s.len(),
    decreases s.len() - i,
{
    if i >= s.len() {
    } else if is_white(s[i]) {
        lemma_words_from_spans(s, i + 1, long);
        assert(words_from(s, i, long) == words_from(s, i + 1, long));
    } else {
        lemma_run_end_bounds(s, i, long);
        let j = run_end(s, i, long);
        lemma_words_from_spans(s, j, long);
        let ms = words_from(s, i, long);
        let tail = words_from(s, j, long);
        assert forall|k: int| 0 <= k < ms.len() implies i <= (#[trigger] ms[k]).start < ms[k].end
            <= s.len() by {
            if k > 0 {
                assert(ms[k] == tail[k - 1]);
            }
        }
    }
}

/// The chars of `s[i..]` that are not whitespace, in order.
pub open spec fn visible_chars(s: Seq<char>, i: int) -> Seq<char>
    decreases s.len() - i,
{
    if i < 0 || i >= s.len() {
        Seq::empty()
    } else if is_white(s[i]) {
        visible_chars(s, i + 1)
    } else {
        seq![s[i]] + visible_chars(s, i + 1)
    }
}

/// The concatenation, in order, of the chars of all the spans in `ms`.
pub open spec fn spans_content(s: Seq<char>, ms: Seq<WordSpan>) -> Seq<char>
    decreases ms.len(),
{
    if ms.len() == 0 {
        Seq::empty()
    } else {
        s.subrange(ms[0].start, ms[0].end) + spans_content(s, ms.drop_first())
    }
}

proof fn lemma_visible_run(s: Seq<char>, i: int, j: int)
    requires
        0 <= i <= j <= s.len(),
        forall|k: int| i <= k < j ==> !is_white(s[k]),
    ensures
        visible_chars(s, i) == s.subrange(i, j) + visible_chars(s, j),
    decreases j - i,
{
    if i == j {
        assert(visible_chars(s, i) =~= s.subrange(i, j) + visible_chars(s, j));
    } else {
        lemma_visible_run(s, i + 1, j);
        assert(visible_chars(s, i) =~= s.subrange(i, j) + visible_chars(s, j));
    }
}

proof fn lemma_words_cover_from(s: Seq<char>, i: int, long: bool)
    requires
        0 <= i <= s.len(),
    ensures
        spans_content(s, words_from(s, i, long)) == visible_chars(s, i),
    decreases s.len() - i,
{
    if i == s.len() {
    } else if is_white(s[i]) {
        lemma_words_cover_from(s, i + 1, long);
    } else {
        lemma_run_end_bounds(s, i, long);
        let j = run_end(s, i, long);
        assert forall|k: int| i <= k < j implies !is_white(s[k]) by {
            if i < k {
                assert(!breaks_run(s, k, long));
            }
        }
        lemma_words_cover_from(s, j, long);
        let ms = words_from(s, i, long);
        assert(ms.drop_first() =~= words_from(s, j, long));
        lemma_visible_run(s, i, j);
    }
}

/// LAW. For any range and either mode, the concatenation of the chars of
/// all emitted words, in order, is exactly the range's non-whitespace
/// chars, in order: no char is duplicated or dropped, and whitespace runs
/// serve only as separators.
pub proof fn lemma_word_segmentation_covers(s: Seq<char>, long: bool)
    ensures
        spans_content(s, words_from(s, 0, long)) == visible_chars(s, 0),
{
    lemma_words_cover_from(s, 0, long);
}

} // verus!
