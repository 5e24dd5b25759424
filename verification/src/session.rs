//! The editing session: modes, motions and mutations over the store and
//! cursor, with a typed error for every refused operation.

use vstd::prelude::*;

use crate::buffer::end_position;
use crate::buffer::in_raw_bounds;
use crate::buffer::on_tail;
use crate::buffer::visually_empty;
use crate::buffer::Buffer;
use crate::buffer::Cursor;
use crate::text::lemma_line_count_pos;
use crate::text::lemma_line_start_at_count;
use crate::text::lemma_line_start_bounds;
use crate::text::lemma_line_start_monotone;
use crate::text::lemma_line_start_step;
use crate::text::line_chars;
use crate::text::line_count;
use crate::text::line_len;
use crate::text::line_start;
use crate::text::splice_insert;
use crate::text::splice_remove;
use vstd::string::StringExecFns;

verus! {

/// Soft errors: expected, recoverable outcomes that the status line shows.
#[derive(Debug)]
pub enum Error {
    NoMoreLinesToDelete,
    /// Attempted distance, then the distance actually remaining.
    CantMoveUp(usize, usize),
    /// Attempted distance, then the distance actually remaining.
    CantMoveLeft(usize, usize),
    /// Attempted distance, then the distance actually remaining.
    CantMoveDown(usize, usize),
    AlreadyAtEnd,
    AlreadyAtStart,
    AlreadyAtLineEnd,
    AlreadyAtLineStart,
    CursorOutOfBounds,
    NoCharsInFile,
    NoMoreWordsInLine,
    LineEmpty,
    KeyUnmapped,
    CountRedundant,
}

pub type AppResult<T> = Result<T, Error>;

/// The session error that stands for a store error.
pub open spec fn app_err_of(e: crate::buffer::Error) -> Error {
    match e {
        crate::buffer::Error::NoCharsInFile => Error::NoCharsInFile,
        crate::buffer::Error::CursorOutOfBounds => Error::CursorOutOfBounds,
        _ => Error::NoMoreLinesToDelete,
    }
}

impl From<crate::buffer::Error> for Error {
    fn from(err: crate::buffer::Error) -> (r: Error) {
        match err {
            crate::buffer::Error::NoCharsInFile => Error::NoCharsInFile,
            crate::buffer::Error::CursorOutOfBounds => Error::CursorOutOfBounds,
            _ => Error::NoMoreLinesToDelete,
        }
    }
}

impl vstd::std_specs::convert::FromSpecImpl<crate::buffer::Error> for Error {
    open spec fn obeys_from_spec() -> bool {
        true
    }

    open spec fn from_spec(e: crate::buffer::Error) -> Error {
        app_err_of(e)
    }
}

/// The display text of a session error.
pub open spec fn session_err_text(e: Error) -> Seq<char> {
    match e {
        Error::NoMoreLinesToDelete => "No more lines to delete"@,
        Error::CantMoveUp(count, remaining) => "Can't move up "@ + crate::buffer::dec_str(
            count as nat,
        ) + " lines, "@ + crate::buffer::dec_str(remaining as nat) + " lines remaining"@,
        Error::CantMoveLeft(count, remaining) => "Can't move left "@ + crate::buffer::dec_str(
            count as nat,
        ) + " characters, "@ + crate::buffer::dec_str(remaining as nat) + " characters remaining"@,
        Error::CantMoveDown(count, remaining) => "Can't move down "@ + crate::buffer::dec_str(
            count as nat,
        ) + " lines, "@ + crate::buffer::dec_str(remaining as nat) + " lines remaining"@,
        Error::AlreadyAtEnd => "Already at end"@,
        Error::AlreadyAtStart => "Already at start"@,
        Error::AlreadyAtLineEnd => "Already at line end"@,
        Error::AlreadyAtLineStart => "Already at line start"@,
        Error::CursorOutOfBounds => "Cursor out of bounds"@,
        Error::NoCharsInFile => "No end exists, buffer is empty"@,
        Error::NoMoreWordsInLine => "No more words in line"@,
        Error::LineEmpty => "No chars in line"@,
        Error::KeyUnmapped => "Key unmapped"@,
        Error::CountRedundant => "Count redundant"@,
    }
}

impl Error {
    /// The human-readable text of this error.
    pub fn message(&self) -> (s: String)
        ensures
            s@ == session_err_text(*self),
    {
        match self {
            Error::NoMoreLinesToDelete => "No more lines to delete".to_owned(),
            Error::CantMoveUp(count, remaining) => {
                let mut s = "Can't move up ".to_owned();
                s.append(crate::buffer::usize_to_string(*count).as_str());
                s.append(" lines, ");
                s.append(crate::buffer::usize_to_string(*remaining).as_str());
                s.append(" lines remaining");
                proof {
                    assert(s@ =~= session_err_text(*self));
                }
                s
            },
            Error::CantMoveLeft(count, remaining) => {
                let mut s = "Can't move left ".to_owned();
                s.append(crate::buffer::usize_to_string(*count).as_str());
                s.append(" characters, ");
                s.append(crate::buffer::usize_to_string(*remaining).as_str());
                s.append(" characters remaining");
                proof {
                    assert(s@ =~= session_err_text(*self));
                }
                s
            },
            Error::CantMoveDown(count, remaining) => {
                let mut s = "Can't move down ".to_owned();
                s.append(crate::buffer::usize_to_string(*count).as_str());
                s.append(" lines, ");
                s.append(crate::buffer::usize_to_string(*remaining).as_str());
                s.append(" lines remaining");
                proof {
                    assert(s@ =~= session_err_text(*self));
                }
                s
            },
            Error::AlreadyAtEnd => "Already at end".to_owned(),
            Error::AlreadyAtStart => "Already at start".to_owned(),
            Error::AlreadyAtLineEnd => "Already at line end".to_owned(),
            Error::AlreadyAtLineStart => "Already at line start".to_owned(),
            Error::CursorOutOfBounds => "Cursor out of bounds".to_owned(),
            Error::NoCharsInFile => "No end exists, buffer is empty".to_owned(),
            Error::NoMoreWordsInLine => "No more words in line".to_owned(),
            Error::LineEmpty => "No chars in line".to_owned(),
            Error::KeyUnmapped => "Key unmapped".to_owned(),
            Error::CountRedundant => "Count redundant".to_owned(),
        }
    }
}

#[derive(Debug, Default, Clone, Copy, Eq, PartialEq, Structural)]
pub enum Mode {
    #[default]
    Normal,
    Insert,
    GoTo,
    Delete,
}

#[derive(Debug, Default, PartialEq, Eq, Copy, Clone, Structural)]
pub enum RunningState {
    #[default]
    Running,
    Done,
}

#[derive(Debug, Default, Clone, Copy)]
pub enum NotificationType {
    #[default]
    Info,
    Error,
    Warning,
    Success,
}

/// A human-readable outcome for the status line: a severity and the full
/// display text, icon included.
#[derive(Debug)]
pub struct Notification {
    message_type: NotificationType,
    text: String,
}

impl View for Notification {
    type V = Seq<char>;

    closed spec fn view(&self) -> Seq<char> {
        self.text@
    }
}

/// The display text of the notification for a session error.
pub open spec fn notif_text_of(e: Error) -> Seq<char> {
    match e {
        Error::NoMoreLinesToDelete => "\u{f071}  no lines to delete"@,
        Error::CantMoveUp(_, _) => "\u{f071}  already at top"@,
        Error::CantMoveDown(_, _) => "\u{f071}  already at bottom"@,
        Error::CantMoveLeft(_, _) => "\u{f071}  already leftmost"@,
        Error::AlreadyAtStart => "\u{f071}  already at file start"@,
        Error::AlreadyAtEnd => "\u{f071}  already at file end"@,
        Error::AlreadyAtLineStart => "\u{f071}  already at line start"@,
        Error::AlreadyAtLineEnd => "\u{f071}  already at line end"@,
        Error::CursorOutOfBounds => "\u{f057}  cursor out of bounds"@,
        Error::NoMoreWordsInLine => "\u{f071}  no more words in line"@,
        Error::LineEmpty => "\u{f071}  no chars in line"@,
        Error::NoCharsInFile => "\u{f071}  no chars in file"@,
        Error::KeyUnmapped => "\u{f071}  key unmapped"@,
        Error::CountRedundant => "\u{f071}  count redundant"@,
    }
}

impl Notification {
    /// The notification for a session error: a warning for every boundary,
    /// content or usage error, and an error marker for an out-of-bounds
    /// cursor.
    pub fn from_error(e: &Error) -> (n: Notification)
        ensures
            n@ == notif_text_of(*e),
    {
        match e {
            Error::NoMoreLinesToDelete => Notification {
                message_type: NotificationType::Warning,
                text: "\u{f071}  no lines to delete".to_owned(),
            },
            Error::CantMoveUp(_, _) => Notification {
                message_type: NotificationType::Warning,
                text: "\u{f071}  already at top".to_owned(),
            },
            Error::CantMoveDown(_, _) => Notification {
                message_type: NotificationType::Warning,
                text: "\u{f071}  already at bottom".to_owned(),
            },
            Error::CantMoveLeft(_, _) => Notification {
                message_type: NotificationType::Warning,
                text: "\u{f071}  already leftmost".to_owned(),
            },
            Error::AlreadyAtStart => Notification {
                message_type: NotificationType::Warning,
                text: "\u{f071}  already at file start".to_owned(),
            },
            Error::AlreadyAtEnd => Notification {
                message_type: NotificationType::Warning,
                text: "\u{f071}  already at file end".to_owned(),
            },
            Error::AlreadyAtLineStart => Notification {
                message_type: NotificationType::Warning,
                text: "\u{f071}  already at line start".to_owned(),
            },
            Error::AlreadyAtLineEnd => Notification {
                message_type: NotificationType::Warning,
                text: "\u{f071}  already at line end".to_owned(),
            },
            Error::CursorOutOfBounds => Notification {
                message_type: NotificationType::Error,
                text: "\u{f057}  cursor out of bounds".to_owned(),
            },
            Error::NoMoreWordsInLine => Notification {
                message_type: NotificationType::Warning,
                text: "\u{f071}  no more words in line".to_owned(),
            },
            Error::LineEmpty => Notification {
                message_type: NotificationType::Warning,
                text: "\u{f071}  no chars in line".to_owned(),
            },
            Error::NoCharsInFile => Notification {
                message_type: NotificationType::Warning,
                text: "\u{f071}  no chars in file".to_owned(),
            },
            Error::KeyUnmapped => Notification {
                message_type: NotificationType::Warning,
                text: "\u{f071}  key unmapped".to_owned(),
            },
            Error::CountRedundant => Notification {
                message_type: NotificationType::Warning,
                text: "\u{f071}  count redundant".to_owned(),
            },
        }
    }

    /// The full display text of the notification.
    pub fn to_text(&self) -> (s: String)
        ensures
            s@ == self@,
    {
        self.text.clone()
    }
}

/// Which way a word motion walks.
#[derive(Debug, Copy, Clone)]
pub enum Direction {
    Forward,
    Backward,
}

/// Which edge of the target word the cursor lands on.
#[derive(Debug, Copy, Clone)]
pub enum Boundary {
    Start,
    End,
}

/// Short words split at every classification change; long words only at
/// whitespace.
#[derive(Debug, Copy, Clone)]
pub enum Length {
    Long,
    Short,
}

/// The outcome of a motion that moves only the cursor.
pub ghost struct CursorStep {
    pub cursor: Cursor,
    pub err: Option<Error>,
}

/// The outcome of an operation that may also edit the store.
pub ghost struct EditStep {
    pub store: Seq<char>,
    pub cursor: Cursor,
    pub err: Option<Error>,
}

/// The pending count, or the default when none is pending.
pub open spec fn count_or(c: Option<usize>, d: usize) -> usize {
    match c {
        Some(v) => v,
        None => d,
    }
}

pub open spec fn err_to_result(e: Option<Error>) -> AppResult<()> {
    match e {
        None => Ok(()),
        Some(x) => Err(x),
    }
}

/// Vertical motion up by `count` rows: refused, with the remaining
/// distance, when fewer rows remain above.
pub open spec fn up_step(cur: Cursor, count: usize) -> CursorStep {
    if count <= cur.y {
        CursorStep { cursor: Cursor { x: cur.x, y: (cur.y - count) as usize }, err: None }
    } else {
        CursorStep { cursor: cur, err: Some(Error::CantMoveUp(count, cur.y)) }
    }
}

/// Vertical motion down by `count` rows: refused, with the rows actually
/// remaining above the last line, when the target row would leave the
/// store.
pub open spec fn down_step(s: Seq<char>, cur: Cursor, count: usize) -> CursorStep {
    let last = line_count(s) - 1;
    if cur.y + count <= last {
        CursorStep { cursor: Cursor { x: cur.x, y: (cur.y + count) as usize }, err: None }
    } else {
        let remaining = if cur.y <= last {
            last - cur.y
        } else {
            0
        };
        CursorStep { cursor: cur, err: Some(Error::CantMoveDown(count, remaining as usize)) }
    }
}

/// Horizontal motion left by `count` columns: refused, with the remaining
/// distance, when fewer columns remain.
pub open spec fn left_step(cur: Cursor, count: usize) -> CursorStep {
    if count <= cur.x {
        CursorStep { cursor: Cursor { x: (cur.x - count) as usize, y: cur.y }, err: None }
    } else {
        CursorStep { cursor: cur, err: Some(Error::CantMoveLeft(count, cur.x)) }
    }
}

/// Horizontal motion right by `count` columns; there is no upper clamp,
/// short of the machine's own limit.
pub open spec fn right_step(cur: Cursor, count: usize) -> Cursor {
    if cur.x + count <= usize::MAX {
        Cursor { x: (cur.x + count) as usize, y: cur.y }
    } else {
        Cursor { x: usize::MAX, y: cur.y }
    }
}

/// Motion to the first char of the file: the cursor goes to the origin
/// even when the store is empty and the motion is refused.
pub open spec fn start_of_file_step(s: Seq<char>) -> CursorStep {
    CursorStep {
        cursor: Cursor { x: 0, y: 0 },
        err: if s.len() == 0 {
            Some(Error::NoCharsInFile)
        } else {
            None
        },
    }
}

/// Motion to the last visual char of the file: on an empty store the
/// cursor resets to the origin and the motion is refused.
pub open spec fn end_of_file_step(s: Seq<char>) -> CursorStep {
    match end_position(s) {
        Ok(p) => CursorStep { cursor: Cursor { x: p.0, y: p.1 }, err: None },
        Err(_) => CursorStep { cursor: Cursor { x: 0, y: 0 }, err: Some(Error::NoCharsInFile) },
    }
}

/// Motion to column zero: the column resets even when the line is
/// visually empty and the motion is refused.
pub open spec fn start_line_step(s: Seq<char>, cur: Cursor) -> CursorStep {
    let moved = Cursor { x: 0, y: cur.y };
    if cur.y >= line_count(s) {
        CursorStep { cursor: moved, err: Some(Error::NoMoreLinesToDelete) }
    } else if visually_empty(line_chars(s, cur.y as int)) {
        CursorStep { cursor: moved, err: Some(Error::LineEmpty) }
    } else if cur.x == 0 {
        CursorStep { cursor: moved, err: Some(Error::AlreadyAtLineStart) }
    } else {
        CursorStep { cursor: moved, err: None }
    }
}

/// Motion to the last visible char of the line: the terminator is skipped
/// on every line but the last, which has none.
pub open spec fn end_line_step(s: Seq<char>, cur: Cursor) -> CursorStep {
    if cur.y >= line_count(s) {
        CursorStep { cursor: cur, err: Some(Error::NoMoreLinesToDelete) }
    } else {
        let full = line_len(s, cur.y as int);
        let cc = if cur.y == line_count(s) - 1 {
            full
        } else {
            full - 1
        };
        if cc == 0 {
            CursorStep { cursor: Cursor { x: 0, y: cur.y }, err: Some(Error::LineEmpty) }
        } else if cur.x == cc - 1 {
            CursorStep { cursor: cur, err: Some(Error::AlreadyAtLineEnd) }
        } else {
            CursorStep { cursor: Cursor { x: (cc - 1) as usize, y: cur.y }, err: None }
        }
    }
}

/// LAW. The line-end motion is idempotent: after one line-end motion
/// succeeds, a second one on the unchanged store reports
/// `AlreadyAtLineEnd` and does not move the cursor.
pub proof fn lemma_end_line_idempotent(s: Seq<char>, cur: Cursor)
    requires
        s.len() <= usize::MAX,
        end_line_step(s, cur).err is None,
    ensures
        end_line_step(s, end_line_step(s, cur).cursor).err == Some(Error::AlreadyAtLineEnd),
        end_line_step(s, end_line_step(s, cur).cursor).cursor == end_line_step(s, cur).cursor,
{
    lemma_line_start_step(s, cur.y as int);
    lemma_line_start_bounds(s, cur.y as int);
    lemma_line_start_at_count(s);
    lemma_line_count_pos(s);
    lemma_line_start_monotone(s, cur.y + 1, line_count(s));
    if cur.y < line_count(s) - 1 {
        crate::text::lemma_nonlast_line_has_terminator(s, cur.y as int);
    }
}

/// Insertion of one char before the cursor: an append on the tail
/// position, a splice at the char under the cursor in raw bounds, and
/// refused anywhere else.
pub open spec fn insert_char_step(s: Seq<char>, cur: Cursor, c: char) -> EditStep {
    if on_tail(s, (cur.x, cur.y)) {
        EditStep { store: s + seq![c], cursor: cur, err: None }
    } else if in_raw_bounds(s, (cur.x, cur.y)) {
        EditStep {
            store: splice_insert(s, line_start(s, cur.y as int) + cur.x, seq![c]),
            cursor: cur,
            err: None,
        }
    } else {
        EditStep { store: s, cursor: cur, err: Some(Error::CursorOutOfBounds) }
    }
}

/// Deletion of `count` whole lines from the cursor's row down: a no-op
/// for a zero count, refused when the rows would run past the last line,
/// and the cursor stays where it was.
pub open spec fn delete_lines_step(s: Seq<char>, cur: Cursor, count: usize) -> EditStep {
    if count == 0 {
        EditStep { store: s, cursor: cur, err: None }
    } else if cur.y + count > line_count(s) {
        EditStep { store: s, cursor: cur, err: Some(Error::NoMoreLinesToDelete) }
    } else {
        EditStep {
            store: splice_remove(
                s,
                line_start(s, cur.y as int),
                line_start(s, cur.y + count as int),
            ),
            cursor: cur,
            err: None,
        }
    }
}

pub open spec fn long_of(l: Length) -> bool {
    match l {
        Length::Long => true,
        Length::Short => false,
    }
}

/// The words of the cursor's line from the cursor's column to the line's
/// end, terminator included, positions relative to the cursor.
pub open spec fn words_ahead(s: Seq<char>, cur: Cursor, long: bool) -> Seq<crate::words::WordSpan> {
    crate::words::words_from(
        s.subrange(line_start(s, cur.y as int) + cur.x, line_start(s, cur.y + 1)),
        0,
        long,
    )
}

/// The words of the cursor's line from its start up to the char before
/// the cursor, clamped at the line's end, positions relative to the
/// line's start.
pub open spec fn words_behind(s: Seq<char>, cur: Cursor, long: bool) -> Seq<
    crate::words::WordSpan,
> {
    let ls0 = line_start(s, cur.y as int);
    let le1 = line_start(s, cur.y + 1);
    let hi = if ls0 + cur.x <= le1 {
        ls0 + cur.x
    } else {
        le1
    };
    crate::words::words_from(s.subrange(ls0, hi), 0, long)
}

/// The column distance of a forward word-start motion: standing on
/// whitespace already faces the next word, so the target is word
/// `count - 1` of the words ahead, else word `count`.
pub open spec fn fwd_start_dist(s: Seq<char>, cur: Cursor, count: usize, long: bool) -> Result<
    usize,
    Error,
> {
    if !in_raw_bounds(s, (cur.x, cur.y)) {
        Err(Error::CursorOutOfBounds)
    } else {
        let ms = words_ahead(s, cur, long);
        let idx: int = if crate::rope_text::is_white(s[line_start(s, cur.y as int) + cur.x]) {
            count - 1
        } else {
            count as int
        };
        if 0 <= idx < ms.len() {
            Ok(ms[idx].start as usize)
        } else {
            Err(Error::NoMoreWordsInLine)
        }
    }
}

/// The column distance of a forward word-end motion: a word of one char
/// under the cursor has used up its own end, so the target is word
/// `count`, else word `count - 1`; the landing column is the target's
/// last char.
pub open spec fn fwd_end_dist(s: Seq<char>, cur: Cursor, count: usize, long: bool) -> Result<
    usize,
    Error,
> {
    if !in_raw_bounds(s, (cur.x, cur.y)) || !crate::buffer::in_vis_bounds(s, (cur.x, cur.y)) {
        Err(Error::CursorOutOfBounds)
    } else {
        let ms = words_ahead(s, cur, long);
        if ms.len() == 0 {
            Err(Error::CursorOutOfBounds)
        } else {
            let idx: int = if ms[0].end - ms[0].start == 1 {
                count as int
            } else {
                count - 1
            };
            if 0 <= idx < ms.len() {
                Ok((ms[idx].end - 1) as usize)
            } else {
                Err(Error::NoMoreWordsInLine)
            }
        }
    }
}

/// The column distance of a backward word motion: the target is word
/// `count` counting back from the cursor, and the landing column is its
/// first char (start boundary) or its last (end boundary).
pub open spec fn bwd_dist(
    s: Seq<char>,
    cur: Cursor,
    count: usize,
    long: bool,
    b: Boundary,
) -> Result<usize, Error> {
    if cur.x == 0 {
        Err(Error::NoMoreWordsInLine)
    } else if cur.y >= line_count(s) {
        Err(Error::NoMoreLinesToDelete)
    } else if cur.y == line_count(s) - 1 && line_len(s, cur.y as int) == 0 {
        Err(Error::NoMoreWordsInLine)
    } else {
        let ms = words_behind(s, cur, long);
        if 1 <= count <= ms.len() {
            let m = ms[ms.len() - count];
            match b {
                Boundary::Start => Ok((cur.x - m.start) as usize),
                Boundary::End => Ok((cur.x - (m.end - 1)) as usize),
            }
        } else {
            Err(Error::NoMoreWordsInLine)
        }
    }
}

/// The column distance of a word motion, by direction, word length and
/// boundary.
pub open spec fn word_distance_spec(
    s: Seq<char>,
    cur: Cursor,
    count: usize,
    d: Direction,
    l: Length,
    b: Boundary,
) -> Result<usize, Error> {
    match d {
        Direction::Forward => match b {
            Boundary::Start => fwd_start_dist(s, cur, count, long_of(l)),
            Boundary::End => fwd_end_dist(s, cur, count, long_of(l)),
        },
        Direction::Backward => bwd_dist(s, cur, count, long_of(l), b),
    }
}

/// The outcome of a word motion: the cursor moves along its line by the
/// word distance, or stays where it was on a refusal.
pub open spec fn move_word_step(
    s: Seq<char>,
    cur: Cursor,
    count: usize,
    d: Direction,
    l: Length,
    b: Boundary,
) -> CursorStep {
    match word_distance_spec(s, cur, count, d, l, b) {
        Err(e) => CursorStep { cursor: cur, err: Some(e) },
        Ok(dist) => match d {
            Direction::Forward => CursorStep {
                cursor: Cursor { x: (cur.x + dist) as usize, y: cur.y },
                err: None,
            },
            Direction::Backward => if cur.x < dist {
                CursorStep { cursor: cur, err: Some(Error::NoMoreWordsInLine) }
            } else {
                CursorStep { cursor: Cursor { x: (cur.x - dist) as usize, y: cur.y }, err: None }
            },
        },
    }
}

/// The outcome of a word deletion: the chars from the cursor through the
/// landing char leave the store, inclusive on both ends; the cursor
/// stays.
pub open spec fn delete_word_step(
    s: Seq<char>,
    cur: Cursor,
    count: usize,
    d: Direction,
    l: Length,
    b: Boundary,
) -> EditStep {
    if !in_raw_bounds(s, (cur.x, cur.y)) {
        EditStep { store: s, cursor: cur, err: Some(Error::CursorOutOfBounds) }
    } else {
        let ci = line_start(s, cur.y as int) + cur.x;
        match word_distance_spec(s, cur, count, d, l, b) {
            Err(e) => EditStep { store: s, cursor: cur, err: Some(e) },
            Ok(dist) => match d {
                Direction::Forward => EditStep {
                    store: splice_remove(s, ci, ci + dist + 1),
                    cursor: cur,
                    err: None,
                },
                Direction::Backward => EditStep {
                    store: splice_remove(s, ci - dist, ci + 1),
                    cursor: cur,
                    err: None,
                },
            },
        }
    }
}

/// Whether two sessions agree on everything but the store and cursor.
pub open spec fn chrome_kept(a: App, b: App) -> bool {
    &&& b.mode == a.mode
    &&& b.running_state == a.running_state
    &&& b.notifications@ == a.notifications@
}

/// The editing session: the store with its cursor, the active mode, and
/// the notifications collected for the status line.
#[derive(Debug)]
pub struct App {
    pub running_state: RunningState,
    pub buffer: Buffer,
    pub mode: Mode,
    pub notifications: Vec<Notification>,
}

impl App {
    /// A fresh session over `buffer`: running, in Normal mode, with no
    /// notifications.
    pub fn new(buffer: Buffer) -> (r: App)
        ensures
            r.buffer@ == buffer@,
            r.buffer.cursor == buffer.cursor,
            r.mode == Mode::Normal,
            r.running_state == RunningState::Running,
            r.notifications@.len() == 0,
    {
        App {
            running_state: RunningState::Running,
            buffer,
            mode: Mode::Normal,
            notifications: Vec::new(),
        }
    }

    /// The active mode.
    pub fn mode(&self) -> (m: Mode)
        ensures
            m == self.mode,
    {
        self.mode
    }

    /// Whether the session still runs.
    pub fn running_state(&self) -> (r: RunningState)
        ensures
            r == self.running_state,
    {
        self.running_state
    }

    /// The notifications collected so far, oldest first.
    pub fn notifs(&self) -> (r: &Vec<Notification>)
        ensures
            r == &self.notifications,
    {
        &self.notifications
    }

    /// Appends one notification.
    pub fn push_notif(&mut self, msg: Notification)
        ensures
            final(self).notifications@ == old(self).notifications@.push(msg),
            final(self).buffer@ == old(self).buffer@,
            final(self).buffer.cursor == old(self).buffer.cursor,
            final(self).mode == old(self).mode,
            final(self).running_state == old(self).running_state,
    {
        self.notifications.push(msg)
    }

    /// Ends the session.
    pub fn quit(&mut self)
        ensures
            final(self).running_state == RunningState::Done,
            final(self).buffer@ == old(self).buffer@,
            final(self).buffer.cursor == old(self).buffer.cursor,
            final(self).mode == old(self).mode,
            final(self).notifications@ == old(self).notifications@,
    {
        self.running_state = RunningState::Done
    }

    /// Switches the active mode.
    pub fn enter_mode(&mut self, mode: Mode)
        ensures
            final(self).mode == mode,
            final(self).buffer@ == old(self).buffer@,
            final(self).buffer.cursor == old(self).buffer.cursor,
            final(self).running_state == old(self).running_state,
            final(self).notifications@ == old(self).notifications@,
    {
        self.mode = mode
    }

    /// Inserts `char` before the cursor: appends on the tail position,
    /// splices in raw bounds, and is refused anywhere else. The caller
    /// advances the cursor afterwards.
    pub fn insert_char_before(&mut self, char: char) -> (r: AppResult<()>)
        ensures
            chrome_kept(*old(self), *final(self)),
            final(self).buffer@ == insert_char_step(
                old(self).buffer@,
                old(self).buffer.cursor,
                char,
            ).store,
            final(self).buffer.cursor == old(self).buffer.cursor,
            r == err_to_result(
                insert_char_step(old(self).buffer@, old(self).buffer.cursor, char).err,
            ),
    {
        let cursor = self.buffer.cursor;
        let on_tail_pos = self.buffer.on_rope_tail((cursor.x, cursor.y));
        if on_tail_pos {
            let n = self.buffer.len();
            proof {
                lemma_line_start_at_count(self.buffer@);
                lemma_line_start_step(self.buffer@, cursor.y as int);
            }
            let res = self.buffer.insert_char(n, char);
            proof {
                assert(final(self).buffer@ =~= old(self).buffer@ + seq![char]);
            }
            match res {
                Ok(()) => Ok(()),
                Err(_) => {
                    proof {
                        assert(false);
                    }
                    Err(Error::CursorOutOfBounds)
                },
            }
        } else {
            let char_idx = match self.buffer.char_idx_under_pos((cursor.x, cursor.y)) {
                Ok(i) => i,
                Err(_) => {
                    return Err(Error::CursorOutOfBounds);
                },
            };
            proof {
                lemma_line_start_at_count(self.buffer@);
                lemma_line_start_step(self.buffer@, cursor.y as int);
                lemma_line_start_monotone(self.buffer@, cursor.y + 1, line_count(self.buffer@));
            }
            let res = self.buffer.insert_char(char_idx, char);
            match res {
                Ok(()) => Ok(()),
                Err(_) => {
                    proof {
                        assert(false);
                    }
                    Err(Error::CursorOutOfBounds)
                },
            }
        }
    }

    /// Deletes `count` whole lines from the cursor's row down; a zero
    /// count is a no-op, and rows past the last line are refused. The
    /// cursor row stays put.
    pub fn delete_lines(&mut self, count: usize) -> (r: AppResult<()>)
        ensures
            chrome_kept(*old(self), *final(self)),
            final(self).buffer@ == delete_lines_step(
                old(self).buffer@,
                old(self).buffer.cursor,
                count,
            ).store,
            final(self).buffer.cursor == old(self).buffer.cursor,
            r == err_to_result(
                delete_lines_step(old(self).buffer@, old(self).buffer.cursor, count).err,
            ),
    {
        if count == 0 {
            return Ok(());
        }
        let line_idx = self.buffer.cursor.y;
        let lc = self.buffer.len_lines();
        if line_idx >= lc || count > lc - line_idx {
            return Err(Error::NoMoreLinesToDelete);
        }
        proof {
            lemma_line_start_monotone(self.buffer@, line_idx as int, line_idx + count);
            lemma_line_start_monotone(self.buffer@, line_idx + count, line_count(self.buffer@));
            lemma_line_start_at_count(self.buffer@);
            lemma_line_start_bounds(self.buffer@, line_idx as int);
        }
        let start = crate::rope_text::rope_line_to_char(&self.buffer.rope, line_idx);
        let end = crate::rope_text::rope_line_to_char(&self.buffer.rope, line_idx + count);
        crate::rope_text::rope_remove(&mut self.buffer.rope, start, end);
        Ok(())
    }

    /// Moves the cursor up `count` rows; refused, with the rows actually
    /// remaining, when the top is nearer than that.
    pub fn move_up(&mut self, count: usize) -> (r: AppResult<()>)
        ensures
            chrome_kept(*old(self), *final(self)),
            final(self).buffer@ == old(self).buffer@,
            final(self).buffer.cursor == up_step(old(self).buffer.cursor, count).cursor,
            r == err_to_result(up_step(old(self).buffer.cursor, count).err),
    {
        let lines_remaining = self.buffer.cursor.y;
        if count <= lines_remaining {
            self.buffer.cursor.y = lines_remaining - count;
            Ok(())
        } else {
            Err(Error::CantMoveUp(count, lines_remaining))
        }
    }

    /// Moves the cursor down `count` rows; refused, with the rows
    /// actually remaining, when the target row would pass the last line.
    pub fn move_down(&mut self, count: usize) -> (r: AppResult<()>)
        ensures
            chrome_kept(*old(self), *final(self)),
            final(self).buffer@ == old(self).buffer@,
            final(self).buffer.cursor == down_step(
                old(self).buffer@,
                old(self).buffer.cursor,
                count,
            ).cursor,
            r == err_to_result(down_step(old(self).buffer@, old(self).buffer.cursor, count).err),
    {
        let lc = self.buffer.len_lines();
        proof {
            lemma_line_count_pos(self.buffer@);
        }
        let last = lc - 1;
        let y = self.buffer.cursor.y;
        if y <= last && count <= last - y {
            self.buffer.cursor.y = y + count;
            Ok(())
        } else if y <= last {
            Err(Error::CantMoveDown(count, last - y))
        } else {
            Err(Error::CantMoveDown(count, 0))
        }
    }

    /// Moves the cursor left `count` columns; refused, with the columns
    /// actually remaining, when the line start is nearer than that.
    pub fn move_left(&mut self, count: usize) -> (r: AppResult<()>)
        ensures
            chrome_kept(*old(self), *final(self)),
            final(self).buffer@ == old(self).buffer@,
            final(self).buffer.cursor == left_step(old(self).buffer.cursor, count).cursor,
            r == err_to_result(left_step(old(self).buffer.cursor, count).err),
    {
        let x = self.buffer.cursor.x;
        if count <= x {
            self.buffer.cursor.x = x - count;
            Ok(())
        } else {
            Err(Error::CantMoveLeft(count, x))
        }
    }

    /// Moves the cursor right `count` columns; no bound of the store
    /// limits it, only the machine's own.
    pub fn move_right(&mut self, count: usize)
        ensures
            chrome_kept(*old(self), *final(self)),
            final(self).buffer@ == old(self).buffer@,
            final(self).buffer.cursor == right_step(old(self).buffer.cursor, count),
    {
        let x = self.buffer.cursor.x;
        let nx = match x.checked_add(count) {
            Some(v) => v,
            None => usize::MAX,
        };
        self.buffer.cursor.x = nx;
    }

    /// Moves to the first char of the file; the cursor reaches the origin
    /// even on an empty store, where the motion is refused.
    pub fn move_to_start_of_file(&mut self) -> (r: AppResult<()>)
        ensures
            chrome_kept(*old(self), *final(self)),
            final(self).buffer@ == old(self).buffer@,
            final(self).buffer.cursor == start_of_file_step(old(self).buffer@).cursor,
            r == err_to_result(start_of_file_step(old(self).buffer@).err),
    {
        self.buffer.cursor.y = 0;
        self.buffer.cursor.x = 0;
        if self.buffer.is_empty() {
            return Err(Error::NoCharsInFile);
        }
        Ok(())
    }

    /// Moves to the last visual char of the file; on an empty store the
    /// cursor resets to the origin and the motion is refused.
    pub fn move_to_end_of_file(&mut self) -> (r: AppResult<()>)
        ensures
            chrome_kept(*old(self), *final(self)),
            final(self).buffer@ == old(self).buffer@,
            final(self).buffer.cursor == end_of_file_step(old(self).buffer@).cursor,
            r == err_to_result(end_of_file_step(old(self).buffer@).err),
    {
        match self.buffer.end_pos() {
            Err(_) => {
                self.buffer.cursor = Cursor { x: 0, y: 0 };
                Err(Error::NoCharsInFile)
            },
            Ok(v) => {
                self.buffer.cursor = Cursor { x: v.0, y: v.1 };
                Ok(())
            },
        }
    }

    /// Moves the cursor to column zero; the column resets even when the
    /// line is visually empty and the motion is refused.
    pub fn move_start_line(&mut self) -> (r: AppResult<()>)
        ensures
            chrome_kept(*old(self), *final(self)),
            final(self).buffer@ == old(self).buffer@,
            final(self).buffer.cursor == start_line_step(
                old(self).buffer@,
                old(self).buffer.cursor,
            ).cursor,
            r == err_to_result(start_line_step(old(self).buffer@, old(self).buffer.cursor).err),
    {
        let line_idx = self.buffer.cursor.y;
        let at_line_start = self.buffer.cursor.x == 0;
        self.buffer.cursor.x = 0;
        let line = match self.buffer.line(line_idx) {
            Ok(l) => l,
            Err(e) => {
                return Err(Error::from(e));
            },
        };
        if line.is_visually_empty() {
            return Err(Error::LineEmpty);
        }
        if at_line_start {
            return Err(Error::AlreadyAtLineStart);
        }
        Ok(())
    }

    /// The column distance to the target of a word motion, as the motion
    /// rules of the mode machine define it.
    #[verifier::rlimit(60)]
    fn word_distance(
        &self,
        count: usize,
        direction: Direction,
        length: Length,
        boundary: Boundary,
    ) -> (r: AppResult<usize>)
        ensures
            r == word_distance_spec(
                self.buffer@,
                self.buffer.cursor,
                count,
                direction,
                length,
                boundary,
            ),
            direction is Forward && r is Ok ==> self.buffer.cursor.x + r->Ok_0 <= usize::MAX
                && line_start(self.buffer@, self.buffer.cursor.y as int) + self.buffer.cursor.x
                + r->Ok_0 + 1 <= self.buffer@.len(),
            direction is Backward && r is Ok ==> r->Ok_0 <= self.buffer.cursor.x,
    {
        let long = match length {
            Length::Long => true,
            Length::Short => false,
        };
        let cursor = self.buffer.cursor;
        let ghost s = self.buffer@;
        match direction {
            Direction::Forward => {
                let start = match self.buffer.char_idx_under_pos((cursor.x, cursor.y)) {
                    Ok(i) => i,
                    Err(_) => {
                        return Err(Error::CursorOutOfBounds);
                    },
                };
                proof {
                    lemma_line_count_pos(s);
                    lemma_line_start_step(s, cursor.y as int);
                    lemma_line_start_bounds(s, cursor.y as int);
                    lemma_line_start_at_count(s);
                    lemma_line_start_monotone(s, cursor.y + 1, line_count(s));
                }
                let want_end = match boundary {
                    Boundary::End => true,
                    Boundary::Start => false,
                };
                if want_end {
                    if !self.buffer.in_visual_bounds((cursor.x, cursor.y)) {
                        return Err(Error::CursorOutOfBounds);
                    }
                }
                let lend = match self.buffer.char_idx_line_end(cursor.y) {
                    Ok(i) => i,
                    Err(_) => {
                        proof {
                            assert(false);
                        }
                        return Err(Error::CursorOutOfBounds);
                    },
                };
                let n = self.buffer.len();
                let ws_res = if long {
                    self.buffer.words_long(start, lend + 1)
                } else {
                    self.buffer.words(start, lend + 1)
                };
                let ws = match ws_res {
                    Ok(v) => v,
                    Err(_) => {
                        proof {
                            assert(false);
                        }
                        return Err(Error::CursorOutOfBounds);
                    },
                };
                let ghost sub = s.subrange(start as int, lend + 1 as int);
                proof {
                    crate::words::lemma_words_from_spans(sub, 0, long);
                }
                if !want_end {
                    let c = match self.buffer.char_under_pos((cursor.x, cursor.y)) {
                        Ok(c) => c,
                        Err(_) => {
                            proof {
                                assert(false);
                            }
                            return Err(Error::CursorOutOfBounds);
                        },
                    };
                    let is_ws = crate::rope_text::char_is_whitespace(c);
                    let word_idx = if is_ws {
                        if count == 0 {
                            return Err(Error::NoMoreWordsInLine);
                        }
                        count - 1
                    } else {
                        count
                    };
                    if word_idx < ws.len() {
                        let w = &ws[word_idx];
                        Ok(w[0].char_idx)
                    } else {
                        Err(Error::NoMoreWordsInLine)
                    }
                } else {
                    if ws.len() == 0 {
                        return Err(Error::CursorOutOfBounds);
                    }
                    let first_len = ws[0].len();
                    let word_idx = if first_len == 1 {
                        count
                    } else {
                        if count == 0 {
                            return Err(Error::NoMoreWordsInLine);
                        }
                        count - 1
                    };
                    if word_idx < ws.len() {
                        let w = &ws[word_idx];
                        Ok(w[w.len() - 1].char_idx)
                    } else {
                        Err(Error::NoMoreWordsInLine)
                    }
                }
            },
            Direction::Backward => {
                if cursor.x == 0 {
                    return Err(Error::NoMoreWordsInLine);
                }
                let lc = self.buffer.len_lines();
                if cursor.y >= lc {
                    return Err(Error::NoMoreLinesToDelete);
                }
                proof {
                    lemma_line_start_step(s, cursor.y as int);
                    lemma_line_start_bounds(s, cursor.y as int);
                    lemma_line_start_at_count(s);
                    lemma_line_start_monotone(s, cursor.y + 1, line_count(s));
                }
                let ls0 = crate::rope_text::rope_line_to_char(&self.buffer.rope, cursor.y);
                let ls1 = crate::rope_text::rope_line_to_char(&self.buffer.rope, cursor.y + 1);
                if cursor.y == lc - 1 && ls1 == ls0 {
                    return Err(Error::NoMoreWordsInLine);
                }
                let hi = if cursor.x <= ls1 - ls0 {
                    ls0 + cursor.x
                } else {
                    ls1
                };
                let ws_res = if long {
                    self.buffer.words_long(ls0, hi)
                } else {
                    self.buffer.words(ls0, hi)
                };
                let ws = match ws_res {
                    Ok(v) => v,
                    Err(_) => {
                        proof {
                            assert(false);
                        }
                        return Err(Error::CursorOutOfBounds);
                    },
                };
                let ghost sub = s.subrange(ls0 as int, hi as int);
                proof {
                    crate::words::lemma_words_from_spans(sub, 0, long);
                }
                if count == 0 || count > ws.len() {
                    return Err(Error::NoMoreWordsInLine);
                }
                let widx = ws.len() - count;
                let w = &ws[widx];
                let d = match boundary {
                    Boundary::Start => cursor.x - w[0].char_idx,
                    Boundary::End => cursor.x - w[w.len() - 1].char_idx,
                };
                Ok(d)
            },
        }
    }

    /// Moves the cursor along its line to a word boundary: `count` words
    /// on, by the given direction, word length and boundary; a refused
    /// motion leaves the cursor where it was.
    pub fn move_word(
        &mut self,
        count: usize,
        direction: Direction,
        length: Length,
        boundary: Boundary,
    ) -> (r: AppResult<()>)
        ensures
            chrome_kept(*old(self), *final(self)),
            final(self).buffer@ == old(self).buffer@,
            final(self).buffer.cursor == move_word_step(
                old(self).buffer@,
                old(self).buffer.cursor,
                count,
                direction,
                length,
                boundary,
            ).cursor,
            r == err_to_result(
                move_word_step(
                    old(self).buffer@,
                    old(self).buffer.cursor,
                    count,
                    direction,
                    length,
                    boundary,
                ).err,
            ),
    {
        let dist = match self.word_distance(count, direction, length, boundary) {
            Ok(d) => d,
            Err(e) => {
                return Err(e);
            },
        };
        match direction {
            Direction::Forward => {
                self.buffer.cursor.x = self.buffer.cursor.x + dist;
                Ok(())
            },
            Direction::Backward => {
                if self.buffer.cursor.x < dist {
                    return Err(Error::NoMoreWordsInLine);
                }
                self.buffer.cursor.x = self.buffer.cursor.x - dist;
                Ok(())
            },
        }
    }

    /// Deletes from the char under the cursor through the landing char of
    /// the corresponding word motion, both ends included; the cursor does
    /// not move.
    pub fn delete_word(
        &mut self,
        count: usize,
        direction: Direction,
        length: Length,
        boundary: Boundary,
    ) -> (r: AppResult<()>)
        ensures
            chrome_kept(*old(self), *final(self)),
            final(self).buffer.cursor == old(self).buffer.cursor,
            final(self).buffer@ == delete_word_step(
                old(self).buffer@,
                old(self).buffer.cursor,
                count,
                direction,
                length,
                boundary,
            ).store,
            r == err_to_result(
                delete_word_step(
                    old(self).buffer@,
                    old(self).buffer.cursor,
                    count,
                    direction,
                    length,
                    boundary,
                ).err,
            ),
    {
        let cursor = self.buffer.cursor;
        let ci = match self.buffer.char_idx_under_pos((cursor.x, cursor.y)) {
            Ok(i) => i,
            Err(_) => {
                return Err(Error::CursorOutOfBounds);
            },
        };
        let dist = match self.word_distance(count, direction, length, boundary) {
            Ok(d) => d,
            Err(e) => {
                return Err(e);
            },
        };
        let n = self.buffer.len();
        proof {
            lemma_line_count_pos(self.buffer@);
            lemma_line_start_step(self.buffer@, cursor.y as int);
            lemma_line_start_bounds(self.buffer@, cursor.y as int);
            lemma_line_start_at_count(self.buffer@);
            lemma_line_start_monotone(self.buffer@, cursor.y + 1, line_count(self.buffer@));
        }
        let res = match direction {
            Direction::Forward => self.buffer.remove(ci, ci + dist + 1),
            Direction::Backward => self.buffer.remove(ci - dist, ci + 1),
        };
        match res {
            Ok(()) => Ok(()),
            Err(_) => {
                proof {
                    assert(false);
                }
                Err(Error::CursorOutOfBounds)
            },
        }
    }

    /// Moves the cursor to the last visible char of its line; on every
    /// line but the last, that is the char before the terminator.
    pub fn move_end_line(&mut self) -> (r: AppResult<()>)
        ensures
            chrome_kept(*old(self), *final(self)),
            final(self).buffer@ == old(self).buffer@,
            final(self).buffer.cursor == end_line_step(
                old(self).buffer@,
                old(self).buffer.cursor,
            ).cursor,
            r == err_to_result(end_line_step(old(self).buffer@, old(self).buffer.cursor).err),
    {
        let cursor = self.buffer.cursor;
        let lc = self.buffer.len_lines();
        let curr_line = match self.buffer.line(cursor.y) {
            Ok(l) => l,
            Err(e) => {
                return Err(Error::from(e));
            },
        };
        let on_last_line = cursor.y == lc - 1;
        proof {
            lemma_line_count_pos(self.buffer@);
            lemma_line_start_step(self.buffer@, cursor.y as int);
            lemma_line_start_bounds(self.buffer@, cursor.y as int);
            if cursor.y < line_count(self.buffer@) - 1 {
                crate::text::lemma_nonlast_line_has_terminator(self.buffer@, cursor.y as int);
            }
        }
        let char_count = if on_last_line {
            curr_line.len()
        } else {
            curr_line.len() - 1
        };
        if char_count == 0 {
            self.buffer.cursor.x = 0;
            return Err(Error::LineEmpty);
        }
        if cursor.x == char_count - 1 {
            return Err(Error::AlreadyAtLineEnd);
        }
        self.buffer.cursor.x = char_count - 1;
        Ok(())
    }
}

} // verus!
