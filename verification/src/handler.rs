//! The modal key-dispatch state machine: one key event at a time is
//! resolved against the active mode, a pending numeric count and the
//! session, and every refusal becomes a notification.

use vstd::prelude::*;

use crate::buffer::Cursor;
use crate::session::count_or;
use crate::session::delete_lines_step;
use crate::session::down_step;
use crate::session::end_line_step;
use crate::session::end_of_file_step;
use crate::session::err_to_result;
use crate::session::insert_char_step;
use crate::session::left_step;
use crate::session::move_word_step;
use crate::session::notif_text_of;
use crate::session::right_step;
use crate::session::start_line_step;
use crate::session::start_of_file_step;
use crate::session::up_step;
use crate::session::App;
use crate::session::AppResult;
use crate::session::Boundary;
use crate::session::Direction;
use crate::session::Error;
use crate::session::Length;
use crate::session::Mode;
use crate::session::Notification;
use crate::session::RunningState;

verus! {

/// The logical identity of a pressed key.
#[derive(Debug, Copy, Clone, PartialEq, Eq)]
pub enum Key {
    Char(char),
    Up,
    Down,
    Left,
    Right,
    Home,
    End,
    Enter,
    Esc,
    Other,
}

/// One key event: a key identity and whether Control was held.
#[derive(Debug, Copy, Clone, PartialEq, Eq)]
pub struct KeyInput {
    pub code: Key,
    pub ctrl: bool,
}

impl KeyInput {
    /// A key event without modifiers.
    pub fn plain(code: Key) -> (k: KeyInput)
        ensures
            k == (KeyInput { code, ctrl: false }),
    {
        KeyInput { code, ctrl: false }
    }
}

/// Everything one key event may change: the handler's count and key
/// history, and the session's mode, store, cursor and running state.
pub ghost struct MachineState {
    pub mode: Mode,
    pub count: Option<usize>,
    pub keys: Seq<KeyInput>,
    pub prev: Seq<Seq<KeyInput>>,
    pub store: Seq<char>,
    pub cursor: Cursor,
    pub running: RunningState,
}

/// The state after one key event, and the refusal it produced, if any.
pub ghost struct StepOut {
    pub state: MachineState,
    pub err: Option<Error>,
}

pub open spec fn is_digit_char(c: char) -> bool {
    48 <= c as u32 <= 57
}

pub open spec fn digit_value(c: char) -> usize {
    (c as u32 - 48) as usize
}

/// The count after one more digit key, accumulated in base ten and
/// saturating at the machine's limit.
pub open spec fn bump_count(c: Option<usize>, d: usize) -> usize {
    let base = count_or(c, 0);
    if base * 10 + d <= usize::MAX {
        (base * 10 + d) as usize
    } else {
        usize::MAX
    }
}

/// The state after a digit key: the count gains a digit and the key
/// joins the pending sequence; any other key changes nothing here.
pub open spec fn digit_step(st: MachineState, key: KeyInput) -> MachineState {
    match key.code {
        Key::Char(d) => if is_digit_char(d) {
            MachineState {
                count: Some(bump_count(st.count, digit_value(d))),
                keys: st.keys.push(key),
                ..st
            }
        } else {
            st
        },
        _ => st,
    }
}

/// A motion outcome folded into the machine state: the count is consumed
/// whatever happened.
pub open spec fn after_cursor_motion(
    st: MachineState,
    cursor: Cursor,
    err: Option<Error>,
) -> StepOut {
    StepOut { state: MachineState { count: None, cursor, ..st }, err }
}

/// Normal mode: motions take the pending count; `i`, `g` and `d` switch
/// modes and refuse a pending count as redundant; digits accumulate; a
/// Control chord on `c` ends the session; everything else is unmapped.
pub open spec fn normal_step(st: MachineState, key: KeyInput) -> StepOut {
    match key.code {
        Key::Up => {
            let m = up_step(st.cursor, count_or(st.count, 1));
            after_cursor_motion(st, m.cursor, m.err)
        },
        Key::Down => {
            let m = down_step(st.store, st.cursor, count_or(st.count, 1));
            after_cursor_motion(st, m.cursor, m.err)
        },
        Key::Left => {
            let m = left_step(st.cursor, count_or(st.count, 1));
            after_cursor_motion(st, m.cursor, m.err)
        },
        Key::Right => after_cursor_motion(
            st,
            right_step(st.cursor, count_or(st.count, 1)),
            None,
        ),
        Key::Home => {
            let m = start_line_step(st.store, st.cursor);
            after_cursor_motion(
                st,
                m.cursor,
                if m.err is Some {
                    m.err
                } else if st.count is Some {
                    Some(Error::CountRedundant)
                } else {
                    None
                },
            )
        },
        Key::End => {
            let m = end_line_step(st.store, st.cursor);
            after_cursor_motion(
                st,
                m.cursor,
                if m.err is Some {
                    m.err
                } else if st.count is Some {
                    Some(Error::CountRedundant)
                } else {
                    None
                },
            )
        },
        Key::Char(c) => normal_char_step(st, key, c),
        _ => StepOut {
            state: MachineState { count: None, ..st },
            err: Some(Error::KeyUnmapped),
        },
    }
}

/// The Normal-mode handling of a character key.
pub open spec fn normal_char_step(st: MachineState, key: KeyInput, c: char) -> StepOut {
    if c == 'G' {
        let m = end_of_file_step(st.store);
        after_cursor_motion(
            st,
            m.cursor,
            if m.err is Some {
                m.err
            } else if st.count is Some {
                Some(Error::CountRedundant)
            } else {
                None
            },
        )
    } else if c == 'w' {
        let m = move_word_step(
            st.store,
            st.cursor,
            count_or(st.count, 1),
            Direction::Forward,
            Length::Short,
            Boundary::Start,
        );
        after_cursor_motion(st, m.cursor, m.err)
    } else if c == 'W' {
        let m = move_word_step(
            st.store,
            st.cursor,
            count_or(st.count, 1),
            Direction::Forward,
            Length::Long,
            Boundary::Start,
        );
        after_cursor_motion(st, m.cursor, m.err)
    } else if c == 'e' {
        let m = move_word_step(
            st.store,
            st.cursor,
            count_or(st.count, 1),
            Direction::Forward,
            Length::Short,
            Boundary::End,
        );
        after_cursor_motion(st, m.cursor, m.err)
    } else if c == 'E' {
        let m = move_word_step(
            st.store,
            st.cursor,
            count_or(st.count, 1),
            Direction::Forward,
            Length::Long,
            Boundary::End,
        );
        after_cursor_motion(st, m.cursor, m.err)
    } else if c == 'b' {
        let m = move_word_step(
            st.store,
            st.cursor,
            count_or(st.count, 1),
            Direction::Backward,
            Length::Short,
            Boundary::Start,
        );
        after_cursor_motion(st, m.cursor, m.err)
    } else if c == 'B' {
        let m = move_word_step(
            st.store,
            st.cursor,
            count_or(st.count, 1),
            Direction::Backward,
            Length::Long,
            Boundary::Start,
        );
        after_cursor_motion(st, m.cursor, m.err)
    } else if c == 'i' {
        let armed = MachineState { keys: seq![key], ..st };
        if crate::buffer::in_raw_bounds(st.store, (st.cursor.x, st.cursor.y)) || crate::buffer::on_tail(
            st.store,
            (st.cursor.x, st.cursor.y),
        ) {
            StepOut {
                state: MachineState { mode: Mode::Insert, count: None, ..armed },
                err: if st.count is Some {
                    Some(Error::CountRedundant)
                } else {
                    None
                },
            }
        } else {
            StepOut { state: armed, err: Some(Error::CursorOutOfBounds) }
        }
    } else if c == 'g' {
        StepOut {
            state: MachineState { mode: Mode::GoTo, count: None, keys: seq![key], ..st },
            err: if st.count is Some {
                Some(Error::CountRedundant)
            } else {
                None
            },
        }
    } else if c == 'd' {
        StepOut {
            state: MachineState { mode: Mode::Delete, count: None, keys: seq![key], ..st },
            err: if st.count is Some {
                Some(Error::CountRedundant)
            } else {
                None
            },
        }
    } else if c == 'c' || c == 'C' {
        StepOut {
            state: if key.ctrl {
                MachineState { running: RunningState::Done, ..st }
            } else {
                st
            },
            err: None,
        }
    } else if is_digit_char(c) {
        StepOut { state: digit_step(st, key), err: None }
    } else {
        StepOut { state: MachineState { count: None, ..st }, err: Some(Error::KeyUnmapped) }
    }
}

/// Insert mode: a character key splices in before the cursor and the
/// cursor steps right; Enter splices a terminator and the cursor moves
/// to the start of the next line; Escape flushes the pending keys and
/// returns to Normal mode one column to the left.
pub open spec fn insert_step(st: MachineState, key: KeyInput) -> StepOut {
    match key.code {
        Key::Char(c) => {
            let armed = MachineState { keys: st.keys.push(key), ..st };
            let e = insert_char_step(st.store, st.cursor, c);
            if e.err is Some {
                StepOut { state: armed, err: e.err }
            } else {
                StepOut {
                    state: MachineState {
                        store: e.store,
                        cursor: right_step(st.cursor, 1),
                        ..armed
                    },
                    err: None,
                }
            }
        },
        Key::Enter => {
            let armed = MachineState { keys: st.keys.push(key), ..st };
            let e = insert_char_step(st.store, st.cursor, '\n');
            if e.err is Some {
                StepOut { state: armed, err: e.err }
            } else {
                let after = MachineState { store: e.store, ..armed };
                let d = down_step(e.store, st.cursor, 1);
                if d.err is Some {
                    StepOut { state: after, err: d.err }
                } else {
                    let h = start_line_step(e.store, d.cursor);
                    StepOut { state: MachineState { cursor: h.cursor, ..after }, err: h.err }
                }
            }
        },
        Key::Esc => StepOut {
            state: MachineState {
                mode: Mode::Normal,
                keys: Seq::empty(),
                prev: st.prev.push(st.keys),
                cursor: left_step(st.cursor, 1).cursor,
                ..st
            },
            err: None,
        },
        _ => StepOut { state: st, err: Some(Error::KeyUnmapped) },
    }
}

/// GoTo mode: `g` returns to Normal mode and moves to the start of the
/// file; Escape returns to Normal mode with no motion; any other key is
/// unmapped and the mode persists.
pub open spec fn go_to_step(st: MachineState, key: KeyInput) -> StepOut {
    match key.code {
        Key::Char(c) => if c == 'g' {
            let m = start_of_file_step(st.store);
            StepOut {
                state: MachineState { mode: Mode::Normal, cursor: m.cursor, ..st },
                err: m.err,
            }
        } else {
            StepOut { state: st, err: Some(Error::KeyUnmapped) }
        },
        Key::Esc => StepOut { state: MachineState { mode: Mode::Normal, ..st }, err: None },
        _ => StepOut { state: st, err: Some(Error::KeyUnmapped) },
    }
}

/// Delete mode: `d` deletes the counted lines and returns to Normal mode
/// on success; digits accumulate; Escape drops the pending count and
/// keys and returns to Normal mode.
pub open spec fn delete_step(st: MachineState, key: KeyInput) -> StepOut {
    match key.code {
        Key::Char(c) => if c == 'd' {
            let e = delete_lines_step(st.store, st.cursor, count_or(st.count, 1));
            if e.err is Some {
                StepOut { state: MachineState { count: None, ..st }, err: e.err }
            } else {
                StepOut {
                    state: MachineState {
                        mode: Mode::Normal,
                        count: None,
                        store: e.store,
                        ..st
                    },
                    err: None,
                }
            }
        } else if is_digit_char(c) {
            StepOut { state: digit_step(st, key), err: None }
        } else {
            StepOut { state: st, err: Some(Error::KeyUnmapped) }
        },
        Key::Esc => StepOut {
            state: MachineState {
                mode: Mode::Normal,
                count: None,
                keys: Seq::empty(),
                ..st
            },
            err: None,
        },
        _ => StepOut { state: st, err: Some(Error::KeyUnmapped) },
    }
}

/// One key event, dispatched to the active mode's handler.
pub open spec fn machine_step(st: MachineState, key: KeyInput) -> StepOut {
    match st.mode {
        Mode::Normal => normal_step(st, key),
        Mode::Insert => insert_step(st, key),
        Mode::GoTo => go_to_step(st, key),
        Mode::Delete => delete_step(st, key),
    }
}

/// The machine state carried by a handler and a session together.
pub open spec fn machine_view(h: Handler, a: App) -> MachineState {
    MachineState {
        mode: a.mode,
        count: h.count,
        keys: h.key_events@,
        prev: h.prev_sequences@.map_values(|v: Vec<KeyInput>| v@),
        store: a.buffer@,
        cursor: a.buffer.cursor,
        running: a.running_state,
    }
}

/// The views of a notification list.
pub open spec fn notif_views(v: Seq<Notification>) -> Seq<Seq<char>> {
    v.map_values(|n: Notification| n@)
}

/// The notifications one refusal adds: one, or none.
pub open spec fn err_notifs(e: Option<Error>) -> Seq<Seq<char>> {
    match e {
        None => Seq::empty(),
        Some(er) => seq![notif_text_of(er)],
    }
}

/// The key-event handler: the pending count, the keys of the chord being
/// typed, and the finished sequences kept for replay.
#[derive(Debug)]
pub struct Handler {
    pub key_events: Vec<KeyInput>,
    pub count: Option<usize>,
    pub prev_sequences: Vec<Vec<KeyInput>>,
}

impl Handler {
    /// A fresh handler: no count, no pending keys, no history.
    pub fn new() -> (h: Handler)
        ensures
            h.count is None,
            h.key_events@.len() == 0,
            h.prev_sequences@.len() == 0,
    {
        Handler { key_events: Vec::new(), count: None, prev_sequences: Vec::new() }
    }

    /// Handles one key event: dispatches it to the active mode's handler
    /// and turns a refusal into a notification.
    pub fn handle_key_event(&mut self, key: KeyInput, app: &mut App)
        ensures
            machine_view(*final(self), *final(app)) == machine_step(
                machine_view(*old(self), *old(app)),
                key,
            ).state,
            notif_views(final(app).notifications@) == notif_views(old(app).notifications@)
                + err_notifs(machine_step(machine_view(*old(self), *old(app)), key).err),
    {
        let r = match app.mode() {
            Mode::Normal => self.handle_normal_mode_key_event(key, app),
            Mode::Insert => self.handle_insert_mode_key_event(key, app),
            Mode::GoTo => self.handle_go_to_mode_key_event(key, app),
            Mode::Delete => self.handle_delete_mode_key_event(key, app),
        };
        match r {
            Ok(()) => {
                proof {
                    assert(notif_views(app.notifications@) =~= notif_views(old(app).notifications@)
                        + err_notifs(machine_step(machine_view(*old(self), *old(app)), key).err));
                }
            },
            Err(err) => {
                let n = Notification::from_error(&err);
                app.push_notif(n);
                proof {
                    assert(notif_views(app.notifications@) =~= notif_views(old(app).notifications@)
                        + err_notifs(machine_step(machine_view(*old(self), *old(app)), key).err));
                }
            },
        }
    }

    fn handle_normal_mode_key_event(&mut self, key: KeyInput, app: &mut App) -> (r: AppResult<()>)
        requires
            old(app).mode == Mode::Normal,
        ensures
            machine_view(*final(self), *final(app)) == normal_step(
                machine_view(*old(self), *old(app)),
                key,
            ).state,
            r == err_to_result(normal_step(machine_view(*old(self), *old(app)), key).err),
            final(app).notifications@ == old(app).notifications@,
    {
        match key.code {
            Key::Up => {
                let count = self.take_count_or_one();
                app.move_up(count)
            },
            Key::Down => {
                let count = self.take_count_or_one();
                app.move_down(count)
            },
            Key::Left => {
                let count = self.take_count_or_one();
                app.move_left(count)
            },
            Key::Right => {
                let count = self.take_count_or_one();
                app.move_right(count);
                Ok(())
            },
            Key::Home => {
                let had_count = self.count.is_some();
                self.count = None;
                let moved = app.move_start_line();
                match moved {
                    Err(e) => Err(e),
                    Ok(()) => {
                        if had_count {
                            Err(Error::CountRedundant)
                        } else {
                            Ok(())
                        }
                    },
                }
            },
            Key::End => {
                let had_count = self.count.is_some();
                self.count = None;
                let moved = app.move_end_line();
                match moved {
                    Err(e) => Err(e),
                    Ok(()) => {
                        if had_count {
                            Err(Error::CountRedundant)
                        } else {
                            Ok(())
                        }
                    },
                }
            },
            Key::Char(c) => self.handle_normal_mode_char(key, c, app),
            _ => {
                self.count = None;
                Err(Error::KeyUnmapped)
            },
        }
    }

    fn handle_normal_mode_char(&mut self, key: KeyInput, c: char, app: &mut App) -> (r: AppResult<
        (),
    >)
        requires
            old(app).mode == Mode::Normal,
            key.code == Key::Char(c),
        ensures
            machine_view(*final(self), *final(app)) == normal_char_step(
                machine_view(*old(self), *old(app)),
                key,
                c,
            ).state,
            r == err_to_result(normal_char_step(machine_view(*old(self), *old(app)), key, c).err),
            final(app).notifications@ == old(app).notifications@,
    {
        if c == 'G' {
            let had_count = self.count.is_some();
            self.count = None;
            let moved = app.move_to_end_of_file();
            match moved {
                Err(e) => Err(e),
                Ok(()) => {
                    if had_count {
                        Err(Error::CountRedundant)
                    } else {
                        Ok(())
                    }
                },
            }
        } else if c == 'w' {
            let count = self.take_count_or_one();
            app.move_word(count, Direction::Forward, Length::Short, Boundary::Start)
        } else if c == 'W' {
            let count = self.take_count_or_one();
            app.move_word(count, Direction::Forward, Length::Long, Boundary::Start)
        } else if c == 'e' {
            let count = self.take_count_or_one();
            app.move_word(count, Direction::Forward, Length::Short, Boundary::End)
        } else if c == 'E' {
            let count = self.take_count_or_one();
            app.move_word(count, Direction::Forward, Length::Long, Boundary::End)
        } else if c == 'b' {
            let count = self.take_count_or_one();
            app.move_word(count, Direction::Backward, Length::Short, Boundary::Start)
        } else if c == 'B' {
            let count = self.take_count_or_one();
            app.move_word(count, Direction::Backward, Length::Long, Boundary::Start)
        } else if c == 'i' {
            self.key_events = Vec::new();
            self.key_events.push(key);
            let cursor = app.buffer.cursor;
            let in_bounds = app.buffer.in_rope_bounds((cursor.x, cursor.y));
            let on_tail_pos = app.buffer.on_rope_tail((cursor.x, cursor.y));
            if in_bounds || on_tail_pos {
                app.enter_mode(Mode::Insert);
                let had_count = self.count.is_some();
                self.count = None;
                if had_count {
                    Err(Error::CountRedundant)
                } else {
                    Ok(())
                }
            } else {
                Err(Error::CursorOutOfBounds)
            }
        } else if c == 'g' {
            self.key_events = Vec::new();
            self.key_events.push(key);
            app.enter_mode(Mode::GoTo);
            let had_count = self.count.is_some();
            self.count = None;
            if had_count {
                Err(Error::CountRedundant)
            } else {
                Ok(())
            }
        } else if c == 'd' {
            self.key_events = Vec::new();
            self.key_events.push(key);
            app.enter_mode(Mode::Delete);
            let had_count = self.count.is_some();
            self.count = None;
            if had_count {
                Err(Error::CountRedundant)
            } else {
                Ok(())
            }
        } else if c == 'c' || c == 'C' {
            if key.ctrl {
                app.quit();
            }
            Ok(())
        } else {
            let u: u32 = c as u32;
            if 48 <= u && u <= 57 {
                self.add_count_digit(key);
                Ok(())
            } else {
                self.count = None;
                Err(Error::KeyUnmapped)
            }
        }
    }

    fn handle_insert_mode_key_event(&mut self, key: KeyInput, app: &mut App) -> (r: AppResult<()>)
        requires
            old(app).mode == Mode::Insert,
        ensures
            machine_view(*final(self), *final(app)) == insert_step(
                machine_view(*old(self), *old(app)),
                key,
            ).state,
            r == err_to_result(insert_step(machine_view(*old(self), *old(app)), key).err),
            final(app).notifications@ == old(app).notifications@,
    {
        match key.code {
            Key::Char(c) => {
                self.key_events.push(key);
                match app.insert_char_before(c) {
                    Err(e) => Err(e),
                    Ok(()) => {
                        app.move_right(1);
                        Ok(())
                    },
                }
            },
            Key::Enter => {
                self.key_events.push(key);
                match app.insert_char_before('\n') {
                    Err(e) => Err(e),
                    Ok(()) => {
                        match app.move_down(1) {
                            Err(e) => Err(e),
                            Ok(()) => app.move_start_line(),
                        }
                    },
                }
            },
            Key::Esc => {
                self.flush_keys();
                let _moved = app.move_left(1);
                app.enter_mode(Mode::Normal);
                Ok(())
            },
            _ => Err(Error::KeyUnmapped),
        }
    }

    fn handle_go_to_mode_key_event(&self, key: KeyInput, app: &mut App) -> (r: AppResult<()>)
        requires
            old(app).mode == Mode::GoTo,
        ensures
            machine_view(*self, *final(app)) == go_to_step(
                machine_view(*self, *old(app)),
                key,
            ).state,
            r == err_to_result(go_to_step(machine_view(*self, *old(app)), key).err),
            final(app).notifications@ == old(app).notifications@,
    {
        match key.code {
            Key::Char(c) => {
                if c == 'g' {
                    app.enter_mode(Mode::Normal);
                    app.move_to_start_of_file()
                } else {
                    Err(Error::KeyUnmapped)
                }
            },
            Key::Esc => {
                app.enter_mode(Mode::Normal);
                Ok(())
            },
            _ => Err(Error::KeyUnmapped),
        }
    }

    fn handle_delete_mode_key_event(&mut self, key: KeyInput, app: &mut App) -> (r: AppResult<()>)
        requires
            old(app).mode == Mode::Delete,
        ensures
            machine_view(*final(self), *final(app)) == delete_step(
                machine_view(*old(self), *old(app)),
                key,
            ).state,
            r == err_to_result(delete_step(machine_view(*old(self), *old(app)), key).err),
            final(app).notifications@ == old(app).notifications@,
    {
        match key.code {
            Key::Char(c) => {
                if c == 'd' {
                    let count = self.take_count_or_one();
                    match app.delete_lines(count) {
                        Err(e) => Err(e),
                        Ok(()) => {
                            app.enter_mode(Mode::Normal);
                            self.count = None;
                            Ok(())
                        },
                    }
                } else {
                    let u: u32 = c as u32;
                    if 48 <= u && u <= 57 {
                        self.add_count_digit(key);
                        Ok(())
                    } else {
                        Err(Error::KeyUnmapped)
                    }
                }
            },
            Key::Esc => {
                self.key_events = Vec::new();
                self.count = None;
                app.enter_mode(Mode::Normal);
                Ok(())
            },
            _ => Err(Error::KeyUnmapped),
        }
    }

    /// Consumes the pending count, one motion's worth: absent means one.
    fn take_count_or_one(&mut self) -> (c: usize)
        ensures
            c == count_or(old(self).count, 1),
            final(self).count is None,
            final(self).key_events == old(self).key_events,
            final(self).prev_sequences == old(self).prev_sequences,
    {
        let c = match self.count {
            Some(v) => v,
            None => 1,
        };
        self.count = None;
        c
    }

    /// Moves the chord typed so far into the history of finished
    /// sequences.
    fn flush_keys(&mut self)
        ensures
            final(self).key_events@ == Seq::<KeyInput>::empty(),
            final(self).prev_sequences@.map_values(|v: Vec<KeyInput>| v@) == old(
                self,
            ).prev_sequences@.map_values(|v: Vec<KeyInput>| v@).push(old(self).key_events@),
            final(self).count == old(self).count,
    {
        let mut taken: Vec<KeyInput> = Vec::new();
        core::mem::swap(&mut taken, &mut self.key_events);
        self.prev_sequences.push(taken);
        proof {
            assert(self.prev_sequences@.map_values(|v: Vec<KeyInput>| v@) =~= old(
                self,
            ).prev_sequences@.map_values(|v: Vec<KeyInput>| v@).push(old(self).key_events@));
        }
    }

    /// Folds a digit key into the pending count, saturating at the
    /// machine's limit, and keeps the key in the pending sequence.
    fn add_count_digit(&mut self, key: KeyInput)
        requires
            key.code matches Key::Char(d) && is_digit_char(d),
        ensures
            machine_view_handler(*final(self)) == (match key.code {
                Key::Char(d) => HandlerView {
                    count: Some(bump_count(old(self).count, digit_value(d))),
                    keys: old(self).key_events@.push(key),
                    prev: machine_view_handler(*old(self)).prev,
                },
                _ => machine_view_handler(*old(self)),
            }),
    {
        match key.code {
            Key::Char(d) => {
                let u: u32 = d as u32;
                if 48 <= u && u <= 57 {
                    let dv = (u - 48) as usize;
                    let base = match self.count {
                        Some(v) => v,
                        None => 0,
                    };
                    let nc = match base.checked_mul(10) {
                        Some(m) => match m.checked_add(dv) {
                            Some(t) => t,
                            None => usize::MAX,
                        },
                        None => usize::MAX,
                    };
                    self.count = Some(nc);
                    self.key_events.push(key);
                }
            },
            _ => {},
        }
    }
}

/// The handler's own part of the machine state.
pub ghost struct HandlerView {
    pub count: Option<usize>,
    pub keys: Seq<KeyInput>,
    pub prev: Seq<Seq<KeyInput>>,
}

pub open spec fn machine_view_handler(h: Handler) -> HandlerView {
    HandlerView {
        count: h.count,
        keys: h.key_events@,
        prev: h.prev_sequences@.map_values(|v: Vec<KeyInput>| v@),
    }
}

} // verus!
