use editor::buffer::Buffer;
use editor::handler::{Handler, Key, KeyInput};
use editor::session::App;

const BASIC: &str = "Po:\u{a2}7i\u{a2}or l\u{a2}  a d.am soll!c7tudin.\nT1r\u{a2}is massa sed tem8us soll+citudin.\nVitae sap9en pe\u{a2}lentesque hab-tant.\nMorbi tr:st;que sene7tus et net*s.\nEt malesuada fames ac turp\u{a2}s e9estas.\nsed tem8us soll+citudin.\nam solled.";

const UP_KEY: KeyInput = KeyInput { code: Key::Up, ctrl: false };
const DOWN_KEY: KeyInput = KeyInput { code: Key::Down, ctrl: false };
const HOME_KEY: KeyInput = KeyInput { code: Key::Home, ctrl: false };
const FIVE_KEY: KeyInput = KeyInput { code: Key::Char('5'), ctrl: false };
const CAP_G_KEY: KeyInput = KeyInput { code: Key::Char('G'), ctrl: false };

const START_OF_LAST_LINE: (usize, usize) = (0, 6);

fn app_default() -> (App, Handler) {
    (App::new(Buffer::from_text(BASIC)), Handler::new())
}

fn app_with_cursor_on_start_of_last_line() -> (App, Handler) {
    let (mut app, mut handler) = app_default();
    handler.handle_key_event(CAP_G_KEY, &mut app);
    handler.handle_key_event(HOME_KEY, &mut app);
    (app, handler)
}

#[test]
fn up_key_should_move_cursor() {
    let (mut app, mut handler) = app_with_cursor_on_start_of_last_line();

    handler.handle_key_event(UP_KEY, &mut app);

    assert_eq!(
        app.buffer.cursor,
        (START_OF_LAST_LINE.0, START_OF_LAST_LINE.1 - 1).into()
    )
}

#[test]
fn up_key_should_not_move_cursor() {
    let (mut app, mut handler) = app_default();

    handler.handle_key_event(UP_KEY, &mut app);

    assert_eq!(app.buffer.cursor, (0, 0).into())
}

#[test]
fn up_key_should_notify() {
    let (mut app, mut handler) = app_default();

    handler.handle_key_event(UP_KEY, &mut app);

    let most_recent_notif = app.notifs().last().unwrap().to_text();
    assert_eq!(most_recent_notif, "\u{f071}  already at top")
}

#[test]
fn up_key_should_not_notify() {
    let (mut app, mut handler) = app_with_cursor_on_start_of_last_line();

    handler.handle_key_event(UP_KEY, &mut app);

    assert!(app.notifs().is_empty())
}

#[test]
fn five_key_then_up_key_should_move_cursor() {
    let (mut app, mut handler) = app_with_cursor_on_start_of_last_line();

    handler.handle_key_event(FIVE_KEY, &mut app);
    handler.handle_key_event(UP_KEY, &mut app);

    assert_eq!(
        app.buffer.cursor,
        (START_OF_LAST_LINE.0, START_OF_LAST_LINE.1 - 5).into()
    )
}

#[test]
fn five_key_then_up_key_should_not_move_cursor() {
    let (mut app, mut handler) = app_default();

    handler.handle_key_event(FIVE_KEY, &mut app);
    handler.handle_key_event(UP_KEY, &mut app);

    assert_eq!(app.buffer.cursor, (0, 0).into())
}

#[test]
fn five_key_then_up_key_should_notify() {
    let (mut app, mut handler) = app_default();

    handler.handle_key_event(FIVE_KEY, &mut app);
    handler.handle_key_event(UP_KEY, &mut app);

    let most_recent_notif = app.notifs().last().unwrap().to_text();
    assert_eq!(most_recent_notif, "\u{f071}  already at top")
}

#[test]
fn five_key_then_up_key_should_not_notify() {
    let (mut app, mut handler) = app_with_cursor_on_start_of_last_line();

    handler.handle_key_event(FIVE_KEY, &mut app);
    handler.handle_key_event(UP_KEY, &mut app);

    assert!(app.notifs().is_empty())
}

#[test]
fn down_key_should_move_cursor() {
    let (mut app, mut handler) = app_default();

    handler.handle_key_event(DOWN_KEY, &mut app);

    assert_eq!(app.buffer.cursor, (0, 1).into())
}

#[test]
fn down_key_should_not_move_cursor() {
    let (mut app, mut handler) = app_with_cursor_on_start_of_last_line();

    handler.handle_key_event(DOWN_KEY, &mut app);

    assert_eq!(app.buffer.cursor, START_OF_LAST_LINE.into())
}

#[test]
fn down_key_should_notify() {
    let (mut app, mut handler) = app_with_cursor_on_start_of_last_line();

    handler.handle_key_event(DOWN_KEY, &mut app);

    let most_recent_notif = app.notifs().last().unwrap().to_text();
    assert_eq!(most_recent_notif, "\u{f071}  already at bottom")
}

#[test]
fn down_key_should_not_notify() {
    let (mut app, mut handler) = app_default();

    handler.handle_key_event(DOWN_KEY, &mut app);

    assert!(app.notifs().is_empty())
}

#[test]
fn five_key_then_down_key_should_move_cursor() {
    let (mut app, mut handler) = app_default();

    handler.handle_key_event(FIVE_KEY, &mut app);
    handler.handle_key_event(DOWN_KEY, &mut app);

    assert_eq!(app.buffer.cursor, (0, 5).into())
}

#[test]
fn five_key_then_down_key_should_not_move_cursor() {
    let (mut app, mut handler) = app_with_cursor_on_start_of_last_line();

    handler.handle_key_event(FIVE_KEY, &mut app);
    handler.handle_key_event(DOWN_KEY, &mut app);

    assert_eq!(app.buffer.cursor, START_OF_LAST_LINE.into())
}

#[test]
fn five_key_then_down_key_should_notify() {
    let (mut app, mut handler) = app_with_cursor_on_start_of_last_line();

    handler.handle_key_event(FIVE_KEY, &mut app);
    handler.handle_key_event(DOWN_KEY, &mut app);

    let most_recent_notif = app.notifs().last().unwrap().to_text();
    assert_eq!(most_recent_notif, "\u{f071}  already at bottom")
}

#[test]
fn five_key_then_down_key_should_not_notify() {
    let (mut app, mut handler) = app_default();

    handler.handle_key_event(FIVE_KEY, &mut app);
    handler.handle_key_event(DOWN_KEY, &mut app);

    assert!(app.notifs().is_empty())
}
