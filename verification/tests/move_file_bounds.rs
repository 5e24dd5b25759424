use editor::buffer::Buffer;
use editor::handler::{Handler, Key, KeyInput};
use editor::session::App;

const BASIC: &str = "Po:\u{a2}7i\u{a2}or l\u{a2}  a d.am soll!c7tudin.\nT1r\u{a2}is massa sed tem8us soll+citudin.\nVitae sap9en pe\u{a2}lentesque hab-tant.\nMorbi tr:st;que sene7tus et net*s.\nEt malesuada fames ac turp\u{a2}s e9estas.\nsed tem8us soll+citudin.\nam solled.";

const RIGHT_KEY: KeyInput = KeyInput { code: Key::Right, ctrl: false };
const HOME_KEY: KeyInput = KeyInput { code: Key::Home, ctrl: false };
const CAP_G_KEY: KeyInput = KeyInput { code: Key::Char('G'), ctrl: false };
const G_KEY: KeyInput = KeyInput { code: Key::Char('g'), ctrl: false };

const END_OF_LAST_LINE: (usize, usize) = (9, 6);

fn app_default() -> (App, Handler) {
    (App::new(Buffer::from_text(BASIC)), Handler::new())
}

fn app_with_cursor_on_end_of_file() -> (App, Handler) {
    let (mut app, mut handler) = app_default();
    handler.handle_key_event(CAP_G_KEY, &mut app);
    handler.handle_key_event(HOME_KEY, &mut app);
    (app, handler)
}

fn app_with_empty_file() -> (App, Handler) {
    (App::new(Buffer::from_text("")), Handler::new())
}

fn app_with_empty_file_and_cursor_moved_right() -> (App, Handler) {
    let (mut app, mut handler) = app_with_empty_file();
    handler.handle_key_event(RIGHT_KEY, &mut app);
    (app, handler)
}

#[test]
fn cap_g_key_should_move_cursor() {
    let (mut app, mut handler) = app_default();

    handler.handle_key_event(CAP_G_KEY, &mut app);

    assert_eq!(app.buffer.cursor, END_OF_LAST_LINE.into())
}

#[test]
fn cap_g_should_not_notify() {
    let (mut app, mut handler) = app_default();

    handler.handle_key_event(CAP_G_KEY, &mut app);

    assert!(app.notifs().is_empty())
}

#[test]
fn cap_g_key_on_empty_file_should_move_cursor() {
    let (mut app, mut handler) = app_with_empty_file_and_cursor_moved_right();

    handler.handle_key_event(CAP_G_KEY, &mut app);

    assert_eq!(app.buffer.cursor, (0, 0).into())
}

#[test]
fn cap_g_key_on_empty_file_should_notify() {
    let (mut app, mut handler) = app_with_empty_file();

    handler.handle_key_event(CAP_G_KEY, &mut app);

    let most_recent_notif = app.notifs().last().unwrap().to_text();
    assert_eq!(most_recent_notif, "\u{f071}  no chars in file")
}

#[test]
fn g_key_then_g_key_should_move_cursor() {
    let (mut app, mut handler) = app_with_cursor_on_end_of_file();

    handler.handle_key_event(G_KEY, &mut app);
    handler.handle_key_event(G_KEY, &mut app);

    assert_eq!(app.buffer.cursor, (0, 0).into())
}

#[test]
fn g_key_then_g_key_should_not_notify() {
    let (mut app, mut handler) = app_with_cursor_on_end_of_file();

    handler.handle_key_event(G_KEY, &mut app);
    handler.handle_key_event(G_KEY, &mut app);

    assert!(app.notifs().is_empty())
}

#[test]
fn g_key_then_g_key_on_empty_file_should_move_cursor() {
    let (mut app, mut handler) = app_with_empty_file_and_cursor_moved_right();

    handler.handle_key_event(G_KEY, &mut app);
    handler.handle_key_event(G_KEY, &mut app);

    assert_eq!(app.buffer.cursor, (0, 0).into())
}

#[test]
fn g_key_then_g_key_on_empty_file_should_notify() {
    let (mut app, mut handler) = app_with_empty_file();

    handler.handle_key_event(G_KEY, &mut app);
    handler.handle_key_event(G_KEY, &mut app);

    let most_recent_notif = app.notifs().last().unwrap().to_text();
    assert_eq!(most_recent_notif, "\u{f071}  no chars in file")
}
