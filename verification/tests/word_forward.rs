use editor::buffer::Buffer;
use editor::handler::{Handler, Key, KeyInput};
use editor::session::App;

const BASIC: &str = "Po:\u{a2}7i\u{a2}or l\u{a2}  a d.am soll!c7tudin.\nT1r\u{a2}is massa sed tem8us soll+citudin.\nVitae sap9en pe\u{a2}lentesque hab-tant.\nMorbi tr:st;que sene7tus et net*s.\nEt malesuada fames ac turp\u{a2}s e9estas.\nsed tem8us soll+citudin.\nam solled.";

const END_KEY: KeyInput = KeyInput { code: Key::End, ctrl: false };
const THREE_KEY: KeyInput = KeyInput { code: Key::Char('3'), ctrl: false };
const W_KEY: KeyInput = KeyInput { code: Key::Char('w'), ctrl: false };
const CAP_W_KEY: KeyInput = KeyInput { code: Key::Char('W'), ctrl: false };
const E_KEY: KeyInput = KeyInput { code: Key::Char('e'), ctrl: false };
const CAP_E_KEY: KeyInput = KeyInput { code: Key::Char('E'), ctrl: false };

fn app_default() -> (App, Handler) {
    (App::new(Buffer::from_text(BASIC)), Handler::new())
}

fn app_with_cursor_on_end_of_first_line() -> (App, Handler) {
    let (mut app, mut handler) = app_default();
    handler.handle_key_event(END_KEY, &mut app);
    (app, handler)
}

#[test]
fn w_key_should_move_cursor() {
    let (mut app, mut handler) = app_default();

    handler.handle_key_event(W_KEY, &mut app);

    assert_eq!(app.buffer.cursor, (2, 0).into())
}

#[test]
fn w_key_should_not_move_cursor() {
    let (mut app, mut handler) = app_with_cursor_on_end_of_first_line();

    handler.handle_key_event(W_KEY, &mut app);

    assert_eq!(app.buffer.cursor, (33, 0).into())
}

#[test]
fn w_key_should_notify() {
    let (mut app, mut handler) = app_with_cursor_on_end_of_first_line();

    handler.handle_key_event(W_KEY, &mut app);

    assert_eq!(
        app.notifs().last().unwrap().to_text(),
        "\u{f071}  no more words in line"
    )
}

#[test]
fn w_key_should_not_notify() {
    let (mut app, mut handler) = app_default();

    handler.handle_key_event(W_KEY, &mut app);

    assert!(app.notifs().is_empty())
}

#[test]
fn three_key_then_w_key_should_move_cursor() {
    let (mut app, mut handler) = app_default();

    handler.handle_key_event(THREE_KEY, &mut app);
    handler.handle_key_event(W_KEY, &mut app);

    assert_eq!(app.buffer.cursor, (4, 0).into())
}

#[test]
fn three_key_then_w_key_should_not_move_cursor() {
    let (mut app, mut handler) = app_with_cursor_on_end_of_first_line();

    handler.handle_key_event(THREE_KEY, &mut app);
    handler.handle_key_event(W_KEY, &mut app);

    assert_eq!(app.buffer.cursor, (33, 0).into())
}

#[test]
fn three_key_then_w_key_should_notify() {
    let (mut app, mut handler) = app_with_cursor_on_end_of_first_line();

    handler.handle_key_event(THREE_KEY, &mut app);
    handler.handle_key_event(W_KEY, &mut app);

    assert_eq!(
        app.notifs().last().unwrap().to_text(),
        "\u{f071}  no more words in line"
    )
}

#[test]
fn three_key_then_w_key_should_not_notify() {
    let (mut app, mut handler) = app_default();

    handler.handle_key_event(THREE_KEY, &mut app);
    handler.handle_key_event(W_KEY, &mut app);

    assert!(app.notifs().is_empty())
}

#[test]
fn cap_w_key_should_move_cursor() {
    let (mut app, mut handler) = app_default();

    handler.handle_key_event(CAP_W_KEY, &mut app);

    assert_eq!(app.buffer.cursor, (10, 0).into())
}

#[test]
fn cap_w_key_should_not_move_cursor() {
    let (mut app, mut handler) = app_with_cursor_on_end_of_first_line();

    handler.handle_key_event(CAP_W_KEY, &mut app);

    assert_eq!(app.buffer.cursor, (33, 0).into())
}

#[test]
fn cap_w_key_should_notify() {
    let (mut app, mut handler) = app_with_cursor_on_end_of_first_line();

    handler.handle_key_event(CAP_W_KEY, &mut app);

    assert_eq!(
        app.notifs().last().unwrap().to_text(),
        "\u{f071}  no more words in line"
    )
}

#[test]
fn cap_w_key_should_not_notify() {
    let (mut app, mut handler) = app_default();

    handler.handle_key_event(CAP_W_KEY, &mut app);

    assert!(app.notifs().is_empty())
}

#[test]
fn three_key_then_cap_w_key_should_move_cursor() {
    let (mut app, mut handler) = app_default();

    handler.handle_key_event(THREE_KEY, &mut app);
    handler.handle_key_event(CAP_W_KEY, &mut app);

    assert_eq!(app.buffer.cursor, (16, 0).into())
}

#[test]
fn three_key_then_cap_w_key_should_not_move_cursor() {
    let (mut app, mut handler) = app_with_cursor_on_end_of_first_line();

    handler.handle_key_event(THREE_KEY, &mut app);
    handler.handle_key_event(CAP_W_KEY, &mut app);

    assert_eq!(app.buffer.cursor, (33, 0).into())
}

#[test]
fn three_key_then_cap_w_key_should_notify() {
    let (mut app, mut handler) = app_with_cursor_on_end_of_first_line();

    handler.handle_key_event(THREE_KEY, &mut app);
    handler.handle_key_event(CAP_W_KEY, &mut app);

    assert_eq!(
        app.notifs().last().unwrap().to_text(),
        "\u{f071}  no more words in line"
    )
}

#[test]
fn three_key_then_cap_w_key_should_not_notify() {
    let (mut app, mut handler) = app_default();

    handler.handle_key_event(THREE_KEY, &mut app);
    handler.handle_key_event(CAP_W_KEY, &mut app);

    assert!(app.notifs().is_empty())
}

#[test]
fn e_key_should_move_cursor() {
    let (mut app, mut handler) = app_default();

    handler.handle_key_event(E_KEY, &mut app);

    assert_eq!(app.buffer.cursor, (1, 0).into())
}

#[test]
fn e_key_should_not_move_cursor() {
    let (mut app, mut handler) = app_with_cursor_on_end_of_first_line();

    handler.handle_key_event(E_KEY, &mut app);

    assert_eq!(app.buffer.cursor, (33, 0).into())
}

#[test]
fn e_key_should_notify() {
    let (mut app, mut handler) = app_with_cursor_on_end_of_first_line();

    handler.handle_key_event(E_KEY, &mut app);

    assert_eq!(
        app.notifs().last().unwrap().to_text(),
        "\u{f071}  no more words in line"
    )
}

#[test]
fn e_key_should_not_notify() {
    let (mut app, mut handler) = app_default();

    handler.handle_key_event(E_KEY, &mut app);

    assert!(app.notifs().is_empty())
}

#[test]
fn three_key_then_e_key_should_move_cursor() {
    let (mut app, mut handler) = app_default();

    handler.handle_key_event(THREE_KEY, &mut app);
    handler.handle_key_event(E_KEY, &mut app);

    assert_eq!(app.buffer.cursor, (3, 0).into())
}

#[test]
fn three_key_then_e_key_should_not_move_cursor() {
    let (mut app, mut handler) = app_with_cursor_on_end_of_first_line();

    handler.handle_key_event(THREE_KEY, &mut app);
    handler.handle_key_event(E_KEY, &mut app);

    assert_eq!(app.buffer.cursor, (33, 0).into())
}

#[test]
fn three_key_then_e_key_should_notify() {
    let (mut app, mut handler) = app_with_cursor_on_end_of_first_line();

    handler.handle_key_event(THREE_KEY, &mut app);
    handler.handle_key_event(E_KEY, &mut app);

    assert_eq!(
        app.notifs().last().unwrap().to_text(),
        "\u{f071}  no more words in line"
    )
}

#[test]
fn three_key_then_e_key_should_not_notify() {
    let (mut app, mut handler) = app_default();

    handler.handle_key_event(THREE_KEY, &mut app);
    handler.handle_key_event(E_KEY, &mut app);

    assert!(app.notifs().is_empty())
}

#[test]
fn cap_e_key_should_move_cursor() {
    let (mut app, mut handler) = app_default();

    handler.handle_key_event(CAP_E_KEY, &mut app);

    assert_eq!(app.buffer.cursor, (8, 0).into())
}

#[test]
fn cap_e_key_should_not_move_cursor() {
    let (mut app, mut handler) = app_with_cursor_on_end_of_first_line();

    handler.handle_key_event(CAP_E_KEY, &mut app);

    assert_eq!(app.buffer.cursor, (33, 0).into())
}

#[test]
fn cap_e_key_should_notify() {
    let (mut app, mut handler) = app_with_cursor_on_end_of_first_line();

    handler.handle_key_event(CAP_E_KEY, &mut app);

    assert_eq!(
        app.notifs().last().unwrap().to_text(),
        "\u{f071}  no more words in line"
    )
}

#[test]
fn cap_e_key_should_not_notify() {
    let (mut app, mut handler) = app_default();

    handler.handle_key_event(CAP_E_KEY, &mut app);

    assert!(app.notifs().is_empty())
}

#[test]
fn three_key_then_cap_e_key_should_move_cursor() {
    let (mut app, mut handler) = app_default();

    handler.handle_key_event(THREE_KEY, &mut app);
    handler.handle_key_event(CAP_E_KEY, &mut app);

    assert_eq!(app.buffer.cursor, (14, 0).into())
}

#[test]
fn three_key_then_cap_e_key_should_not_move_cursor() {
    let (mut app, mut handler) = app_with_cursor_on_end_of_first_line();

    handler.handle_key_event(THREE_KEY, &mut app);
    handler.handle_key_event(CAP_E_KEY, &mut app);

    assert_eq!(app.buffer.cursor, (33, 0).into())
}

#[test]
fn three_key_then_cap_e_key_should_notify() {
    let (mut app, mut handler) = app_with_cursor_on_end_of_first_line();

    handler.handle_key_event(THREE_KEY, &mut app);
    handler.handle_key_event(CAP_E_KEY, &mut app);

    assert_eq!(
        app.notifs().last().unwrap().to_text(),
        "\u{f071}  no more words in line"
    )
}

#[test]
fn three_key_then_cap_e_key_should_not_notify() {
    let (mut app, mut handler) = app_default();

    handler.handle_key_event(THREE_KEY, &mut app);
    handler.handle_key_event(CAP_E_KEY, &mut app);

    assert!(app.notifs().is_empty())
}
