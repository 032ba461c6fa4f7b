use oppenheimer::input::{InputAction, InputController, Key, KeyEvent};
use oppenheimer::list::BoardItem;

fn editable(text: &str) -> BoardItem {
    BoardItem::new(text)
}

#[test]
fn test_insert_character() {
    let mut controller = InputController::new();
    let mut item = editable("");

    controller.input(&mut item, KeyEvent::plain(Key::Char('a')));
    assert_eq!(item.text, "a");

    controller.input(&mut item, KeyEvent::plain(Key::Char('b')));
    assert_eq!(item.text, "ab");
}

#[test]
fn test_backspace_character() {
    let mut controller = InputController { character_index: 3 };
    let mut item = editable("abc");

    controller.input(&mut item, KeyEvent::plain(Key::Left));
    controller.input(&mut item, KeyEvent::plain(Key::Left));
    controller.input(&mut item, KeyEvent::plain(Key::Backspace));
    assert_eq!(item.text, "bc");

    controller.input(&mut item, KeyEvent::plain(Key::Right));
    controller.input(&mut item, KeyEvent::plain(Key::Backspace));
    assert_eq!(item.text, "c");

    controller.input(&mut item, KeyEvent::plain(Key::Backspace));
    assert_eq!(item.text, "c"); // No change since cursor is at the beginning
}

#[test]
fn test_delete_character() {
    let mut controller = InputController { character_index: 3 };
    let mut item = editable("abc");

    controller.input(&mut item, KeyEvent::plain(Key::Left));
    controller.input(&mut item, KeyEvent::plain(Key::Left));
    controller.input(&mut item, KeyEvent::plain(Key::Delete));
    assert_eq!(item.text, "ac");

    controller.input(&mut item, KeyEvent::plain(Key::Delete));
    assert_eq!(item.text, "a");

    controller.input(&mut item, KeyEvent::plain(Key::Delete));
    assert_eq!(item.text, "a"); // No change since cursor is at the end

    controller.input(&mut item, KeyEvent::plain(Key::Left));
    controller.input(&mut item, KeyEvent::plain(Key::Delete));
    assert_eq!(item.text, "");
}

#[test]
fn test_move_cursor_left() {
    let mut controller = InputController { character_index: 3 };
    let mut item = editable("abc");

    controller.input(&mut item, KeyEvent::plain(Key::Left));
    assert_eq!(controller.character_index, 2);

    controller.input(&mut item, KeyEvent::plain(Key::Left));
    assert_eq!(controller.character_index, 1);

    controller.input(&mut item, KeyEvent::plain(Key::Left));
    assert_eq!(controller.character_index, 0);

    controller.input(&mut item, KeyEvent::plain(Key::Left));
    assert_eq!(controller.character_index, 0); // Cannot move left anymore
}

#[test]
fn test_move_cursor_right() {
    let mut controller = InputController::new();
    let mut item = editable("abc");

    controller.input(&mut item, KeyEvent::plain(Key::Right));
    assert_eq!(controller.character_index, 1);

    controller.input(&mut item, KeyEvent::plain(Key::Right));
    assert_eq!(controller.character_index, 2);

    controller.input(&mut item, KeyEvent::plain(Key::Right));
    assert_eq!(controller.character_index, 3);

    controller.input(&mut item, KeyEvent::plain(Key::Right));
    assert_eq!(controller.character_index, 3); // Cannot move right anymore
}

#[test]
fn test_escape_key() {
    let mut controller = InputController::new();
    let mut item = editable("abc");

    let continue_processing = controller.input(&mut item, KeyEvent::plain(Key::Esc));
    assert!(continue_processing == InputAction::Done);
}

#[test]
fn test_move_cursor_to_start() {
    let mut controller = InputController { character_index: 3 };
    let mut item = editable("abc");

    controller.input(&mut item, KeyEvent::plain(Key::Home));
    assert_eq!(controller.character_index, 0);
}

#[test]
fn test_move_cursor_to_end() {
    let mut controller = InputController::new();
    let mut item = editable("abc");

    controller.input(&mut item, KeyEvent::plain(Key::End));
    assert_eq!(controller.character_index, 3);
}

#[test]
fn test_move_cursor_word_left() {
    let mut controller = InputController {
        character_index: 10,
    };
    let mut item = editable("hello world");

    controller.input(&mut item, KeyEvent::control(Key::Left));
    assert_eq!(controller.character_index, 4);

    controller.input(&mut item, KeyEvent::control(Key::Left));
    assert_eq!(controller.character_index, 0);
}

#[test]
fn test_move_cursor_word_right() {
    let mut controller = InputController::new();
    let mut item = editable("hello world");

    controller.input(&mut item, KeyEvent::control(Key::Right));
    assert_eq!(controller.character_index, 6);

    controller.input(&mut item, KeyEvent::control(Key::Right));
    assert_eq!(controller.character_index, 11);
}

#[test]
fn enter_key_requests_next_item() {
    let mut controller = InputController::new();
    let mut item = editable("abc");

    let action = controller.input(&mut item, KeyEvent::plain(Key::Enter));
    assert!(action == InputAction::NewItem);
    assert_eq!(item.text, "abc");
}

#[test]
fn vertical_keys_leave_the_editor_alone() {
    let mut controller = InputController { character_index: 2 };
    let mut item = editable("abc");

    let up = controller.input(&mut item, KeyEvent::plain(Key::Up));
    let down = controller.input(&mut item, KeyEvent::plain(Key::Down));
    assert!(up == InputAction::Continue);
    assert!(down == InputAction::Continue);
    assert_eq!(item.text, "abc");
    assert_eq!(controller.character_index, 2);
}

#[test]
fn insert_in_the_middle() {
    let mut controller = InputController { character_index: 1 };
    let mut item = editable("ac");

    controller.input(&mut item, KeyEvent::plain(Key::Char('b')));
    assert_eq!(item.text, "abc");
    assert_eq!(controller.character_index, 2);
}

#[test]
fn byte_index_counts_utf8_bytes() {
    let controller = InputController { character_index: 2 };
    let item = editable("héllo");
    assert_eq!(controller.byte_index(&item), 3);

    let clamped = InputController { character_index: 99 };
    assert_eq!(clamped.byte_index(&item), 6);
}
