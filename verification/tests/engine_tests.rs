use oppenheimer::engine::{Engine, InputMode};
use oppenheimer::input::{Key, KeyEvent};
use oppenheimer::list::{BoardItem, BoardList};

fn engine_with_items() -> Engine {
    let mut engine = Engine::new();
    engine.boards[0].lists = vec![
        BoardList {
            name: "todo".to_string(),
            items: vec![
                BoardItem::new("alpha"),
                BoardItem::new("beta"),
                BoardItem::new("gamma"),
            ],
            selected_item_index: Some(0),
            width: 0,
        },
        BoardList {
            name: "done".to_string(),
            items: vec![BoardItem::new("delta")],
            selected_item_index: None,
            width: 0,
        },
    ];
    engine.boards[0].current_list = Some(0);
    engine
}

fn texts(engine: &Engine, board: usize, list: usize) -> Vec<String> {
    engine.boards[board].lists[list]
        .items
        .iter()
        .map(|i| i.text.clone())
        .collect()
}

#[test]
fn committed_commands_undo_in_reverse_order() {
    let mut engine = engine_with_items();
    let before_texts = texts(&engine, 0, 0);
    let before_selection = engine.boards[0].lists[0].selected_item_index;
    let before_current = engine.boards[0].current_list;

    assert!(engine.deprioritize_selected_item());
    assert!(engine.toggle_selected_item());
    assert!(engine.cut_selected_item());
    assert_eq!(engine.undo.len(), 3);

    assert!(engine.undo());
    assert!(engine.undo());
    assert!(engine.undo());
    assert!(!engine.undo());

    assert_eq!(texts(&engine, 0, 0), before_texts);
    assert_eq!(engine.boards[0].lists[0].selected_item_index, before_selection);
    assert_eq!(engine.boards[0].current_list, before_current);
    assert_eq!(engine.clipboard, None);
    assert!(!engine.boards[0].lists[0].items[0].done);
}

#[test]
fn undo_then_redo_is_identity() {
    let mut engine = engine_with_items();
    assert!(engine.prioritize_selected_item() == false);
    assert!(engine.deprioritize_selected_item());
    let after_texts = texts(&engine, 0, 0);
    let after_selection = engine.boards[0].lists[0].selected_item_index;

    assert!(engine.undo());
    assert!(engine.redo());

    assert_eq!(texts(&engine, 0, 0), after_texts);
    assert_eq!(engine.boards[0].lists[0].selected_item_index, after_selection);
    assert_eq!(engine.undo.len(), 1);
    assert_eq!(engine.redo.len(), 0);
}

#[test]
fn commit_clears_redo() {
    let mut engine = engine_with_items();
    assert!(engine.deprioritize_selected_item());
    assert!(engine.undo());
    assert_eq!(engine.redo.len(), 1);
    assert!(engine.toggle_selected_item());
    assert_eq!(engine.redo.len(), 0);
}

#[test]
fn staged_item_typed_text_commits() {
    let mut engine = engine_with_items();
    assert!(engine.insert_item_to_current_list());
    assert!(engine.input_mode == InputMode::EditItem);
    assert_eq!(engine.boards[0].lists[0].items.len(), 4);

    let idx = engine.active_board_index();
    let board = &mut engine.boards[idx];
    board.process_input_for_item(KeyEvent::plain(Key::Char('z')));
    assert!(engine.commit_board_command());
    assert_eq!(engine.boards[0].lists[0].items.len(), 4);
    assert_eq!(engine.boards[0].lists[0].items[1].text, "z");
    assert_eq!(engine.undo.len(), 1);
}

#[test]
fn staged_item_left_empty_is_discarded() {
    let mut engine = engine_with_items();
    assert!(engine.insert_item_to_current_list());
    assert_eq!(engine.boards[0].lists[0].items.len(), 4);
    assert!(!engine.commit_board_command());
    assert_eq!(engine.boards[0].lists[0].items.len(), 3);
    assert_eq!(engine.undo.len(), 0);
    assert_eq!(engine.boards[0].lists[0].selected_item_index, Some(0));
}

#[test]
fn push_board_allocates_and_pop_prunes() {
    let mut engine = engine_with_items();
    assert_eq!(engine.boards.len(), 1);

    engine.push_board();
    assert_eq!(engine.boards.len(), 2);
    assert_eq!(engine.boards[0].lists[0].items[0].board, Some(1));
    assert_eq!(engine.active_board_index(), 1);

    // Leaving the still-empty sub-board detaches it from the item.
    engine.pop_board();
    assert_eq!(engine.active_board_index(), 0);
    assert_eq!(engine.boards[0].lists[0].items[0].board, None);
}

#[test]
fn push_board_into_existing_child_is_kept() {
    let mut engine = engine_with_items();
    engine.push_board();
    let child = engine.active_board_index();
    assert!(engine.insert_list_to_board());
    engine.boards[child].lists[0].name = "sub".to_string();
    assert!(engine.commit_board_command());
    engine.pop_board();

    // The sub-board has a list now, so the reference stays.
    assert_eq!(engine.boards[0].lists[0].items[0].board, Some(child));
    engine.push_board();
    assert_eq!(engine.active_board_index(), child);
    assert_eq!(engine.boards[child].lists[0].name, "sub");
}

#[test]
fn undo_lands_on_the_edited_board() {
    let mut engine = engine_with_items();
    engine.push_board();
    let child = engine.active_board_index();
    assert!(engine.insert_list_to_board());
    engine.boards[child].lists[0].name = "sub".to_string();
    assert!(engine.commit_board_command());
    engine.pop_board();
    engine.pop_board();
    assert_eq!(engine.active_board_index(), 0);

    assert!(engine.undo());
    assert_eq!(engine.active_board_index(), child);
    assert_eq!(engine.boards[child].lists.len(), 0);
}

#[test]
fn paste_does_nothing_with_empty_clipboard() {
    let mut engine = engine_with_items();
    assert!(!engine.paste_item());
    assert!(engine.yank_selected_item());
    assert_eq!(engine.clipboard.as_deref(), Some("alpha"));
    assert!(engine.paste_item());
    assert_eq!(engine.boards[0].lists[0].items[1].text, "alpha");
}

#[test]
fn move_between_lists_switches_focus() {
    let mut engine = engine_with_items();
    assert!(engine.move_to_next_list());
    assert_eq!(engine.boards[0].current_list, Some(1));
    assert_eq!(texts(&engine, 0, 1), vec!["alpha", "delta"]);
    assert!(engine.undo());
    assert_eq!(texts(&engine, 0, 0), vec!["alpha", "beta", "gamma"]);
    assert_eq!(texts(&engine, 0, 1), vec!["delta"]);
    assert_eq!(engine.boards[0].current_list, Some(0));
    assert_eq!(engine.boards[0].lists[0].selected_item_index, Some(0));
}

#[test]
fn edited_text_commits_and_undoes() {
    let mut engine = engine_with_items();
    assert!(engine.edit_current_item());
    let idx = engine.active_board_index();
    engine.boards[idx].input_controller.character_index = 5;
    engine.boards[idx].process_input_for_item(KeyEvent::plain(Key::Char('!')));
    assert!(engine.commit_board_command());
    assert_eq!(engine.boards[0].lists[0].items[0].text, "alpha!");

    assert!(engine.undo());
    assert_eq!(engine.boards[0].lists[0].items[0].text, "alpha");
    assert!(engine.redo());
    assert_eq!(engine.boards[0].lists[0].items[0].text, "alpha!");
}

#[test]
fn unchanged_text_edit_is_discarded() {
    let mut engine = engine_with_items();
    assert!(engine.edit_current_item());
    assert!(!engine.commit_board_command());
    assert_eq!(engine.boards[0].lists[0].items[0].text, "alpha");
    assert_eq!(engine.undo.len(), 0);
}
