use oppenheimer::board::Board;
use oppenheimer::commands::SelectionBookmark;
use oppenheimer::input::InputController;
use oppenheimer::list::{BoardItem, BoardList};

fn empty_board() -> Board {
    Board {
        lists: Vec::new(),
        current_list: None,
        input_controller: InputController::new(),
        filter: String::new(),
    }
}

fn empty_list() -> BoardList {
    BoardList {
        name: String::new(),
        items: Vec::new(),
        selected_item_index: None,
        width: 0,
    }
}

fn board_with_empty_lists() -> Board {
    let mut board = empty_board();
    board.lists = vec![empty_list(), empty_list(), empty_list()];
    board.current_list = Some(0);
    board
}

fn board_with_a_short_list() -> Board {
    let mut board = empty_board();
    let mut list = empty_list();
    list.items = vec![
        BoardItem::new("item 1"),
        BoardItem::new("item 2"),
        BoardItem::new("item 3"),
    ];
    list.selected_item_index = Some(0);
    board.lists = vec![list];
    board.current_list = Some(0);
    board
}

fn boards_with_two_short_lists() -> Board {
    let mut board = empty_board();
    let mut first = empty_list();
    first.name = "list 1".to_string();
    first.items = vec![
        BoardItem::new("list 1 item 1"),
        BoardItem::new("list 1 item 2"),
        BoardItem::new("list 1 item 3"),
    ];
    first.selected_item_index = Some(0);
    let mut second = empty_list();
    second.name = "list 2".to_string();
    second.items = vec![
        BoardItem::new("list 2 item 1"),
        BoardItem::new("list 2 item 2"),
        BoardItem::new("list 2 item 3"),
    ];
    board.lists = vec![first, second];
    board.current_list = Some(0);
    board
}

#[test]
fn test_move_between_lists() {
    let mut board = board_with_empty_lists();
    board.move_left();
    assert_eq!(board.current_list, Some(0));
    board.move_right();
    assert_eq!(board.current_list, Some(1));
    board.move_right();
    assert_eq!(board.current_list, Some(2));
    board.move_right();
    assert_eq!(board.current_list, Some(2));
    board.move_left();
    assert_eq!(board.current_list, Some(1));
    board.move_left();
    assert_eq!(board.current_list, Some(0));
    board.move_left();
    assert_eq!(board.current_list, Some(0));
}

#[test]
fn test_move_within_list() {
    let mut board = board_with_a_short_list();
    board.move_up();
    assert_eq!(board.get_current_selection_index(), 0);
    board.move_down();
    assert_eq!(board.get_current_selection_index(), 1);
    board.move_down();
    assert_eq!(board.get_current_selection_index(), 2);
    board.move_down();
    assert_eq!(board.get_current_selection_index(), 2);
    board.move_up();
    assert_eq!(board.get_current_selection_index(), 1);
    board.move_up();
    assert_eq!(board.get_current_selection_index(), 0);
    board.move_up();
    assert_eq!(board.get_current_selection_index(), 0);
}

#[test]
fn test_prioritize() {
    let mut board = board_with_a_short_list();
    board.move_down();
    let cmd = board.prioritize_selected_item();
    let mut clipboard = None;
    cmd.unwrap().apply(&mut board, &mut clipboard);
    assert_eq!(board.get_current_selection_index(), 0);
    assert_eq!(
        board.current_list().unwrap().get_selected_item_text().unwrap(),
        "item 2"
    );
}

#[test]
fn test_deprioritize() {
    let mut board = board_with_a_short_list();
    let cmd = board.deprioritize_selected_item();
    let mut clipboard = None;
    cmd.unwrap().apply(&mut board, &mut clipboard);
    assert_eq!(board.get_current_selection_index(), 1);
    assert_eq!(
        board.current_list().unwrap().get_selected_item_text().unwrap(),
        "item 1"
    );
}

#[test]
fn test_move_item_between_lists() {
    let mut board = boards_with_two_short_lists();
    let cmd = board.move_to_next_list(0);
    let mut clipboard = None;
    cmd.unwrap().apply(&mut board, &mut clipboard);
    assert_eq!(board.get_current_selection_index(), 0);
    assert_eq!(board.current_list().unwrap().name, "list 2");
    assert_eq!(
        board.current_list().unwrap().get_selected_item_text().unwrap(),
        "list 1 item 1"
    );
    board.move_down();
    board.move_down();
    board.move_down();
    let cmd = board.move_to_prev_list(3);
    cmd.unwrap().apply(&mut board, &mut clipboard);
    assert_eq!(board.get_current_selection_index(), 2);
    assert_eq!(board.current_list().unwrap().name, "list 1");
    assert_eq!(
        board.current_list().unwrap().get_selected_item_text().unwrap(),
        "list 2 item 3"
    );
}

#[test]
fn test_insert_new_item() {
    let mut board = board_with_empty_lists();
    let cmd = board.insert_item_to_current_list();
    cmd.unwrap().finalize(&board);
    assert_eq!(board.get_current_selection_index(), 0);
    assert_eq!(board.current_list().unwrap().items.len(), 1);
}

#[test]
fn test_shuffle_list_forward() {
    let mut board = board_with_empty_lists();
    board.current_list = Some(1);
    let cmd = board.shuffle_list_forward();
    assert!(cmd.is_some());
    let mut clipboard = None;
    cmd.unwrap().apply(&mut board, &mut clipboard);
    assert_eq!(board.current_list, Some(0));
}

#[test]
fn test_shuffle_list_forward_at_start() {
    let mut board = board_with_empty_lists();
    board.current_list = Some(0);
    let cmd = board.shuffle_list_forward();
    assert!(cmd.is_none());
}

#[test]
fn test_shuffle_list_back() {
    let mut board = board_with_empty_lists();
    board.current_list = Some(0);
    let cmd = board.shuffle_list_back();
    assert!(cmd.is_some());
    let mut clipboard = None;
    cmd.unwrap().apply(&mut board, &mut clipboard);
    assert_eq!(board.current_list, Some(1));
}

#[test]
fn test_shuffle_list_back_at_end() {
    let mut board = board_with_empty_lists();
    board.current_list = Some(board.lists.len() - 1);
    let cmd = board.shuffle_list_back();
    assert!(cmd.is_none());
}

#[test]
fn prioritize_example_abc() {
    let mut board = empty_board();
    let list = BoardList {
        name: String::new(),
        items: vec![BoardItem::new("A"), BoardItem::new("B"), BoardItem::new("C")],
        selected_item_index: Some(1),
        width: 0,
    };
    board.lists = vec![list];
    board.current_list = Some(0);
    let cmd = board.prioritize_selected_item();
    let mut clipboard = None;
    cmd.unwrap().apply(&mut board, &mut clipboard);
    assert_eq!(board.lists[0].items.len(), 3);
    assert_eq!(board.get_current_selection_index(), 0);
    assert_eq!(board.lists[0].items[0].text, "B");
    assert_eq!(board.lists[0].items[1].text, "A");
    assert_eq!(board.lists[0].items[2].text, "C");
}

#[test]
fn deprioritize_example_abc() {
    let mut board = empty_board();
    board.lists = vec![BoardList {
        name: String::new(),
        items: vec![BoardItem::new("A"), BoardItem::new("B"), BoardItem::new("C")],
        selected_item_index: Some(0),
        width: 0,
    }];
    board.current_list = Some(0);
    let cmd = board.deprioritize_selected_item();
    let mut clipboard = None;
    cmd.unwrap().apply(&mut board, &mut clipboard);
    assert_eq!(board.get_current_selection_index(), 1);
    assert_eq!(
        board.current_list().unwrap().get_selected_item_text().unwrap(),
        "A"
    );
    assert_eq!(board.lists[0].items[0].text, "B");
}

#[test]
fn move_item_example_two_lists() {
    let mut board = empty_board();
    let first = BoardList {
        name: "L1".to_string(),
        items: vec![BoardItem::new("x1"), BoardItem::new("x2"), BoardItem::new("x3")],
        selected_item_index: Some(0),
        width: 0,
    };
    let second = BoardList {
        name: "L2".to_string(),
        items: vec![BoardItem::new("y1"), BoardItem::new("y2"), BoardItem::new("y3")],
        selected_item_index: None,
        width: 0,
    };
    board.lists = vec![first, second];
    board.current_list = Some(0);
    let cmd = board.move_to_next_list(0);
    let mut clipboard = None;
    cmd.unwrap().apply(&mut board, &mut clipboard);
    let l1: Vec<&str> = board.lists[0].items.iter().map(|i| i.text.as_str()).collect();
    let l2: Vec<&str> = board.lists[1].items.iter().map(|i| i.text.as_str()).collect();
    assert_eq!(l1, vec!["x2", "x3"]);
    assert_eq!(l2, vec!["x1", "y1", "y2", "y3"]);
    assert_eq!(board.current_list, Some(1));
    assert_eq!(board.lists[1].selected_item_index, Some(0));
}

#[test]
fn cut_then_paste_reproduces_text() {
    let mut board = board_with_a_short_list();
    let mut clipboard = Some("previous".to_string());
    let mut cut = board.cut_selected_item().unwrap();
    cut.apply(&mut board, &mut clipboard);
    assert_eq!(clipboard.as_deref(), Some("item 1"));
    assert_eq!(board.lists[0].items.len(), 2);
    let mut paste = board.paste_item().unwrap();
    paste.apply(&mut board, &mut clipboard);
    assert_eq!(board.lists[0].items.len(), 3);
    assert_eq!(board.lists[0].items[1].text, "item 1");
    cut.revert(&mut board, &mut clipboard);
    assert_eq!(clipboard.as_deref(), Some("previous"));
}

#[test]
fn toggle_is_self_inverse() {
    let mut board = board_with_a_short_list();
    let mut clipboard = None;
    let mut cmd = board.toggle_selected_item().unwrap();
    cmd.apply(&mut board, &mut clipboard);
    assert!(board.lists[0].items[0].done);
    cmd.apply(&mut board, &mut clipboard);
    assert!(!board.lists[0].items[0].done);
}

#[test]
fn staged_item_left_empty_is_reverted() {
    let mut board = board_with_a_short_list();
    let mut clipboard = None;
    let mut staged = board.insert_item_to_current_list().unwrap();
    assert_eq!(board.lists[0].items.len(), 4);
    let accepted = staged.finalize(&board);
    assert!(!accepted);
    staged.revert(&mut board, &mut clipboard);
    assert_eq!(board.lists[0].items.len(), 3);
    assert_eq!(board.lists[0].selected_item_index, Some(0));
}

#[test]
fn staged_list_left_unnamed_is_reverted() {
    let mut board = board_with_empty_lists();
    let mut clipboard = None;
    let mut staged = board.insert_list_to_board().unwrap();
    assert_eq!(board.lists.len(), 4);
    let accepted = staged.finalize(&board);
    assert!(!accepted);
    staged.revert(&mut board, &mut clipboard);
    assert_eq!(board.lists.len(), 3);
    assert_eq!(board.current_list, Some(0));
}

#[test]
fn delete_list_and_revert_restores_items() {
    let mut board = boards_with_two_short_lists();
    let mut clipboard = None;
    let mut cmd = board.delete_selected_list().unwrap();
    cmd.apply(&mut board, &mut clipboard);
    assert_eq!(board.lists.len(), 1);
    assert_eq!(board.lists[0].name, "list 2");
    cmd.revert(&mut board, &mut clipboard);
    assert_eq!(board.lists.len(), 2);
    assert_eq!(board.lists[0].name, "list 1");
    assert_eq!(board.lists[0].items[2].text, "list 1 item 3");
    assert_eq!(board.current_list, Some(0));
    assert_eq!(board.lists[0].selected_item_index, Some(0));
}

#[test]
fn bookmark_out_of_range_clears_selection() {
    let mut board = board_with_a_short_list();
    let bookmark = SelectionBookmark {
        list: Some(0),
        item: Some(9),
    };
    bookmark.select(&mut board);
    assert_eq!(board.current_list, Some(0));
    assert_eq!(board.lists[0].selected_item_index, None);
    let gone = SelectionBookmark {
        list: Some(5),
        item: Some(0),
    };
    gone.select(&mut board);
    assert_eq!(board.current_list, None);
}

#[test]
fn insert_then_delete_is_a_no_op_on_length() {
    let mut board = board_with_a_short_list();
    board.move_down(); // select position 1, the insert lands at position 2
    let mut clipboard = None;
    let mut staged = board.insert_item_to_current_list().unwrap();
    staged.finalize(&board);
    let mut add = staged.to_cmd();
    add.revert(&mut board, &mut clipboard);
    add.apply(&mut board, &mut clipboard);
    assert_eq!(board.lists[0].items.len(), 4);
    let mut del = board.delete_selected_item().unwrap();
    del.apply(&mut board, &mut clipboard);
    assert_eq!(board.lists[0].items.len(), 3);
    assert_eq!(board.lists[0].selected_item_index, Some(1));
}
