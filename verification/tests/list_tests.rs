use oppenheimer::list::{BoardItem, BoardList};

fn two_item_list(selected: Option<usize>) -> BoardList {
    BoardList {
        name: String::from("Test Board"),
        items: vec![BoardItem::new("Item 1"), BoardItem::new("Item 2")],
        selected_item_index: selected,
        width: 10,
    }
}

#[test]
fn test_remove_item() {
    let mut board_list = two_item_list(Some(0));

    board_list.remove_item(0);
    assert_eq!(board_list.items.len(), 1);
    assert_eq!(board_list.selected_item_index, None);
}

#[test]
fn test_select_previous() {
    let mut board_list = two_item_list(Some(1));

    board_list.select_previous();
    assert_eq!(board_list.selected_item_index, Some(0));
}

#[test]
fn test_select_next() {
    let mut board_list = two_item_list(Some(0));

    board_list.select_next();
    assert_eq!(board_list.selected_item_index, Some(1));
}

#[test]
fn test_set_selection() {
    let mut board_list = two_item_list(None);

    board_list.set_selection();
    assert_eq!(board_list.selected_item_index, Some(0));
}

#[test]
fn test_get_selected_item_text() {
    let board_list = two_item_list(Some(1));

    assert_eq!(board_list.get_selected_item_text(), Some("Item 2"));
}

#[test]
fn test_current_item() {
    let board_list = two_item_list(Some(1));

    assert_eq!(
        board_list.current_item().map(|item| &item.text),
        Some(&"Item 2".to_string())
    );
}

#[test]
fn set_selection_index_clamps() {
    let mut board_list = two_item_list(None);
    board_list.set_selection_index(7);
    assert_eq!(board_list.selected_item_index, Some(1));

    let mut empty = BoardList {
        name: String::new(),
        items: Vec::new(),
        selected_item_index: None,
        width: 0,
    };
    empty.set_selection_index(0);
    assert_eq!(empty.selected_item_index, None);
}

#[test]
fn toggle_flips_done() {
    let mut item = BoardItem::new("x");
    assert!(!item.done);
    item.toggle();
    assert!(item.done);
    item.toggle();
    assert!(!item.done);
}
