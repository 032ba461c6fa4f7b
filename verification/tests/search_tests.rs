use oppenheimer::board::Board;
use oppenheimer::input::{InputController, Key, KeyEvent};
use oppenheimer::list::{BoardItem, BoardList};
use oppenheimer::search::SearchController;

fn searchable_board() -> Board {
    Board {
        lists: vec![
            BoardList {
                name: "one".to_string(),
                items: vec![
                    BoardItem::new("Write Report"),
                    BoardItem::new("buy milk"),
                    BoardItem::new("report back"),
                ],
                selected_item_index: Some(0),
                width: 0,
            },
            BoardList {
                name: "two".to_string(),
                items: vec![BoardItem::new("nothing here")],
                selected_item_index: None,
                width: 0,
            },
        ],
        current_list: Some(0),
        input_controller: InputController::new(),
        filter: String::new(),
    }
}

#[test]
fn reflect_matches_case_insensitively() {
    let board = searchable_board();
    let mut search = SearchController::new();
    search.input(KeyEvent::plain(Key::Char('r')));
    search.input(KeyEvent::plain(Key::Char('e')));
    search.input(KeyEvent::plain(Key::Char('p')));
    assert_eq!(search.query(), "rep");

    let view = search.reflect(&board);
    assert_eq!(view.board_view.len(), 2);
    assert_eq!(view.board_view[0], vec![(0, 0), (1, 2)]);
    assert_eq!(view.board_view[1], vec![]);
}

#[test]
fn reflect_with_empty_token_shows_everything() {
    let board = searchable_board();
    let search = SearchController::new();
    let view = search.reflect(&board);
    assert_eq!(view.board_view[0], vec![(0, 0), (1, 1), (2, 2)]);
    assert_eq!(view.board_view[1], vec![(0, 0)]);
}

#[test]
fn clear_resets_token_and_cursor() {
    let mut search = SearchController::new();
    search.input(KeyEvent::plain(Key::Char('x')));
    assert_eq!(search.query(), "x");
    assert_eq!(search.cursor(), 1);
    search.clear();
    assert_eq!(search.query(), "");
    assert_eq!(search.cursor(), 0);
}

#[test]
fn select_item_from_view_maps_to_actual_index() {
    let mut board = searchable_board();
    let mut search = SearchController::new();
    search.input(KeyEvent::plain(Key::Char('r')));
    search.input(KeyEvent::plain(Key::Char('e')));
    search.input(KeyEvent::plain(Key::Char('p')));
    let view = search.reflect(&board);

    // The view shows rows 0 and 1 for actual items 0 and 2; landing on view
    // row 1 selects actual item 2.
    board.lists[0].selected_item_index = Some(1);
    view.select_item_from_view(&mut board);
    assert_eq!(board.lists[0].selected_item_index, Some(2));
}

#[test]
fn update_view_selection_lands_on_first_match() {
    let mut board = searchable_board();
    let mut search = SearchController::new();
    search.input(KeyEvent::plain(Key::Char('n')));
    search.input(KeyEvent::plain(Key::Char('o')));
    search.input(KeyEvent::plain(Key::Char('t')));
    let view = search.reflect(&board);
    assert_eq!(view.board_view[0], vec![]);
    assert_eq!(view.board_view[1], vec![(0, 0)]);

    view.update_view_selection(&mut board);
    assert_eq!(board.current_list, Some(1));
    assert_eq!(board.lists[1].selected_item_index, Some(0));
}

#[test]
fn navigation_skips_empty_view_lists() {
    let mut board = searchable_board();
    let mut search = SearchController::new();
    search.input(KeyEvent::plain(Key::Char('n')));
    search.input(KeyEvent::plain(Key::Char('o')));
    let view = search.reflect(&board);
    // "no" matches only "nothing here" in the second list.
    board.current_list = Some(0);
    view.navigate_actual_board(&mut board, &KeyEvent::plain(Key::Right));
    assert_eq!(board.current_list, Some(1));

    view.navigate_actual_board(&mut board, &KeyEvent::plain(Key::Left));
    assert_eq!(board.current_list, Some(1));
}
