//! Reversible commands over the board model.
//!
//! Every edit of the document is a value of [`Command`]: applying it mutates
//! a board and the clipboard, and reverting it is the exact algebraic inverse
//! of applying it, selection included. Each command carries a
//! [`SelectionBookmark`] captured when the command is built, so that undoing
//! it restores not only the data but what the user was looking at.

use vstd::prelude::*;

use crate::board::{Board, BoardModel};
use crate::list::{BoardItem, BoardList, ItemModel, ListModel, spec_set_selection_index};

verus! {

/// Where selection should be after an operation or its inverse: a list index
/// and an item index, either possibly absent. Applying a bookmark never
/// selects past the end of a list; an out-of-range index clears the
/// selection instead.
#[derive(Clone, Copy)]
pub struct SelectionBookmark {
    pub list: Option<usize>,
    pub item: Option<usize>,
}

/// The full state a command acts upon: the active board and the clipboard
/// slot. This is the mathematical aggregate every command contract is stated
/// over; executable commands take the board and the clipboard as two mutable
/// arguments.
#[verifier::ext_equal]
pub struct Context {
    pub board: BoardModel,
    pub clipboard: Option<Seq<char>>,
}

/// The board after restoring `bm`, with `off` added to the item index.
///
/// A missing list restores the lack of a focused list; an out-of-range list
/// index clears the focus; a missing or out-of-range item index (after the
/// offset) clears the selection of the restored list.
pub open spec fn sp_bookmark_select_offset(
    bm: SelectionBookmark,
    b: BoardModel,
    off: int,
) -> BoardModel {
    match bm.list {
        None => BoardModel { current: None, ..b },
        Some(l) => if l < b.lists.len() {
            let selected = match bm.item {
                Some(it) => if it + off >= 0 && it + off < b.lists[l as int].items.len() {
                    Some((it + off) as usize)
                } else {
                    None
                },
                None => None,
            };
            BoardModel {
                lists: b.lists.update(l as int, ListModel { selected, ..b.lists[l as int] }),
                current: Some(l),
            }
        } else {
            BoardModel { current: None, ..b }
        },
    }
}

/// The board after restoring `bm` exactly.
pub open spec fn sp_bookmark_select(bm: SelectionBookmark, b: BoardModel) -> BoardModel {
    sp_bookmark_select_offset(bm, b, 0)
}

impl SelectionBookmark {
    /// Restores this bookmark on `board`.
    pub fn select(&self, board: &mut Board)
        ensures
            final(board)@ == sp_bookmark_select(*self, old(board)@),
    {
        self.select_with_offset(board, 0);
    }

    /// Restores this bookmark with `offset` added to the item index, used
    /// when the operation being undone removed an item before the bookmarked
    /// position.
    pub fn select_with_offset(&self, board: &mut Board, offset: i32)
        ensures
            final(board)@ == sp_bookmark_select_offset(*self, old(board)@, offset as int),
    {
        match self.list {
            None => {
                board.current_list = None;
            },
            Some(l) => {
                if l < board.lists.len() {
                    board.current_list = Some(l);
                    let n = board.lists[l].items.len();
                    let selected: Option<usize> = match self.item {
                        Some(it) => {
                            if offset >= 0 {
                                let off = offset as usize;
                                if it < n && off < n - it {
                                    Some(it + off)
                                } else {
                                    None
                                }
                            } else {
                                let mag = (-(offset as i64)) as usize;
                                if it >= mag {
                                    if it - mag < n {
                                        Some(it - mag)
                                    } else {
                                        None
                                    }
                                } else {
                                    None
                                }
                            }
                        },
                        None => None,
                    };
                    let list = &mut board.lists[l];
                    list.selected_item_index = selected;
                    proof {
                        assert(board@ =~= sp_bookmark_select_offset(
                            *self,
                            old(board)@,
                            offset as int,
                        ));
                    }
                } else {
                    board.current_list = None;
                }
            },
        }
    }
}

/// The clipboard as a sequence of characters.
pub open spec fn sp_clip(c: Option<String>) -> Option<Seq<char>> {
    match c {
        Some(s) => Some(s@),
        None => None,
    }
}

/// A selection kept only when it is in bounds for a list of `len` items.
pub open spec fn sp_bounded_selection(sel: Option<usize>, len: nat) -> Option<usize> {
    match sel {
        Some(x) => if x < len {
            Some(x)
        } else {
            None
        },
        None => None,
    }
}

// Elementary board edits that the command transitions are composed of.
/// The board with the text of one item replaced.
pub open spec fn sp_text_set(b: BoardModel, list: usize, item: usize, text: Seq<char>) -> BoardModel {
    let l0 = b.lists[list as int];
    let l1 = ListModel {
        items: l0.items.update(item as int, ItemModel { text, ..l0.items[item as int] }),
        ..l0
    };
    BoardModel { lists: b.lists.update(list as int, l1), ..b }
}

/// The board with the done flag of one item flipped.
pub open spec fn sp_done_flipped(b: BoardModel, list: usize, item: usize) -> BoardModel {
    let l0 = b.lists[list as int];
    let it0 = l0.items[item as int];
    let l1 = ListModel {
        items: l0.items.update(item as int, ItemModel { done: !it0.done, ..it0 }),
        ..l0
    };
    BoardModel { lists: b.lists.update(list as int, l1), ..b }
}

/// The board with `value` inserted at position `item` of one list.
pub open spec fn sp_item_inserted(
    b: BoardModel,
    list: usize,
    item: usize,
    value: ItemModel,
) -> BoardModel {
    let l0 = b.lists[list as int];
    let l1 = ListModel { items: l0.items.insert(item as int, value), ..l0 };
    BoardModel { lists: b.lists.update(list as int, l1), ..b }
}

/// The board with the item at position `item` of one list removed; the
/// list's selection is untouched here.
pub open spec fn sp_item_removed(b: BoardModel, list: usize, item: usize) -> BoardModel {
    let l0 = b.lists[list as int];
    let l1 = ListModel { items: l0.items.remove(item as int), ..l0 };
    BoardModel { lists: b.lists.update(list as int, l1), ..b }
}

/// The board with two items of one list exchanged.
pub open spec fn sp_items_swapped(b: BoardModel, list: usize, a: usize, z: usize) -> BoardModel {
    let l0 = b.lists[list as int];
    let items2 = l0.items.update(a as int, l0.items[z as int]).update(
        z as int,
        l0.items[a as int],
    );
    BoardModel { lists: b.lists.update(list as int, ListModel { items: items2, ..l0 }), ..b }
}

/// The board with two whole lists exchanged.
pub open spec fn sp_lists_swapped(b: BoardModel, a: usize, z: usize) -> BoardModel {
    BoardModel {
        lists: b.lists.update(a as int, b.lists[z as int]).update(z as int, b.lists[a as int]),
        ..b
    }
}

/// The board with one list's selection replaced.
pub open spec fn sp_selection_set(b: BoardModel, list: usize, sel: Option<usize>) -> BoardModel {
    BoardModel {
        lists: b.lists.update(list as int, ListModel { selected: sel, ..b.lists[list as int] }),
        ..b
    }
}

/// The selection a delete leaves behind: the item before the removed one,
/// clamped into the shortened list.
pub open spec fn sp_after_delete_selection(l: ListModel, item: usize) -> ListModel {
    spec_set_selection_index(
        l,
        if item == 0 {
            0usize
        } else {
            (item - 1) as usize
        },
    )
}

/// The data of every command, as the contracts see it.
#[verifier::ext_equal]
#[allow(inconsistent_fields)]
pub enum CommandModel {
    ChangeText {
        list: usize,
        item: usize,
        old: Seq<char>,
        new: Seq<char>,
        bookmark: SelectionBookmark,
    },
    AddList { list: usize, title: Seq<char>, bookmark: SelectionBookmark },
    DeleteList { list: usize, value: ListModel, bookmark: SelectionBookmark },
    AddItem { list: usize, item: usize, value: ItemModel, bookmark: SelectionBookmark },
    DeleteItem { list: usize, item: usize, value: ItemModel, bookmark: SelectionBookmark },
    ShuffleList { from_index: usize, to_index: usize, bookmark: SelectionBookmark },
    ShuffleItem { list: usize, from_index: usize, to_index: usize, bookmark: SelectionBookmark },
    MoveItem {
        from_list: usize,
        from_index: usize,
        to_list: usize,
        to_index: usize,
        to_list_selection: Option<usize>,
        bookmark: SelectionBookmark,
    },
    ToggleItem { list: usize, item: usize, bookmark: SelectionBookmark },
    YankItem { list: usize, item: usize, value: ItemModel, last_clipboard: Option<Seq<char>> },
    CutItem {
        list: usize,
        item: usize,
        value: ItemModel,
        bookmark: SelectionBookmark,
        last_clipboard: Option<Seq<char>>,
    },
    PasteItem { list: usize, item: usize, bookmark: SelectionBookmark },
}

/// Index bounds that applying `c` to `s` needs; the executable `apply`
/// requires exactly this.
pub open spec fn sp_apply_req(c: CommandModel, s: Context) -> bool {
    let ls = s.board.lists;
    match c {
        CommandModel::ChangeText { list, item, .. } => list < ls.len() && item < ls[
            list as int
        ].items.len(),
        CommandModel::AddList { list, .. } => list <= ls.len(),
        CommandModel::DeleteList { list, .. } => list < ls.len(),
        CommandModel::AddItem { list, item, .. } => list < ls.len() && item <= ls[
            list as int
        ].items.len(),
        CommandModel::DeleteItem { list, item, .. } => list < ls.len() && item < ls[
            list as int
        ].items.len(),
        CommandModel::ShuffleList { from_index, to_index, .. } => from_index < ls.len()
            && to_index < ls.len(),
        CommandModel::ShuffleItem { list, from_index, to_index, .. } => list < ls.len()
            && from_index < ls[list as int].items.len() && to_index < ls[
            list as int
        ].items.len(),
        CommandModel::MoveItem { from_list, from_index, to_list, .. } => from_list < ls.len()
            && to_list < ls.len() && from_list != to_list && from_index < ls[
            from_list as int
        ].items.len(),
        CommandModel::ToggleItem { list, item, .. } => list < ls.len() && item < ls[
            list as int
        ].items.len(),
        CommandModel::YankItem { list, item, .. } => list < ls.len() && item < ls[
            list as int
        ].items.len(),
        CommandModel::CutItem { list, item, .. } => list < ls.len() && item < ls[
            list as int
        ].items.len(),
        CommandModel::PasteItem { list, item, .. } => list < ls.len() && item <= ls[
            list as int
        ].items.len() && s.clipboard is Some,
    }
}

/// Index bounds that reverting `c` from `s` needs; the executable `revert`
/// requires exactly this.
pub open spec fn sp_rev_req(c: CommandModel, s: Context) -> bool {
    let ls = s.board.lists;
    match c {
        CommandModel::ChangeText { list, item, .. } => list < ls.len() && item < ls[
            list as int
        ].items.len(),
        CommandModel::AddList { list, .. } => list < ls.len(),
        CommandModel::DeleteList { list, .. } => list <= ls.len(),
        CommandModel::AddItem { list, item, .. } => list < ls.len() && item < ls[
            list as int
        ].items.len(),
        CommandModel::DeleteItem { list, item, .. } => list < ls.len() && item <= ls[
            list as int
        ].items.len(),
        CommandModel::ShuffleList { from_index, to_index, .. } => from_index < ls.len()
            && to_index < ls.len(),
        CommandModel::ShuffleItem { list, from_index, to_index, .. } => list < ls.len()
            && from_index < ls[list as int].items.len() && to_index < ls[
            list as int
        ].items.len(),
        CommandModel::MoveItem { from_list, from_index, to_list, to_index, .. } => from_list
            < ls.len() && to_list < ls.len() && from_list != to_list && to_index < ls[
            to_list as int
        ].items.len() && from_index <= ls[from_list as int].items.len(),
        CommandModel::ToggleItem { list, item, .. } => list < ls.len() && item < ls[
            list as int
        ].items.len(),
        CommandModel::YankItem { .. } => true,
        CommandModel::CutItem { list, item, .. } => list < ls.len() && item <= ls[
            list as int
        ].items.len(),
        CommandModel::PasteItem { list, item, .. } => list < ls.len() && item < ls[
            list as int
        ].items.len(),
    }
}

/// Applying a command: the state afterwards, and the command as it stands
/// afterwards (commands that remove data capture it here for their inverse;
/// a cross-list move also pins the clamped target index).
pub open spec fn sp_apply(c: CommandModel, s: Context) -> (CommandModel, Context) {
    let b = s.board;
    let ls = b.lists;
    match c {
        CommandModel::ChangeText { list, item, old, new, bookmark } => (
            c,
            Context {
                board: sp_bookmark_select(bookmark, sp_text_set(b, list, item, new)),
                clipboard: s.clipboard,
            },
        ),
        CommandModel::AddList { list, title, bookmark } => {
            let nl = ListModel { name: title, items: Seq::empty(), selected: None };
            let b1 = BoardModel { lists: ls.insert(list as int, nl), current: Some(list) };
            (c, Context { board: b1, clipboard: s.clipboard })
        },
        CommandModel::DeleteList { list, value, bookmark } => {
            let captured = ls[list as int];
            let ls2 = ls.remove(list as int);
            let cur: Option<usize> = if ls2.len() == 0 {
                None
            } else if list < ls2.len() {
                Some(list)
            } else {
                Some((ls2.len() - 1) as usize)
            };
            (
                CommandModel::DeleteList { list, value: captured, bookmark },
                Context { board: BoardModel { lists: ls2, current: cur }, clipboard: s.clipboard },
            )
        },
        CommandModel::AddItem { list, item, value, bookmark } => (
            c,
            Context {
                board: sp_bookmark_select(bookmark, sp_item_inserted(b, list, item, value)),
                clipboard: s.clipboard,
            },
        ),
        CommandModel::DeleteItem { list, item, value, bookmark } => {
            let captured = ls[list as int].items[item as int];
            let b1 = sp_item_removed(b, list, item);
            let l2 = sp_after_delete_selection(b1.lists[list as int], item);
            let b2 = BoardModel { lists: b1.lists.update(list as int, l2), ..b1 };
            (
                CommandModel::DeleteItem { list, item, value: captured, bookmark },
                Context { board: b2, clipboard: s.clipboard },
            )
        },
        CommandModel::ShuffleList { from_index, to_index, bookmark } => (
            c,
            Context {
                board: BoardModel {
                    current: Some(to_index),
                    ..sp_lists_swapped(b, from_index, to_index)
                },
                clipboard: s.clipboard,
            },
        ),
        CommandModel::ShuffleItem { list, from_index, to_index, bookmark } => {
            let b1 = sp_items_swapped(b, list, from_index, to_index);
            let l2 = spec_set_selection_index(b1.lists[list as int], to_index);
            let b2 = BoardModel { lists: b1.lists.update(list as int, l2), ..b1 };
            (c, Context { board: b2, clipboard: s.clipboard })
        },
        CommandModel::MoveItem {
            from_list,
            from_index,
            to_list,
            to_index,
            to_list_selection,
            bookmark,
        } => {
            let moved = ls[from_list as int].items[from_index as int];
            let b1 = sp_selection_set(
                sp_item_removed(b, from_list, from_index),
                from_list,
                None,
            );
            let tlen = b1.lists[to_list as int].items.len();
            let pos: usize = if to_index < tlen {
                to_index
            } else {
                tlen as usize
            };
            let b2 = sp_selection_set(
                sp_item_inserted(b1, to_list, pos, moved),
                to_list,
                Some(pos),
            );
            (
                CommandModel::MoveItem {
                    from_list,
                    from_index,
                    to_list,
                    to_index: pos,
                    to_list_selection,
                    bookmark,
                },
                Context {
                    board: BoardModel { current: Some(to_list), ..b2 },
                    clipboard: s.clipboard,
                },
            )
        },
        CommandModel::ToggleItem { list, item, bookmark } => (
            c,
            Context {
                board: sp_bookmark_select(bookmark, sp_done_flipped(b, list, item)),
                clipboard: s.clipboard,
            },
        ),
        CommandModel::YankItem { list, item, value, last_clipboard } => {
            let captured = ls[list as int].items[item as int];
            (
                CommandModel::YankItem { list, item, value: captured, last_clipboard: s.clipboard },
                Context { board: b, clipboard: Some(captured.text) },
            )
        },
        CommandModel::CutItem { list, item, value, bookmark, last_clipboard } => {
            let captured = ls[list as int].items[item as int];
            let b1 = sp_item_removed(b, list, item);
            let l2 = sp_after_delete_selection(b1.lists[list as int], item);
            let b2 = BoardModel { lists: b1.lists.update(list as int, l2), ..b1 };
            (
                CommandModel::CutItem {
                    list,
                    item,
                    value: captured,
                    bookmark,
                    last_clipboard: s.clipboard,
                },
                Context { board: b2, clipboard: Some(captured.text) },
            )
        },
        CommandModel::PasteItem { list, item, bookmark } => {
            let pasted = ItemModel { text: s.clipboard->0, done: false, child: None };
            (
                c,
                Context {
                    board: sp_bookmark_select(bookmark, sp_item_inserted(b, list, item, pasted)),
                    clipboard: s.clipboard,
                },
            )
        },
    }
}

/// Reverting a command: the exact inverse of [`sp_apply`] on the states the
/// engine produces (see the round-trip laws).
pub open spec fn sp_revert(c: CommandModel, s: Context) -> Context {
    let b = s.board;
    let ls = b.lists;
    match c {
        CommandModel::ChangeText { list, item, old, new, bookmark } => Context {
            board: sp_bookmark_select(bookmark, sp_text_set(b, list, item, old)),
            clipboard: s.clipboard,
        },
        CommandModel::AddList { list, title, bookmark } => {
            let b1 = BoardModel { lists: ls.remove(list as int), ..b };
            Context { board: sp_bookmark_select(bookmark, b1), clipboard: s.clipboard }
        },
        CommandModel::DeleteList { list, value, bookmark } => {
            let restored = ListModel {
                selected: sp_bounded_selection(value.selected, value.items.len()),
                ..value
            };
            let b1 = BoardModel { lists: ls.insert(list as int, restored), ..b };
            Context { board: sp_bookmark_select(bookmark, b1), clipboard: s.clipboard }
        },
        CommandModel::AddItem { list, item, value, bookmark } => {
            let b1 = sp_item_removed(b, list, item);
            let b2 = sp_selection_set(
                b1,
                list,
                sp_bounded_selection(
                    b1.lists[list as int].selected,
                    b1.lists[list as int].items.len(),
                ),
            );
            Context { board: sp_bookmark_select_offset(bookmark, b2, -1), clipboard: s.clipboard }
        },
        CommandModel::DeleteItem { list, item, value, bookmark } => Context {
            board: sp_bookmark_select(bookmark, sp_item_inserted(b, list, item, value)),
            clipboard: s.clipboard,
        },
        CommandModel::ShuffleList { from_index, to_index, bookmark } => Context {
            board: sp_bookmark_select(bookmark, sp_lists_swapped(b, to_index, from_index)),
            clipboard: s.clipboard,
        },
        CommandModel::ShuffleItem { list, from_index, to_index, bookmark } => Context {
            board: sp_bookmark_select(bookmark, sp_items_swapped(b, list, to_index, from_index)),
            clipboard: s.clipboard,
        },
        CommandModel::MoveItem {
            from_list,
            from_index,
            to_list,
            to_index,
            to_list_selection,
            bookmark,
        } => {
            let moved = ls[to_list as int].items[to_index as int];
            let b1 = sp_item_removed(b, to_list, to_index);
            let b2 = sp_selection_set(
                b1,
                to_list,
                sp_bounded_selection(to_list_selection, b1.lists[to_list as int].items.len()),
            );
            let b3 = sp_item_inserted(b2, from_list, from_index, moved);
            Context { board: sp_bookmark_select(bookmark, b3), clipboard: s.clipboard }
        },
        CommandModel::ToggleItem { list, item, bookmark } => Context {
            board: sp_bookmark_select(bookmark, sp_done_flipped(b, list, item)),
            clipboard: s.clipboard,
        },
        CommandModel::YankItem { list, item, value, last_clipboard } => Context {
            board: b,
            clipboard: last_clipboard,
        },
        CommandModel::CutItem { list, item, value, bookmark, last_clipboard } => Context {
            board: sp_bookmark_select(bookmark, sp_item_inserted(b, list, item, value)),
            clipboard: last_clipboard,
        },
        CommandModel::PasteItem { list, item, bookmark } => {
            let b1 = sp_item_removed(b, list, item);
            let b2 = sp_selection_set(
                b1,
                list,
                sp_bounded_selection(
                    b1.lists[list as int].selected,
                    b1.lists[list as int].items.len(),
                ),
            );
            Context { board: sp_bookmark_select_offset(bookmark, b2, -1), clipboard: s.clipboard }
        },
    }
}

/// A command as the board query layer builds it, against the board it was
/// built from: every index in bounds, the bookmark equal to the selection on
/// screen, and every captured field equal to what the board holds.
pub open spec fn sp_valid_board(c: CommandModel, b: BoardModel) -> bool {
    let ls = b.lists;
    &&& b.wf()
    &&& match c {
        CommandModel::ChangeText { list, item, old, new, bookmark } => {
            &&& b.current == Some(list)
            &&& ls[list as int].selected == Some(item)
            &&& bookmark == SelectionBookmark { list: Some(list), item: Some(item) }
            &&& old == ls[list as int].items[item as int].text
        },
        CommandModel::AddList { list, title, bookmark } => {
            &&& list <= ls.len()
            &&& bookmark.list == b.current
            &&& match b.current {
                Some(c0) => bookmark.item == ls[c0 as int].selected,
                None => bookmark.item is None,
            }
        },
        CommandModel::DeleteList { list, value, bookmark } => {
            &&& b.current == Some(list)
            &&& bookmark == SelectionBookmark {
                list: Some(list),
                item: ls[list as int].selected,
            }
        },
        CommandModel::AddItem { list, item, value, bookmark } => {
            &&& b.current == Some(list)
            &&& bookmark == SelectionBookmark { list: Some(list), item: Some(item) }
            &&& item <= ls[list as int].items.len()
            &&& match ls[list as int].selected {
                Some(x) => item == x + 1,
                None => item == 0,
            }
        },
        CommandModel::DeleteItem { list, item, value, bookmark } => {
            &&& b.current == Some(list)
            &&& ls[list as int].selected == Some(item)
            &&& bookmark == SelectionBookmark { list: Some(list), item: Some(item) }
        },
        CommandModel::ShuffleList { from_index, to_index, bookmark } => {
            &&& b.current == Some(from_index)
            &&& to_index < ls.len()
            &&& bookmark == SelectionBookmark {
                list: Some(from_index),
                item: ls[from_index as int].selected,
            }
        },
        CommandModel::ShuffleItem { list, from_index, to_index, bookmark } => {
            &&& b.current == Some(list)
            &&& ls[list as int].selected == Some(from_index)
            &&& to_index < ls[list as int].items.len()
            &&& bookmark == SelectionBookmark { list: Some(list), item: Some(from_index) }
        },
        CommandModel::MoveItem {
            from_list,
            from_index,
            to_list,
            to_index,
            to_list_selection,
            bookmark,
        } => {
            &&& b.current == Some(from_list)
            &&& ls[from_list as int].selected == Some(from_index)
            &&& to_list < ls.len()
            &&& from_list != to_list
            &&& to_list_selection == ls[to_list as int].selected
            &&& bookmark == SelectionBookmark { list: Some(from_list), item: Some(from_index) }
        },
        CommandModel::ToggleItem { list, item, bookmark } => {
            &&& b.current == Some(list)
            &&& ls[list as int].selected == Some(item)
            &&& bookmark == SelectionBookmark { list: Some(list), item: Some(item) }
        },
        CommandModel::YankItem { list, item, value, last_clipboard } => {
            &&& b.current == Some(list)
            &&& ls[list as int].selected == Some(item)
        },
        CommandModel::CutItem { list, item, value, bookmark, last_clipboard } => {
            &&& b.current == Some(list)
            &&& ls[list as int].selected == Some(item)
            &&& bookmark == SelectionBookmark { list: Some(list), item: Some(item) }
        },
        CommandModel::PasteItem { list, item, bookmark } => {
            &&& b.current == Some(list)
            &&& bookmark == SelectionBookmark { list: Some(list), item: Some(item) }
            &&& item <= ls[list as int].items.len()
            &&& match ls[list as int].selected {
                Some(x) => item == x + 1,
                None => item == 0,
            }
        },
    }
}

/// Validity against the full state: the board conditions, and for a paste a
/// non-empty clipboard. Committed commands satisfy this by construction; it
/// is the hypothesis of the round-trip laws.
pub open spec fn sp_valid(c: CommandModel, s: Context) -> bool {
    &&& sp_valid_board(c, s.board)
    &&& (c is PasteItem ==> s.clipboard is Some)
}

/// A command valid for a state can be applied to it.
pub proof fn lemma_valid_implies_req(c: CommandModel, s: Context)
    requires
        sp_valid(c, s),
    ensures
        sp_apply_req(c, s),
{
}

/// Restoring a bookmark makes a board well formed again, whatever its focus
/// was, as long as each list is well formed: the restored focus and selection
/// are clamped into bounds.
pub proof fn lemma_bookmark_wf(bm: SelectionBookmark, b: BoardModel, off: int)
    requires
        forall|i: int| 0 <= i < b.lists.len() ==> (#[trigger] b.lists[i]).wf(),
    ensures
        sp_bookmark_select_offset(bm, b, off).wf(),
{
}

/// Applying a command within bounds keeps the board well formed.
pub proof fn lemma_apply_wf(c: CommandModel, s: Context)
    requires
        s.board.wf(),
        sp_apply_req(c, s),
    ensures
        sp_apply(c, s).1.board.wf(),
{
    let b1 = sp_apply(c, s).1.board;
    match c {
        CommandModel::ChangeText { list, item, old, new, bookmark } => {
            lemma_bookmark_wf(bookmark, sp_text_set(s.board, list, item, new), 0);
        },
        CommandModel::AddList { .. } => {
        },
        CommandModel::DeleteList { .. } => {
        },
        CommandModel::AddItem { list, item, value, bookmark } => {
            lemma_bookmark_wf(bookmark, sp_item_inserted(s.board, list, item, value), 0);
        },
        CommandModel::DeleteItem { .. } => {
        },
        CommandModel::ShuffleList { .. } => {
        },
        CommandModel::ShuffleItem { .. } => {
        },
        CommandModel::MoveItem { .. } => {
        },
        CommandModel::ToggleItem { list, item, bookmark } => {
            lemma_bookmark_wf(bookmark, sp_done_flipped(s.board, list, item), 0);
        },
        CommandModel::YankItem { .. } => {
        },
        CommandModel::CutItem { .. } => {
        },
        CommandModel::PasteItem { list, item, bookmark } => {
            let pasted = ItemModel { text: s.clipboard->0, done: false, child: None };
            lemma_bookmark_wf(bookmark, sp_item_inserted(s.board, list, item, pasted), 0);
        },
    }
}

/// Reverting a command within bounds keeps the board well formed.
pub proof fn lemma_revert_wf(c: CommandModel, s: Context)
    requires
        s.board.wf(),
        sp_rev_req(c, s),
    ensures
        sp_revert(c, s).board.wf(),
{
    let b = s.board;
    match c {
        CommandModel::ChangeText { list, item, old, new, bookmark } => {
            lemma_bookmark_wf(bookmark, sp_text_set(b, list, item, old), 0);
        },
        CommandModel::AddList { list, title, bookmark } => {
            let b1 = BoardModel { lists: b.lists.remove(list as int), ..b };
            assert forall|i: int| 0 <= i < b1.lists.len() implies (#[trigger] b1.lists[i]).wf() by {
                if i < list {
                    assert(b1.lists[i] == b.lists[i]);
                } else {
                    assert(b1.lists[i] == b.lists[i + 1]);
                }
            }
            lemma_bookmark_wf(bookmark, b1, 0);
        },
        CommandModel::DeleteList { list, value, bookmark } => {
            let restored = ListModel {
                selected: sp_bounded_selection(value.selected, value.items.len()),
                ..value
            };
            let b1 = BoardModel { lists: b.lists.insert(list as int, restored), ..b };
            assert forall|i: int| 0 <= i < b1.lists.len() implies (#[trigger] b1.lists[i]).wf() by {
                if i < list {
                    assert(b1.lists[i] == b.lists[i]);
                } else if i == list {
                    assert(b1.lists[i] == restored);
                } else {
                    assert(b1.lists[i] == b.lists[i - 1]);
                }
            }
            lemma_bookmark_wf(bookmark, b1, 0);
        },
        CommandModel::AddItem { list, item, value, bookmark } => {
            let b1 = sp_item_removed(b, list, item);
            let b2 = sp_selection_set(
                b1,
                list,
                sp_bounded_selection(
                    b1.lists[list as int].selected,
                    b1.lists[list as int].items.len(),
                ),
            );
            lemma_bookmark_wf(bookmark, b2, -1);
        },
        CommandModel::DeleteItem { list, item, value, bookmark } => {
            lemma_bookmark_wf(bookmark, sp_item_inserted(b, list, item, value), 0);
        },
        CommandModel::ShuffleList { from_index, to_index, bookmark } => {
            lemma_bookmark_wf(bookmark, sp_lists_swapped(b, to_index, from_index), 0);
        },
        CommandModel::ShuffleItem { list, from_index, to_index, bookmark } => {
            lemma_bookmark_wf(bookmark, sp_items_swapped(b, list, to_index, from_index), 0);
        },
        CommandModel::MoveItem {
            from_list,
            from_index,
            to_list,
            to_index,
            to_list_selection,
            bookmark,
        } => {
            let moved = b.lists[to_list as int].items[to_index as int];
            let b1 = sp_item_removed(b, to_list, to_index);
            let b2 = sp_selection_set(
                b1,
                to_list,
                sp_bounded_selection(to_list_selection, b1.lists[to_list as int].items.len()),
            );
            let b3 = sp_item_inserted(b2, from_list, from_index, moved);
            lemma_bookmark_wf(bookmark, b3, 0);
        },
        CommandModel::ToggleItem { list, item, bookmark } => {
            lemma_bookmark_wf(bookmark, sp_done_flipped(b, list, item), 0);
        },
        CommandModel::YankItem { .. } => {
        },
        CommandModel::CutItem { list, item, value, bookmark, last_clipboard } => {
            lemma_bookmark_wf(bookmark, sp_item_inserted(b, list, item, value), 0);
        },
        CommandModel::PasteItem { list, item, bookmark } => {
            let b1 = sp_item_removed(b, list, item);
            let b2 = sp_selection_set(
                b1,
                list,
                sp_bounded_selection(
                    b1.lists[list as int].selected,
                    b1.lists[list as int].items.len(),
                ),
            );
            lemma_bookmark_wf(bookmark, b2, -1);
        },
    }
}

/// The round trip at the heart of undo and redo: applying a valid command
/// and then reverting what `apply` returned restores the starting state
/// exactly, selection and clipboard included; and applying it again from
/// there leads back to the same state, with the command unchanged.
#[verifier::rlimit(100)]
#[verifier::spinoff_prover]
pub proof fn lemma_apply_revert(c: CommandModel, s: Context)
    requires
        sp_valid(c, s),
    ensures
        ({
            let (c2, t) = sp_apply(c, s);
            &&& sp_rev_req(c2, t)
            &&& sp_revert(c2, t) == s
            &&& sp_apply_req(c2, s)
            &&& sp_apply(c2, s) == (c2, t)
            &&& t.board.wf()
        }),
{
    let (c2, t) = sp_apply(c, s);
    lemma_valid_implies_req(c, s);
    lemma_apply_wf(c, s);
    let b = s.board;
    let ls = b.lists;
    match c {
        CommandModel::ChangeText { list, item, old, new, bookmark } => {
            assert(sp_revert(c2, t) =~~= s);
            assert(sp_apply(c2, s).1 =~~= t);
        },
        CommandModel::AddList { list, title, bookmark } => {
            assert(sp_revert(c2, t) =~~= s);
            assert(sp_apply(c2, s).1 =~~= t);
        },
        CommandModel::DeleteList { list, value, bookmark } => {
            assert(sp_revert(c2, t) =~~= s);
            assert(sp_apply(c2, s).1 =~~= t);
        },
        CommandModel::AddItem { list, item, value, bookmark } => {
            assert(sp_revert(c2, t) =~~= s);
            assert(sp_apply(c2, s).1 =~~= t);
        },
        CommandModel::DeleteItem { list, item, value, bookmark } => {
            assert(sp_revert(c2, t) =~~= s);
            assert(sp_apply(c2, s).1 =~~= t);
        },
        CommandModel::ShuffleList { from_index, to_index, bookmark } => {
            assert(sp_revert(c2, t) =~~= s);
            assert(sp_apply(c2, s).1 =~~= t);
        },
        CommandModel::ShuffleItem { list, from_index, to_index, bookmark } => {
            assert(sp_revert(c2, t) =~~= s);
            assert(sp_apply(c2, s).1 =~~= t);
        },
        CommandModel::MoveItem {
            from_list,
            from_index,
            to_list,
            to_index,
            to_list_selection,
            bookmark,
        } => {
            assert(sp_revert(c2, t) =~~= s);
            assert(sp_apply(c2, s).1 =~~= t);
        },
        CommandModel::ToggleItem { list, item, bookmark } => {
            assert(sp_revert(c2, t) =~~= s);
            assert(sp_apply(c2, s).1 =~~= t);
        },
        CommandModel::YankItem { list, item, value, last_clipboard } => {
            assert(sp_revert(c2, t) =~~= s);
            assert(sp_apply(c2, s).1 =~~= t);
        },
        CommandModel::CutItem { list, item, value, bookmark, last_clipboard } => {
            assert(sp_revert(c2, t) =~~= s);
            assert(sp_apply(c2, s).1 =~~= t);
        },
        CommandModel::PasteItem { list, item, bookmark } => {
            assert(sp_revert(c2, t) =~~= s);
            assert(sp_apply(c2, s).1 =~~= t);
        },
    }
    assert(sp_apply(c2, s).0 == c2);
}

/// Replaces the text of one item; staged behind the in-place editor.
pub struct ChangeTextCommand {
    pub list: usize,
    pub item: usize,
    pub old: String,
    pub new: String,
    pub bookmark: SelectionBookmark,
}

impl View for ChangeTextCommand {
    type V = CommandModel;

    open spec fn view(&self) -> CommandModel {
        CommandModel::ChangeText {
            list: self.list,
            item: self.item,
            old: self.old@,
            new: self.new@,
            bookmark: self.bookmark,
        }
    }
}

/// Inserts a new list; staged behind the title editor.
pub struct AddListCommand {
    pub list: usize,
    pub title: String,
    pub bookmark: SelectionBookmark,
}

impl View for AddListCommand {
    type V = CommandModel;

    open spec fn view(&self) -> CommandModel {
        CommandModel::AddList { list: self.list, title: self.title@, bookmark: self.bookmark }
    }
}

/// Removes a whole list, keeping it for the inverse.
pub struct DeleteListCommand {
    pub list: usize,
    pub value: BoardList,
    pub bookmark: SelectionBookmark,
}

impl View for DeleteListCommand {
    type V = CommandModel;

    open spec fn view(&self) -> CommandModel {
        CommandModel::DeleteList { list: self.list, value: self.value@, bookmark: self.bookmark }
    }
}

/// Inserts one item; staged behind the item editor.
pub struct AddItemCommand {
    pub list: usize,
    pub item: usize,
    pub value: BoardItem,
    pub bookmark: SelectionBookmark,
}

impl View for AddItemCommand {
    type V = CommandModel;

    open spec fn view(&self) -> CommandModel {
        CommandModel::AddItem {
            list: self.list,
            item: self.item,
            value: self.value@,
            bookmark: self.bookmark,
        }
    }
}

/// Removes one item, keeping it for the inverse.
pub struct DeleteItemCommand {
    pub list: usize,
    pub item: usize,
    pub value: BoardItem,
    pub bookmark: SelectionBookmark,
}

impl View for DeleteItemCommand {
    type V = CommandModel;

    open spec fn view(&self) -> CommandModel {
        CommandModel::DeleteItem {
            list: self.list,
            item: self.item,
            value: self.value@,
            bookmark: self.bookmark,
        }
    }
}

/// Exchanges two whole lists.
pub struct ShuffleListCommand {
    pub from_index: usize,
    pub to_index: usize,
    pub bookmark: SelectionBookmark,
}

impl View for ShuffleListCommand {
    type V = CommandModel;

    open spec fn view(&self) -> CommandModel {
        CommandModel::ShuffleList {
            from_index: self.from_index,
            to_index: self.to_index,
            bookmark: self.bookmark,
        }
    }
}

/// Exchanges two items of one list (prioritize and deprioritize).
pub struct ShuffleItemCommand {
    pub list: usize,
    pub from_index: usize,
    pub to_index: usize,
    pub bookmark: SelectionBookmark,
}

impl View for ShuffleItemCommand {
    type V = CommandModel;

    open spec fn view(&self) -> CommandModel {
        CommandModel::ShuffleItem {
            list: self.list,
            from_index: self.from_index,
            to_index: self.to_index,
            bookmark: self.bookmark,
        }
    }
}

/// Moves one item to another list, clamping the target index; remembers the
/// target list's previous selection so the inverse restores it.
pub struct MoveItemCommand {
    pub from_list: usize,
    pub from_index: usize,
    pub to_list: usize,
    pub to_index: usize,
    pub to_list_selection: Option<usize>,
    pub bookmark: SelectionBookmark,
}

impl View for MoveItemCommand {
    type V = CommandModel;

    open spec fn view(&self) -> CommandModel {
        CommandModel::MoveItem {
            from_list: self.from_list,
            from_index: self.from_index,
            to_list: self.to_list,
            to_index: self.to_index,
            to_list_selection: self.to_list_selection,
            bookmark: self.bookmark,
        }
    }
}

/// Flips the done flag of one item; it is its own inverse.
pub struct ToggleItemCommand {
    pub list: usize,
    pub item: usize,
    pub bookmark: SelectionBookmark,
}

impl View for ToggleItemCommand {
    type V = CommandModel;

    open spec fn view(&self) -> CommandModel {
        CommandModel::ToggleItem { list: self.list, item: self.item, bookmark: self.bookmark }
    }
}

/// Copies one item's text to the clipboard, remembering what the clipboard
/// held so the inverse can put it back.
pub struct YankItemCommand {
    pub list: usize,
    pub item: usize,
    pub value: BoardItem,
    pub last_clipboard: Option<String>,
}

impl View for YankItemCommand {
    type V = CommandModel;

    open spec fn view(&self) -> CommandModel {
        CommandModel::YankItem {
            list: self.list,
            item: self.item,
            value: self.value@,
            last_clipboard: sp_clip(self.last_clipboard),
        }
    }
}

/// Removes one item and puts its text on the clipboard; the inverse restores
/// both the item and the clipboard it overwrote.
pub struct CutItemCommand {
    pub list: usize,
    pub item: usize,
    pub value: BoardItem,
    pub bookmark: SelectionBookmark,
    pub last_clipboard: Option<String>,
}

impl View for CutItemCommand {
    type V = CommandModel;

    open spec fn view(&self) -> CommandModel {
        CommandModel::CutItem {
            list: self.list,
            item: self.item,
            value: self.value@,
            bookmark: self.bookmark,
            last_clipboard: sp_clip(self.last_clipboard),
        }
    }
}

/// Inserts a new item built from the clipboard; the caller checks that the
/// clipboard holds something before building this command.
pub struct PasteItemCommand {
    pub list: usize,
    pub item: usize,
    pub bookmark: SelectionBookmark,
}

impl View for PasteItemCommand {
    type V = CommandModel;

    open spec fn view(&self) -> CommandModel {
        CommandModel::PasteItem { list: self.list, item: self.item, bookmark: self.bookmark }
    }
}

impl ChangeTextCommand {
    /// Field-by-field copy with a known result.
    pub fn duplicate(&self) -> (r: Self)
        ensures
            r@ == self@,
    {
        ChangeTextCommand {
            list: self.list,
            item: self.item,
            old: self.old.clone(),
            new: self.new.clone(),
            bookmark: self.bookmark,
        }
    }
}

impl AddListCommand {
    /// Field-by-field copy with a known result.
    pub fn duplicate(&self) -> (r: Self)
        ensures
            r@ == self@,
    {
        AddListCommand { list: self.list, title: self.title.clone(), bookmark: self.bookmark }
    }
}

impl AddItemCommand {
    /// Field-by-field copy with a known result.
    pub fn duplicate(&self) -> (r: Self)
        ensures
            r@ == self@,
    {
        AddItemCommand {
            list: self.list,
            item: self.item,
            value: self.value.duplicate(),
            bookmark: self.bookmark,
        }
    }
}

/// Every reversible edit of the document, dispatched through one
/// `apply`/`revert` match.
pub enum Command {
    ChangeText(ChangeTextCommand),
    AddList(AddListCommand),
    DeleteList(DeleteListCommand),
    AddItem(AddItemCommand),
    DeleteItem(DeleteItemCommand),
    ShuffleList(ShuffleListCommand),
    ShuffleItem(ShuffleItemCommand),
    MoveItem(MoveItemCommand),
    ToggleItem(ToggleItemCommand),
    YankItem(YankItemCommand),
    CutItem(CutItemCommand),
    PasteItem(PasteItemCommand),
}

impl View for Command {
    type V = CommandModel;

    open spec fn view(&self) -> CommandModel {
        match self {
            Command::ChangeText(c) => c@,
            Command::AddList(c) => c@,
            Command::DeleteList(c) => c@,
            Command::AddItem(c) => c@,
            Command::DeleteItem(c) => c@,
            Command::ShuffleList(c) => c@,
            Command::ShuffleItem(c) => c@,
            Command::MoveItem(c) => c@,
            Command::ToggleItem(c) => c@,
            Command::YankItem(c) => c@,
            Command::CutItem(c) => c@,
            Command::PasteItem(c) => c@,
        }
    }
}

impl Command {
    /// Applies this command to the board and clipboard.
    pub fn apply(&mut self, board: &mut Board, clipboard: &mut Option<String>)
        requires
            sp_apply_req(
                old(self)@,
                Context { board: old(board)@, clipboard: sp_clip(*old(clipboard)) },
            ),
        ensures
            ({
                let r = sp_apply(
                    old(self)@,
                    Context { board: old(board)@, clipboard: sp_clip(*old(clipboard)) },
                );
                &&& final(self)@ == r.0
                &&& final(board)@ == r.1.board
                &&& sp_clip(*final(clipboard)) == r.1.clipboard
            }),
    {
        match self {
            Command::ChangeText(c) => {
                let list = &mut board.lists[c.list];
                let item = &mut list.items[c.item];
                item.text = c.new.clone();
                proof {
                    assert(board@ =~~= sp_text_set(old(board)@, c.list, c.item, c.new@));
                }
                c.bookmark.select(board);
            },
            Command::AddList(c) => {
                let nl = BoardList::new(c.title.as_str());
                board.lists.insert(c.list, nl);
                board.current_list = Some(c.list);
                proof {
                    assert(board@ =~~= sp_apply(
                        old(self)@,
                        Context { board: old(board)@, clipboard: sp_clip(*old(clipboard)) },
                    ).1.board);
                }
            },
            Command::DeleteList(c) => {
                let removed = board.lists.remove(c.list);
                let n = board.lists.len();
                board.current_list = if n == 0 {
                    None
                } else if c.list < n {
                    Some(c.list)
                } else {
                    Some(n - 1)
                };
                c.value = removed;
                proof {
                    assert(board@.lists =~= old(board)@.lists.remove(c.list as int));
                }
            },
            Command::AddItem(c) => {
                let fresh = c.value.duplicate();
                let list = &mut board.lists[c.list];
                list.items.insert(c.item, fresh);
                proof {
                    assert(board@ =~~= sp_item_inserted(old(board)@, c.list, c.item, c.value@));
                }
                c.bookmark.select(board);
            },
            Command::DeleteItem(c) => {
                let list = &mut board.lists[c.list];
                let removed = list.items.remove(c.item);
                let idx = if c.item == 0 {
                    0
                } else {
                    c.item - 1
                };
                list.set_selection_index(idx);
                c.value = removed;
                proof {
                    assert(board@ =~~= sp_apply(
                        old(self)@,
                        Context { board: old(board)@, clipboard: sp_clip(*old(clipboard)) },
                    ).1.board);
                }
            },
            Command::ShuffleList(c) => {
                crate::text::vec_swap(&mut board.lists, c.from_index, c.to_index);
                board.current_list = Some(c.to_index);
                proof {
                    assert(board@ =~~= sp_apply(
                        old(self)@,
                        Context { board: old(board)@, clipboard: sp_clip(*old(clipboard)) },
                    ).1.board);
                }
            },
            Command::ShuffleItem(c) => {
                let list = &mut board.lists[c.list];
                crate::text::vec_swap(&mut list.items, c.from_index, c.to_index);
                list.set_selection_index(c.to_index);
                proof {
                    assert(board@ =~~= sp_apply(
                        old(self)@,
                        Context { board: old(board)@, clipboard: sp_clip(*old(clipboard)) },
                    ).1.board);
                }
            },
            Command::MoveItem(c) => {
                let from = &mut board.lists[c.from_list];
                let moved = from.items.remove(c.from_index);
                from.clear_selection();
                board.current_list = Some(c.to_list);
                let to = &mut board.lists[c.to_list];
                let tlen = to.items.len();
                let pos = if c.to_index < tlen {
                    c.to_index
                } else {
                    tlen
                };
                to.items.insert(pos, moved);
                to.set_selection_index(pos);
                c.to_index = pos;
                proof {
                    assert(board@ =~~= sp_apply(
                        old(self)@,
                        Context { board: old(board)@, clipboard: sp_clip(*old(clipboard)) },
                    ).1.board);
                }
            },
            Command::ToggleItem(c) => {
                let list = &mut board.lists[c.list];
                let item = &mut list.items[c.item];
                item.toggle();
                proof {
                    assert(board@ =~~= sp_done_flipped(old(board)@, c.list, c.item));
                }
                c.bookmark.select(board);
            },
            Command::YankItem(c) => {
                let list = &board.lists[c.list];
                let captured = list.items[c.item].duplicate();
                c.last_clipboard = match &*clipboard {
                    Some(s) => Some(s.clone()),
                    None => None,
                };
                *clipboard = Some(captured.text.clone());
                c.value = captured;
            },
            Command::CutItem(c) => {
                let list = &mut board.lists[c.list];
                let removed = list.items.remove(c.item);
                let idx = if c.item == 0 {
                    0
                } else {
                    c.item - 1
                };
                list.set_selection_index(idx);
                c.last_clipboard = match &*clipboard {
                    Some(s) => Some(s.clone()),
                    None => None,
                };
                *clipboard = Some(removed.text.clone());
                c.value = removed;
                proof {
                    assert(board@ =~~= sp_apply(
                        old(self)@,
                        Context { board: old(board)@, clipboard: sp_clip(*old(clipboard)) },
                    ).1.board);
                }
            },
            Command::PasteItem(c) => {
                let pasted: BoardItem = match &*clipboard {
                    Some(s) => BoardItem::new(s.as_str()),
                    None => {
                        proof {
                            assert(false);
                        }
                        BoardItem::new("")
                    },
                };
                let list = &mut board.lists[c.list];
                list.items.insert(c.item, pasted);
                proof {
                    assert(board@ =~~= sp_item_inserted(
                        old(board)@,
                        c.list,
                        c.item,
                        ItemModel { text: sp_clip(*old(clipboard))->0, done: false, child: None },
                    ));
                }
                c.bookmark.select(board);
            },
        }
    }

    /// Whether `apply` may run against this board: every index it touches is
    /// in bounds. The history engine checks this before re-applying an entry
    /// rather than trusting the entry blindly.
    pub fn apply_req_check(&self, board: &Board, clipboard: &Option<String>) -> (r: bool)
        ensures
            r == sp_apply_req(self@, Context { board: board@, clipboard: sp_clip(*clipboard) }),
    {
        match self {
            Command::ChangeText(c) => c.list < board.lists.len() && c.item
                < board.lists[c.list].items.len(),
            Command::AddList(c) => c.list <= board.lists.len(),
            Command::DeleteList(c) => c.list < board.lists.len(),
            Command::AddItem(c) => c.list < board.lists.len() && c.item
                <= board.lists[c.list].items.len(),
            Command::DeleteItem(c) => c.list < board.lists.len() && c.item
                < board.lists[c.list].items.len(),
            Command::ShuffleList(c) => c.from_index < board.lists.len() && c.to_index
                < board.lists.len(),
            Command::ShuffleItem(c) => c.list < board.lists.len() && c.from_index
                < board.lists[c.list].items.len() && c.to_index
                < board.lists[c.list].items.len(),
            Command::MoveItem(c) => c.from_list < board.lists.len() && c.to_list
                < board.lists.len() && c.from_list != c.to_list && c.from_index
                < board.lists[c.from_list].items.len(),
            Command::ToggleItem(c) => c.list < board.lists.len() && c.item
                < board.lists[c.list].items.len(),
            Command::YankItem(c) => c.list < board.lists.len() && c.item
                < board.lists[c.list].items.len(),
            Command::CutItem(c) => c.list < board.lists.len() && c.item
                < board.lists[c.list].items.len(),
            Command::PasteItem(c) => c.list < board.lists.len() && c.item
                <= board.lists[c.list].items.len() && clipboard.is_some(),
        }
    }

    /// Whether `revert` may run against this board: every index it touches
    /// is in bounds. The history engine checks this before undoing an entry.
    pub fn rev_req_check(&self, board: &Board) -> (r: bool)
        ensures
            r == sp_rev_req(self@, Context { board: board@, clipboard: None }),
    {
        match self {
            Command::ChangeText(c) => c.list < board.lists.len() && c.item
                < board.lists[c.list].items.len(),
            Command::AddList(c) => c.list < board.lists.len(),
            Command::DeleteList(c) => c.list <= board.lists.len(),
            Command::AddItem(c) => c.list < board.lists.len() && c.item
                < board.lists[c.list].items.len(),
            Command::DeleteItem(c) => c.list < board.lists.len() && c.item
                <= board.lists[c.list].items.len(),
            Command::ShuffleList(c) => c.from_index < board.lists.len() && c.to_index
                < board.lists.len(),
            Command::ShuffleItem(c) => c.list < board.lists.len() && c.from_index
                < board.lists[c.list].items.len() && c.to_index
                < board.lists[c.list].items.len(),
            Command::MoveItem(c) => c.from_list < board.lists.len() && c.to_list
                < board.lists.len() && c.from_list != c.to_list && c.to_index
                < board.lists[c.to_list].items.len() && c.from_index
                <= board.lists[c.from_list].items.len(),
            Command::ToggleItem(c) => c.list < board.lists.len() && c.item
                < board.lists[c.list].items.len(),
            Command::YankItem(c) => true,
            Command::CutItem(c) => c.list < board.lists.len() && c.item
                <= board.lists[c.list].items.len(),
            Command::PasteItem(c) => c.list < board.lists.len() && c.item
                < board.lists[c.list].items.len(),
        }
    }

    /// Reverts this command on the board and clipboard: the exact inverse of
    /// [`Command::apply`] on the states the engine produces.
    pub fn revert(&self, board: &mut Board, clipboard: &mut Option<String>)
        requires
            sp_rev_req(self@, Context { board: old(board)@, clipboard: sp_clip(*old(clipboard)) }),
        ensures
            ({
                let r = sp_revert(
                    self@,
                    Context { board: old(board)@, clipboard: sp_clip(*old(clipboard)) },
                );
                &&& final(board)@ == r.board
                &&& sp_clip(*final(clipboard)) == r.clipboard
            }),
    {
        match self {
            Command::ChangeText(c) => {
                let list = &mut board.lists[c.list];
                let item = &mut list.items[c.item];
                item.text = c.old.clone();
                proof {
                    assert(board@ =~~= sp_text_set(old(board)@, c.list, c.item, c.old@));
                }
                c.bookmark.select(board);
            },
            Command::AddList(c) => {
                board.lists.remove(c.list);
                proof {
                    assert(board@ =~~= (BoardModel {
                        lists: old(board)@.lists.remove(c.list as int),
                        ..old(board)@
                    }));
                }
                c.bookmark.select(board);
            },
            Command::DeleteList(c) => {
                let mut restored = c.value.duplicate();
                let n = restored.items.len();
                restored.selected_item_index = match restored.selected_item_index {
                    Some(x) => if x < n {
                        Some(x)
                    } else {
                        None
                    },
                    None => None,
                };
                board.lists.insert(c.list, restored);
                proof {
                    assert(board@ =~~= (BoardModel {
                        lists: old(board)@.lists.insert(
                            c.list as int,
                            ListModel {
                                selected: sp_bounded_selection(
                                    c.value@.selected,
                                    c.value@.items.len(),
                                ),
                                ..c.value@
                            },
                        ),
                        ..old(board)@
                    }));
                }
                c.bookmark.select(board);
            },
            Command::AddItem(c) => {
                let list = &mut board.lists[c.list];
                list.items.remove(c.item);
                let n = list.items.len();
                list.selected_item_index = match list.selected_item_index {
                    Some(x) => if x < n {
                        Some(x)
                    } else {
                        None
                    },
                    None => None,
                };
                proof {
                    let b1 = sp_item_removed(old(board)@, c.list, c.item);
                    assert(board@ =~~= sp_selection_set(
                        b1,
                        c.list,
                        sp_bounded_selection(
                            b1.lists[c.list as int].selected,
                            b1.lists[c.list as int].items.len(),
                        ),
                    ));
                }
                c.bookmark.select_with_offset(board, -1);
            },
            Command::DeleteItem(c) => {
                let list = &mut board.lists[c.list];
                list.items.insert(c.item, c.value.duplicate());
                proof {
                    assert(board@ =~~= sp_item_inserted(old(board)@, c.list, c.item, c.value@));
                }
                c.bookmark.select(board);
            },
            Command::ShuffleList(c) => {
                crate::text::vec_swap(&mut board.lists, c.to_index, c.from_index);
                proof {
                    assert(board@ =~~= sp_lists_swapped(old(board)@, c.to_index, c.from_index));
                }
                c.bookmark.select(board);
            },
            Command::ShuffleItem(c) => {
                let list = &mut board.lists[c.list];
                crate::text::vec_swap(&mut list.items, c.to_index, c.from_index);
                proof {
                    assert(board@ =~~= sp_items_swapped(
                        old(board)@,
                        c.list,
                        c.to_index,
                        c.from_index,
                    ));
                }
                c.bookmark.select(board);
            },
            Command::MoveItem(c) => {
                let to = &mut board.lists[c.to_list];
                let moved = to.items.remove(c.to_index);
                let n = to.items.len();
                to.selected_item_index = match c.to_list_selection {
                    Some(x) => if x < n {
                        Some(x)
                    } else {
                        None
                    },
                    None => None,
                };
                let from = &mut board.lists[c.from_list];
                from.items.insert(c.from_index, moved);
                proof {
                    let s0 = Context { board: old(board)@, clipboard: sp_clip(*old(clipboard)) };
                    let b1 = sp_item_removed(old(board)@, c.to_list, c.to_index);
                    let b2 = sp_selection_set(
                        b1,
                        c.to_list,
                        sp_bounded_selection(
                            c.to_list_selection,
                            b1.lists[c.to_list as int].items.len(),
                        ),
                    );
                    assert(board@ =~~= sp_item_inserted(
                        b2,
                        c.from_list,
                        c.from_index,
                        old(board)@.lists[c.to_list as int].items[c.to_index as int],
                    ));
                }
                c.bookmark.select(board);
            },
            Command::ToggleItem(c) => {
                let list = &mut board.lists[c.list];
                let item = &mut list.items[c.item];
                item.toggle();
                proof {
                    assert(board@ =~~= sp_done_flipped(old(board)@, c.list, c.item));
                }
                c.bookmark.select(board);
            },
            Command::YankItem(c) => {
                *clipboard = match &c.last_clipboard {
                    Some(s) => Some(s.clone()),
                    None => None,
                };
            },
            Command::CutItem(c) => {
                let list = &mut board.lists[c.list];
                list.items.insert(c.item, c.value.duplicate());
                proof {
                    assert(board@ =~~= sp_item_inserted(old(board)@, c.list, c.item, c.value@));
                }
                c.bookmark.select(board);
                *clipboard = match &c.last_clipboard {
                    Some(s) => Some(s.clone()),
                    None => None,
                };
            },
            Command::PasteItem(c) => {
                let list = &mut board.lists[c.list];
                list.items.remove(c.item);
                let n = list.items.len();
                list.selected_item_index = match list.selected_item_index {
                    Some(x) => if x < n {
                        Some(x)
                    } else {
                        None
                    },
                    None => None,
                };
                proof {
                    let b1 = sp_item_removed(old(board)@, c.list, c.item);
                    assert(board@ =~~= sp_selection_set(
                        b1,
                        c.list,
                        sp_bounded_selection(
                            b1.lists[c.list as int].selected,
                            b1.lists[c.list as int].items.len(),
                        ),
                    ));
                }
                c.bookmark.select_with_offset(board, -1);
            },
        }
    }
}


/// Which edits a staged command accepts when editing settles: a changed
/// text, a non-empty list title, or a non-empty item.
pub open spec fn sp_finalize(c: CommandModel, b: BoardModel) -> (CommandModel, bool) {
    match c {
        CommandModel::ChangeText { list, item, old, new, bookmark } => {
            let captured = b.lists[list as int].items[item as int].text;
            (
                CommandModel::ChangeText { list, item, old, new: captured, bookmark },
                captured != old,
            )
        },
        CommandModel::AddList { list, title, bookmark } => {
            let captured = b.lists[list as int].name;
            (CommandModel::AddList { list, title: captured, bookmark }, captured.len() > 0)
        },
        CommandModel::AddItem { list, item, value, bookmark } => {
            let captured = b.lists[list as int].items[item as int];
            (
                CommandModel::AddItem { list, item, value: captured, bookmark },
                captured.text.len() > 0,
            )
        },
        _ => (c, false),
    }
}

/// Index bounds that finalizing needs.
pub open spec fn sp_finalize_req(c: CommandModel, b: BoardModel) -> bool {
    match c {
        CommandModel::ChangeText { list, item, .. } => list < b.lists.len() && item < b.lists[
            list as int
        ].items.len(),
        CommandModel::AddList { list, .. } => list < b.lists.len(),
        CommandModel::AddItem { list, item, .. } => list < b.lists.len() && item < b.lists[
            list as int
        ].items.len(),
        _ => true,
    }
}

/// A command whose final value comes from live text editing: the board is
/// mutated optimistically while the user types, and only when editing
/// settles does `finalize` read the result back and decide whether the edit
/// is committed or must be reverted on the spot.
pub enum StagedCommand {
    ChangeText(ChangeTextCommand),
    AddList(AddListCommand),
    AddItem(AddItemCommand),
}

impl View for StagedCommand {
    type V = CommandModel;

    open spec fn view(&self) -> CommandModel {
        match self {
            StagedCommand::ChangeText(c) => c@,
            StagedCommand::AddList(c) => c@,
            StagedCommand::AddItem(c) => c@,
        }
    }
}

impl StagedCommand {
    /// Captures the edited value from the board and reports whether it is
    /// worth committing: a changed text, a non-empty title, or a non-empty
    /// item. When this returns false the caller must revert the command at
    /// once instead of committing it.
    pub fn finalize(&mut self, board: &Board) -> (r: bool)
        requires
            sp_finalize_req(old(self)@, board@),
        ensures
            final(self)@ == sp_finalize(old(self)@, board@).0,
            r == sp_finalize(old(self)@, board@).1,
    {
        match self {
            StagedCommand::ChangeText(c) => {
                c.new = board.lists[c.list].items[c.item].text.clone();
                !(c.new == c.old)
            },
            StagedCommand::AddList(c) => {
                c.title = board.lists[c.list].name.clone();
                !c.title.as_str().is_empty()
            },
            StagedCommand::AddItem(c) => {
                c.value = board.lists[c.list].items[c.item].duplicate();
                !c.value.text.as_str().is_empty()
            },
        }
    }

    /// Whether `finalize` may run against this board: the staged target is
    /// still in bounds.
    pub fn finalize_req_check(&self, board: &Board) -> (r: bool)
        ensures
            r == sp_finalize_req(self@, board@),
    {
        match self {
            StagedCommand::ChangeText(c) => c.list < board.lists.len() && c.item
                < board.lists[c.list].items.len(),
            StagedCommand::AddList(c) => c.list < board.lists.len(),
            StagedCommand::AddItem(c) => c.list < board.lists.len() && c.item
                < board.lists[c.list].items.len(),
        }
    }

    /// The plain command that a settled staged edit becomes on the undo
    /// history.
    pub fn to_cmd(&self) -> (r: Command)
        ensures
            r@ == self@,
    {
        match self {
            StagedCommand::ChangeText(c) => Command::ChangeText(c.duplicate()),
            StagedCommand::AddList(c) => Command::AddList(c.duplicate()),
            StagedCommand::AddItem(c) => Command::AddItem(c.duplicate()),
        }
    }

    /// Reverts the speculative edit, exactly as the plain command would.
    pub fn revert(&self, board: &mut Board, clipboard: &mut Option<String>)
        requires
            sp_rev_req(self@, Context { board: old(board)@, clipboard: sp_clip(*old(clipboard)) }),
        ensures
            ({
                let r = sp_revert(
                    self@,
                    Context { board: old(board)@, clipboard: sp_clip(*old(clipboard)) },
                );
                &&& final(board)@ == r.board
                &&& sp_clip(*final(clipboard)) == r.clipboard
            }),
    {
        let cmd = self.to_cmd();
        cmd.revert(board, clipboard);
    }
}

} // verus!
