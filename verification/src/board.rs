//! A board: an ordered sequence of lists plus the index of the list that
//! currently has focus. Navigation clamps at the edges and never wraps.

use vstd::prelude::*;

use crate::commands::{
    AddItemCommand, AddListCommand, ChangeTextCommand, Command, CommandModel, Context,
    CutItemCommand, DeleteItemCommand, DeleteListCommand, MoveItemCommand, PasteItemCommand,
    SelectionBookmark, ShuffleItemCommand, ShuffleListCommand, StagedCommand, ToggleItemCommand,
    YankItemCommand, lemma_apply_wf, sp_apply, sp_valid_board,
};
use crate::input::{InputAction, KeyEvent, sp_edit};
use crate::list::{
    BoardItem, BoardList, ItemModel, ListModel, spec_select_next, spec_select_previous,
    spec_set_selection,
};

verus! {

/// Mathematical model of a [`Board`].
#[verifier::ext_equal]
pub struct BoardModel {
    pub lists: Seq<ListModel>,
    pub current: Option<usize>,
}

impl BoardModel {
    /// A board is well formed when the focused list, if any, is in bounds and
    /// every list is well formed.
    pub open spec fn wf(self) -> bool {
        &&& match self.current {
            Some(c) => c < self.lists.len(),
            None => true,
        }
        &&& forall|i: int| 0 <= i < self.lists.len() ==> (#[trigger] self.lists[i]).wf()
    }
}

/// Focus moved one item down within the focused list.
pub open spec fn spec_move_down(b: BoardModel) -> BoardModel {
    match b.current {
        Some(c) => BoardModel { lists: b.lists.update(c as int, spec_select_next(b.lists[c as int])), ..b },
        None => b,
    }
}

/// Focus moved one item up within the focused list.
pub open spec fn spec_move_up(b: BoardModel) -> BoardModel {
    match b.current {
        Some(c) => BoardModel {
            lists: b.lists.update(c as int, spec_select_previous(b.lists[c as int])),
            ..b
        },
        None => b,
    }
}

/// Focus moved to the next list; entering a list that has items but no
/// selection selects its first item. Without a focused list, the first list
/// gains focus (when one exists).
pub open spec fn spec_move_right(b: BoardModel) -> BoardModel {
    match b.current {
        Some(c) => if c + 1 < b.lists.len() {
            BoardModel {
                lists: b.lists.update(c + 1, spec_set_selection(b.lists[c + 1])),
                current: Some((c + 1) as usize),
            }
        } else {
            b
        },
        None => if b.lists.len() > 0 {
            BoardModel { current: Some(0), ..b }
        } else {
            b
        },
    }
}

/// Focus moved to the previous list, mirror of [`spec_move_right`].
pub open spec fn spec_move_left(b: BoardModel) -> BoardModel {
    match b.current {
        Some(c) => if c > 0 {
            BoardModel {
                lists: b.lists.update(c - 1, spec_set_selection(b.lists[c - 1])),
                current: Some((c - 1) as usize),
            }
        } else {
            b
        },
        None => if b.lists.len() > 0 {
            BoardModel { current: Some(0), ..b }
        } else {
            b
        },
    }
}

pub struct Board {
    pub lists: Vec<BoardList>,
    pub current_list: Option<usize>,
    /// Cursor state of the in-place text editor; not part of the model.
    pub input_controller: crate::input::InputController,
    /// Live search string shown while filtering; not part of the model.
    pub filter: String,
}

impl View for Board {
    type V = BoardModel;

    open spec fn view(&self) -> BoardModel {
        BoardModel {
            lists: self.lists@.map_values(|l: BoardList| l@),
            current: self.current_list,
        }
    }
}

impl Board {
    pub fn new() -> (r: Self)
        ensures
            r@ == (BoardModel { lists: Seq::empty(), current: None }),
            r@.wf(),
    {
        let r = Board {
            lists: Vec::new(),
            current_list: None,
            input_controller: crate::input::InputController::new(),
            filter: String::new(),
        };
        proof {
            assert(r@.lists =~= Seq::<ListModel>::empty());
        }
        r
    }

    pub fn number_of_lists(&self) -> (n: usize)
        ensures
            n == self@.lists.len(),
    {
        self.lists.len()
    }

    pub fn move_down(&mut self)
        requires
            old(self)@.wf(),
        ensures
            final(self)@ == spec_move_down(old(self)@),
            final(self)@.wf(),
    {
        if let Some(current) = self.current_list {
            let list = &mut self.lists[current];
            list.select_next();
        }
        proof {
            assert(final(self)@ =~= spec_move_down(old(self)@));
        }
    }

    pub fn move_up(&mut self)
        requires
            old(self)@.wf(),
        ensures
            final(self)@ == spec_move_up(old(self)@),
            final(self)@.wf(),
    {
        if let Some(current) = self.current_list {
            let list = &mut self.lists[current];
            list.select_previous();
        }
        proof {
            assert(final(self)@ =~= spec_move_up(old(self)@));
        }
    }

    pub fn move_right(&mut self)
        requires
            old(self)@.wf(),
        ensures
            final(self)@ == spec_move_right(old(self)@),
            final(self)@.wf(),
    {
        if let Some(current) = self.current_list {
            let n = self.lists.len();
            if current + 1 < n {
                self.current_list = Some(current + 1);
                let list = &mut self.lists[current + 1];
                list.set_selection();
            }
        } else if !self.lists.is_empty() {
            self.current_list = Some(0);
        }
        proof {
            assert(final(self)@ =~= spec_move_right(old(self)@));
        }
    }

    pub fn move_left(&mut self)
        requires
            old(self)@.wf(),
        ensures
            final(self)@ == spec_move_left(old(self)@),
            final(self)@.wf(),
    {
        if let Some(current) = self.current_list {
            if current > 0 {
                self.current_list = Some(current - 1);
                let list = &mut self.lists[current - 1];
                list.set_selection();
            }
        } else if !self.lists.is_empty() {
            self.current_list = Some(0);
        }
        proof {
            assert(final(self)@ =~= spec_move_left(old(self)@));
        }
    }

    /// Index of the selected item in the focused list, or 0 when the list has
    /// no selection.
    pub fn get_current_selection_index(&self) -> (r: usize)
        requires
            self@.wf(),
            self@.current is Some,
        ensures
            r == match self@.lists[self@.current->0 as int].selected {
                Some(i) => i,
                None => 0usize,
            },
    {
        match self.lists[self.current_list.unwrap()].selected_item_index {
            Some(i) => i,
            None => 0,
        }
    }

    pub fn current_list(&self) -> (r: Option<&BoardList>)
        requires
            self@.wf(),
        ensures
            match self@.current {
                Some(c) => r is Some && r->0@ == self@.lists[c as int],
                None => r is None,
            },
    {
        if let Some(current_list) = self.current_list {
            Some(&self.lists[current_list])
        } else {
            None
        }
    }

    /// Clears the selection of the focused list, if any; used before undo and
    /// redo so the restored bookmark is the only selection left.
    pub fn clear_current_selection(&mut self)
        requires
            old(self)@.wf(),
        ensures
            final(self)@ == match old(self)@.current {
                Some(c) => BoardModel {
                    lists: old(self)@.lists.update(
                        c as int,
                        ListModel { selected: None, ..old(self)@.lists[c as int] },
                    ),
                    ..old(self)@
                },
                None => old(self)@,
            },
            final(self)@.wf(),
    {
        if let Some(current) = self.current_list {
            let list = &mut self.lists[current];
            list.clear_selection();
        }
        proof {
            assert(final(self)@ =~= match old(self)@.current {
                Some(c) => BoardModel {
                    lists: old(self)@.lists.update(
                        c as int,
                        ListModel { selected: None, ..old(self)@.lists[c as int] },
                    ),
                    ..old(self)@
                },
                None => old(self)@,
            });
        }
    }

    /// A bookmark of the selection as it stands: the focused list and its
    /// selected item.
    pub fn bookmark_here(&self) -> (r: SelectionBookmark)
        requires
            self@.wf(),
        ensures
            r.list == self@.current,
            r.item == match self@.current {
                Some(c) => self@.lists[c as int].selected,
                None => None::<usize>,
            },
    {
        let item = match self.current_list {
            Some(c) => self.lists[c].selected_item_index,
            None => None,
        };
        SelectionBookmark { list: self.current_list, item }
    }

    /// A command that swaps the selected item with its upper neighbour, or
    /// nothing when no item is selected or it is already first.
    pub fn prioritize_selected_item(&self) -> (r: Option<Command>)
        requires
            self@.wf(),
        ensures
            match r {
                Some(cmd) => {
                    &&& self@.current is Some
                    &&& self@.lists[self@.current->0 as int].selected is Some
                    &&& self@.lists[self@.current->0 as int].selected->0 > 0
                    &&& cmd@ == (CommandModel::ShuffleItem {
                        list: self@.current->0,
                        from_index: self@.lists[self@.current->0 as int].selected->0,
                        to_index: (self@.lists[self@.current->0 as int].selected->0 - 1) as usize,
                        bookmark: SelectionBookmark {
                            list: self@.current,
                            item: self@.lists[self@.current->0 as int].selected,
                        },
                    })
                    &&& sp_valid_board(cmd@, self@)
                },
                None => !(self@.current is Some
                    && self@.lists[self@.current->0 as int].selected is Some
                    && self@.lists[self@.current->0 as int].selected->0 > 0),
            },
    {
        if let Some(current_list_index) = self.current_list {
            if let Some(selected_item_index) = self.lists[current_list_index].selected_item_index {
                if selected_item_index > 0 {
                    return Some(
                        Command::ShuffleItem(
                            ShuffleItemCommand {
                                list: current_list_index,
                                from_index: selected_item_index,
                                to_index: selected_item_index - 1,
                                bookmark: self.bookmark_here(),
                            },
                        ),
                    );
                }
            }
        }
        None
    }

    /// A command that swaps the selected item with its lower neighbour, or
    /// nothing when no item is selected or it is already last.
    pub fn deprioritize_selected_item(&self) -> (r: Option<Command>)
        requires
            self@.wf(),
        ensures
            match r {
                Some(cmd) => {
                    &&& self@.current is Some
                    &&& self@.lists[self@.current->0 as int].selected is Some
                    &&& self@.lists[self@.current->0 as int].selected->0 + 1 < self@.lists[
                        self@.current->0 as int
                    ].items.len()
                    &&& cmd@ == (CommandModel::ShuffleItem {
                        list: self@.current->0,
                        from_index: self@.lists[self@.current->0 as int].selected->0,
                        to_index: (self@.lists[self@.current->0 as int].selected->0 + 1) as usize,
                        bookmark: SelectionBookmark {
                            list: self@.current,
                            item: self@.lists[self@.current->0 as int].selected,
                        },
                    })
                    &&& sp_valid_board(cmd@, self@)
                },
                None => !(self@.current is Some
                    && self@.lists[self@.current->0 as int].selected is Some
                    && self@.lists[self@.current->0 as int].selected->0 + 1 < self@.lists[
                        self@.current->0 as int
                    ].items.len()),
            },
    {
        if let Some(current_list_index) = self.current_list {
            if let Some(selected_item_index) = self.lists[current_list_index].selected_item_index {
                let n = self.lists[current_list_index].items.len();
                if selected_item_index + 1 < n {
                    return Some(
                        Command::ShuffleItem(
                            ShuffleItemCommand {
                                list: current_list_index,
                                from_index: selected_item_index,
                                to_index: selected_item_index + 1,
                                bookmark: self.bookmark_here(),
                            },
                        ),
                    );
                }
            }
        }
        None
    }

    /// A command that moves the selected item into the previous list at
    /// `index`, or nothing when there is no previous list or no selection.
    pub fn move_to_prev_list(&self, index: usize) -> (r: Option<Command>)
        requires
            self@.wf(),
        ensures
            match r {
                Some(cmd) => {
                    &&& self@.current is Some
                    &&& self@.current->0 > 0
                    &&& self@.lists[self@.current->0 as int].selected is Some
                    &&& cmd@ == (CommandModel::MoveItem {
                        from_list: self@.current->0,
                        from_index: self@.lists[self@.current->0 as int].selected->0,
                        to_list: (self@.current->0 - 1) as usize,
                        to_index: index,
                        to_list_selection: self@.lists[self@.current->0 - 1].selected,
                        bookmark: SelectionBookmark {
                            list: self@.current,
                            item: self@.lists[self@.current->0 as int].selected,
                        },
                    })
                    &&& sp_valid_board(cmd@, self@)
                },
                None => !(self@.current is Some && self@.current->0 > 0 && self@.lists[
                    self@.current->0 as int
                ].selected is Some),
            },
    {
        if let Some(current_list_index) = self.current_list {
            if current_list_index > 0 {
                if let Some(selected_item_index) =
                    self.lists[current_list_index].selected_item_index {
                    return Some(
                        Command::MoveItem(
                            MoveItemCommand {
                                from_list: current_list_index,
                                from_index: selected_item_index,
                                to_list: current_list_index - 1,
                                to_index: index,
                                to_list_selection:
                                    self.lists[current_list_index - 1].selected_item_index,
                                bookmark: self.bookmark_here(),
                            },
                        ),
                    );
                }
            }
        }
        None
    }

    /// A command that moves the selected item into the next list at
    /// `target_index`, or nothing when there is no next list or no selection.
    pub fn move_to_next_list(&self, target_index: usize) -> (r: Option<Command>)
        requires
            self@.wf(),
        ensures
            match r {
                Some(cmd) => {
                    &&& self@.current is Some
                    &&& self@.current->0 + 1 < self@.lists.len()
                    &&& self@.lists[self@.current->0 as int].selected is Some
                    &&& cmd@ == (CommandModel::MoveItem {
                        from_list: self@.current->0,
                        from_index: self@.lists[self@.current->0 as int].selected->0,
                        to_list: (self@.current->0 + 1) as usize,
                        to_index: target_index,
                        to_list_selection: self@.lists[self@.current->0 + 1].selected,
                        bookmark: SelectionBookmark {
                            list: self@.current,
                            item: self@.lists[self@.current->0 as int].selected,
                        },
                    })
                    &&& sp_valid_board(cmd@, self@)
                },
                None => !(self@.current is Some && self@.current->0 + 1 < self@.lists.len()
                    && self@.lists[self@.current->0 as int].selected is Some),
            },
    {
        if let Some(current_list_index) = self.current_list {
            let n = self.lists.len();
            if current_list_index + 1 < n {
                if let Some(selected_item_index) =
                    self.lists[current_list_index].selected_item_index {
                    return Some(
                        Command::MoveItem(
                            MoveItemCommand {
                                from_list: current_list_index,
                                from_index: selected_item_index,
                                to_list: current_list_index + 1,
                                to_index: target_index,
                                to_list_selection:
                                    self.lists[current_list_index + 1].selected_item_index,
                                bookmark: self.bookmark_here(),
                            },
                        ),
                    );
                }
            }
        }
        None
    }

    /// Inserts a fresh empty item right after the selection (or first) and
    /// selects it, returning the staged command that editing will finish;
    /// nothing happens without a focused list.
    pub fn insert_item_to_current_list(&mut self) -> (r: Option<StagedCommand>)
        requires
            old(self)@.wf(),
        ensures
            match r {
                Some(cmd) => {
                    &&& old(self)@.current is Some
                    &&& cmd@ == (CommandModel::AddItem {
                        list: old(self)@.current->0,
                        item: match old(self)@.lists[old(self)@.current->0 as int].selected {
                            Some(i) => (i + 1) as usize,
                            None => 0usize,
                        },
                        value: ItemModel { text: Seq::empty(), done: false, child: None },
                        bookmark: SelectionBookmark {
                            list: old(self)@.current,
                            item: Some(
                                match old(self)@.lists[old(self)@.current->0 as int].selected {
                                    Some(i) => (i + 1) as usize,
                                    None => 0usize,
                                },
                            ),
                        },
                    })
                    &&& sp_valid_board(cmd@, old(self)@)
                    &&& final(self)@ == sp_apply(
                        cmd@,
                        Context { board: old(self)@, clipboard: None },
                    ).1.board
                    &&& final(self)@.wf()
                },
                None => old(self)@.current is None && final(self)@ == old(self)@,
            },
    {
        if let Some(current_list) = self.current_list {
            let list = &mut self.lists[current_list];
            let n = list.items.len();
            let pos = match list.selected_item_index {
                Some(index) => index + 1,
                None => 0,
            };
            let fresh = BoardItem::new("");
            proof {
                reveal_strlit("");
                assert(fresh@.text =~= Seq::<char>::empty());
            }
            list.items.insert(pos, fresh);
            list.selected_item_index = Some(pos);
            let cmd = AddItemCommand {
                list: current_list,
                item: pos,
                value: BoardItem::new(""),
                bookmark: SelectionBookmark { list: Some(current_list), item: Some(pos) },
            };
            proof {
                reveal_strlit("");
                assert(cmd@ matches CommandModel::AddItem { value, .. } && value.text
                    =~= Seq::<char>::empty());
                assert(self@ =~~= sp_apply(
                    cmd@,
                    Context { board: old(self)@, clipboard: None },
                ).1.board);
                lemma_apply_wf(cmd@, Context { board: old(self)@, clipboard: None });
            }
            Some(StagedCommand::AddItem(cmd))
        } else {
            None
        }
    }

    /// A command that deletes the selected item, or nothing when no item is
    /// selected.
    pub fn delete_selected_item(&self) -> (r: Option<Command>)
        requires
            self@.wf(),
        ensures
            match r {
                Some(cmd) => {
                    &&& self@.current is Some
                    &&& self@.lists[self@.current->0 as int].selected is Some
                    &&& cmd@ == (CommandModel::DeleteItem {
                        list: self@.current->0,
                        item: self@.lists[self@.current->0 as int].selected->0,
                        value: ItemModel { text: Seq::empty(), done: false, child: None },
                        bookmark: SelectionBookmark {
                            list: self@.current,
                            item: self@.lists[self@.current->0 as int].selected,
                        },
                    })
                    &&& sp_valid_board(cmd@, self@)
                },
                None => !(self@.current is Some && self@.lists[
                    self@.current->0 as int
                ].selected is Some),
            },
    {
        if let Some(current_list) = self.current_list {
            if let Some(pos) = self.lists[current_list].selected_item_index {
                let cmd = Command::DeleteItem(
                    DeleteItemCommand {
                        list: current_list,
                        item: pos,
                        value: BoardItem::new(""),
                        bookmark: self.bookmark_here(),
                    },
                );
                proof {
                    reveal_strlit("");
                    assert(cmd@ matches CommandModel::DeleteItem { value, .. } && value.text
                        =~= Seq::<char>::empty());
                }
                return Some(cmd);
            }
        }
        None
    }

    /// Inserts a fresh unnamed list right after the focused one (or at the
    /// end) and focuses it, returning the staged command that title editing
    /// will finish.
    pub fn insert_list_to_board(&mut self) -> (r: Option<StagedCommand>)
        requires
            old(self)@.wf(),
        ensures
            match r {
                Some(cmd) => {
                    &&& cmd@ == (CommandModel::AddList {
                        list: match old(self)@.current {
                            Some(c) => (c + 1) as usize,
                            None => old(self)@.lists.len() as usize,
                        },
                        title: Seq::empty(),
                        bookmark: SelectionBookmark {
                            list: old(self)@.current,
                            item: match old(self)@.current {
                                Some(c) => old(self)@.lists[c as int].selected,
                                None => None::<usize>,
                            },
                        },
                    })
                    &&& sp_valid_board(cmd@, old(self)@)
                    &&& final(self)@ == sp_apply(
                        cmd@,
                        Context { board: old(self)@, clipboard: None },
                    ).1.board
                    &&& final(self)@.wf()
                },
                None => false,
            },
    {
        let bookmark = self.bookmark_here();
        let n = self.lists.len();
        let pos = match self.current_list {
            Some(current_list) => current_list + 1,
            None => n,
        };
        self.lists.insert(pos, BoardList::new(""));
        self.current_list = Some(pos);
        let cmd = AddListCommand { list: pos, title: String::new(), bookmark };
        proof {
            reveal_strlit("");
            assert(cmd@ matches CommandModel::AddList { title, .. } && title
                =~= Seq::<char>::empty());
            assert(self@ =~~= sp_apply(
                cmd@,
                Context { board: old(self)@, clipboard: None },
            ).1.board);
            lemma_apply_wf(cmd@, Context { board: old(self)@, clipboard: None });
        }
        Some(StagedCommand::AddList(cmd))
    }

    /// A command that deletes the focused list, or nothing when no list has
    /// focus.
    pub fn delete_selected_list(&self) -> (r: Option<Command>)
        requires
            self@.wf(),
        ensures
            match r {
                Some(cmd) => {
                    &&& self@.current is Some
                    &&& cmd@ == (CommandModel::DeleteList {
                        list: self@.current->0,
                        value: ListModel { name: Seq::empty(), items: Seq::empty(), selected: None },
                        bookmark: SelectionBookmark {
                            list: self@.current,
                            item: self@.lists[self@.current->0 as int].selected,
                        },
                    })
                    &&& sp_valid_board(cmd@, self@)
                },
                None => self@.current is None,
            },
    {
        if let Some(current_list) = self.current_list {
            let cmd = Command::DeleteList(
                DeleteListCommand {
                    list: current_list,
                    value: BoardList::new(""),
                    bookmark: self.bookmark_here(),
                },
            );
            proof {
                reveal_strlit("");
                assert(cmd@ matches CommandModel::DeleteList { value, .. } && value.name
                    =~= Seq::<char>::empty() && value.items =~= Seq::<ItemModel>::empty());
            }
            Some(cmd)
        } else {
            None
        }
    }

    /// A command that swaps the focused list with the one before it, or
    /// nothing when it is already first or no list has focus.
    pub fn shuffle_list_forward(&self) -> (r: Option<Command>)
        requires
            self@.wf(),
        ensures
            match r {
                Some(cmd) => {
                    &&& self@.current is Some
                    &&& self@.current->0 > 0
                    &&& cmd@ == (CommandModel::ShuffleList {
                        from_index: self@.current->0,
                        to_index: (self@.current->0 - 1) as usize,
                        bookmark: SelectionBookmark {
                            list: self@.current,
                            item: self@.lists[self@.current->0 as int].selected,
                        },
                    })
                    &&& sp_valid_board(cmd@, self@)
                },
                None => !(self@.current is Some && self@.current->0 > 0),
            },
    {
        if let Some(current_list) = self.current_list {
            if current_list > 0 {
                return Some(
                    Command::ShuffleList(
                        ShuffleListCommand {
                            from_index: current_list,
                            to_index: current_list - 1,
                            bookmark: self.bookmark_here(),
                        },
                    ),
                );
            }
        }
        None
    }

    /// A command that swaps the focused list with the one after it, or
    /// nothing when it is already last or no list has focus.
    pub fn shuffle_list_back(&self) -> (r: Option<Command>)
        requires
            self@.wf(),
        ensures
            match r {
                Some(cmd) => {
                    &&& self@.current is Some
                    &&& self@.current->0 + 1 < self@.lists.len()
                    &&& cmd@ == (CommandModel::ShuffleList {
                        from_index: self@.current->0,
                        to_index: (self@.current->0 + 1) as usize,
                        bookmark: SelectionBookmark {
                            list: self@.current,
                            item: self@.lists[self@.current->0 as int].selected,
                        },
                    })
                    &&& sp_valid_board(cmd@, self@)
                },
                None => !(self@.current is Some && self@.current->0 + 1 < self@.lists.len()),
            },
    {
        if let Some(current_list) = self.current_list {
            let n = self.lists.len();
            if current_list + 1 < n {
                return Some(
                    Command::ShuffleList(
                        ShuffleListCommand {
                            from_index: current_list,
                            to_index: current_list + 1,
                            bookmark: self.bookmark_here(),
                        },
                    ),
                );
            }
        }
        None
    }

    /// A staged command that edits the selected item's text in place, seeded
    /// with the text as it stands; or nothing when no item is selected.
    pub fn edit_current_item(&self) -> (r: Option<StagedCommand>)
        requires
            self@.wf(),
        ensures
            match r {
                Some(cmd) => {
                    &&& self@.current is Some
                    &&& self@.lists[self@.current->0 as int].selected is Some
                    &&& cmd@ == (CommandModel::ChangeText {
                        list: self@.current->0,
                        item: self@.lists[self@.current->0 as int].selected->0,
                        old: self@.lists[self@.current->0 as int].items[
                            self@.lists[self@.current->0 as int].selected->0 as int
                        ].text,
                        new: self@.lists[self@.current->0 as int].items[
                            self@.lists[self@.current->0 as int].selected->0 as int
                        ].text,
                        bookmark: SelectionBookmark {
                            list: self@.current,
                            item: self@.lists[self@.current->0 as int].selected,
                        },
                    })
                    &&& sp_valid_board(cmd@, self@)
                },
                None => !(self@.current is Some && self@.lists[
                    self@.current->0 as int
                ].selected is Some),
            },
    {
        if let Some(list) = self.current_list {
            if let Some(item) = self.lists[list].selected_item_index {
                let text = self.lists[list].items[item].text.clone();
                return Some(
                    StagedCommand::ChangeText(
                        ChangeTextCommand {
                            list,
                            item,
                            old: text.clone(),
                            new: text,
                            bookmark: self.bookmark_here(),
                        },
                    ),
                );
            }
        }
        None
    }

    /// A command that toggles the selected item's done flag, or nothing when
    /// no item is selected.
    pub fn toggle_selected_item(&self) -> (r: Option<Command>)
        requires
            self@.wf(),
        ensures
            match r {
                Some(cmd) => {
                    &&& self@.current is Some
                    &&& self@.lists[self@.current->0 as int].selected is Some
                    &&& cmd@ == (CommandModel::ToggleItem {
                        list: self@.current->0,
                        item: self@.lists[self@.current->0 as int].selected->0,
                        bookmark: SelectionBookmark {
                            list: self@.current,
                            item: self@.lists[self@.current->0 as int].selected,
                        },
                    })
                    &&& sp_valid_board(cmd@, self@)
                },
                None => !(self@.current is Some && self@.lists[
                    self@.current->0 as int
                ].selected is Some),
            },
    {
        if let Some(list) = self.current_list {
            if let Some(item) = self.lists[list].selected_item_index {
                return Some(
                    Command::ToggleItem(
                        ToggleItemCommand { list, item, bookmark: self.bookmark_here() },
                    ),
                );
            }
        }
        None
    }

    /// A command that cuts the selected item onto the clipboard, or nothing
    /// when no item is selected.
    pub fn cut_selected_item(&self) -> (r: Option<Command>)
        requires
            self@.wf(),
        ensures
            match r {
                Some(cmd) => {
                    &&& self@.current is Some
                    &&& self@.lists[self@.current->0 as int].selected is Some
                    &&& cmd@ == (CommandModel::CutItem {
                        list: self@.current->0,
                        item: self@.lists[self@.current->0 as int].selected->0,
                        value: ItemModel { text: Seq::empty(), done: false, child: None },
                        bookmark: SelectionBookmark {
                            list: self@.current,
                            item: self@.lists[self@.current->0 as int].selected,
                        },
                        last_clipboard: None,
                    })
                    &&& sp_valid_board(cmd@, self@)
                },
                None => !(self@.current is Some && self@.lists[
                    self@.current->0 as int
                ].selected is Some),
            },
    {
        if let Some(list) = self.current_list {
            if let Some(item) = self.lists[list].selected_item_index {
                let cmd = Command::CutItem(
                    CutItemCommand {
                        list,
                        item,
                        value: BoardItem::new(""),
                        bookmark: self.bookmark_here(),
                        last_clipboard: None,
                    },
                );
                proof {
                    reveal_strlit("");
                    assert(cmd@ matches CommandModel::CutItem { value, .. } && value.text
                        =~= Seq::<char>::empty());
                }
                return Some(cmd);
            }
        }
        None
    }

    /// A command that copies the selected item's text onto the clipboard, or
    /// nothing when no item is selected.
    pub fn yank_selected_item(&self) -> (r: Option<Command>)
        requires
            self@.wf(),
        ensures
            match r {
                Some(cmd) => {
                    &&& self@.current is Some
                    &&& self@.lists[self@.current->0 as int].selected is Some
                    &&& cmd@ == (CommandModel::YankItem {
                        list: self@.current->0,
                        item: self@.lists[self@.current->0 as int].selected->0,
                        value: ItemModel { text: Seq::empty(), done: false, child: None },
                        last_clipboard: None,
                    })
                    &&& sp_valid_board(cmd@, self@)
                },
                None => !(self@.current is Some && self@.lists[
                    self@.current->0 as int
                ].selected is Some),
            },
    {
        if let Some(list) = self.current_list {
            if let Some(item) = self.lists[list].selected_item_index {
                let cmd = Command::YankItem(
                    YankItemCommand {
                        list,
                        item,
                        value: BoardItem::new(""),
                        last_clipboard: None,
                    },
                );
                proof {
                    reveal_strlit("");
                    assert(cmd@ matches CommandModel::YankItem { value, .. } && value.text
                        =~= Seq::<char>::empty());
                }
                return Some(cmd);
            }
        }
        None
    }

    /// A command that pastes the clipboard as a new item right after the
    /// selection (or first), or nothing without a focused list. The caller
    /// checks that the clipboard holds something before applying it.
    pub fn paste_item(&self) -> (r: Option<Command>)
        requires
            self@.wf(),
        ensures
            match r {
                Some(cmd) => {
                    &&& self@.current is Some
                    &&& cmd@ == (CommandModel::PasteItem {
                        list: self@.current->0,
                        item: match self@.lists[self@.current->0 as int].selected {
                            Some(i) => (i + 1) as usize,
                            None => 0usize,
                        },
                        bookmark: SelectionBookmark {
                            list: self@.current,
                            item: Some(
                                match self@.lists[self@.current->0 as int].selected {
                                    Some(i) => (i + 1) as usize,
                                    None => 0usize,
                                },
                            ),
                        },
                    })
                    &&& sp_valid_board(cmd@, self@)
                },
                None => self@.current is None,
            },
    {
        if let Some(list) = self.current_list {
            let n = self.lists[list].items.len();
            let pos = match self.lists[list].selected_item_index {
                Some(index) => index + 1,
                None => 0,
            };
            Some(
                Command::PasteItem(
                    PasteItemCommand {
                        list,
                        item: pos,
                        bookmark: SelectionBookmark { list: Some(list), item: Some(pos) },
                    },
                ),
            )
        } else {
            None
        }
    }

    /// Text of the selected item, as it stands.
    pub fn current_raw_item_text(&self) -> (r: &String)
        requires
            self@.wf(),
            self@.current is Some,
            self@.lists[self@.current->0 as int].selected is Some,
        ensures
            r@ == self@.lists[self@.current->0 as int].items[
                self@.lists[self@.current->0 as int].selected->0 as int
            ].text,
    {
        let list = self.current_list.unwrap();
        let item = self.lists[list].selected_item_index.unwrap();
        &self.lists[list].items[item].text
    }

    /// Feeds one key of title editing to the focused list.
    pub fn process_input_for_title(&mut self, key: KeyEvent) -> (r: InputAction)
        requires
            old(self)@.wf(),
            old(self)@.current is Some,
        ensures
            ({
                let c = old(self)@.current->0;
                let o = sp_edit(
                    old(self)@.lists[c as int].name,
                    old(self).input_controller.character_index as int,
                    key,
                );
                &&& final(self)@ == (BoardModel {
                    lists: old(self)@.lists.update(
                        c as int,
                        ListModel { name: o.text, ..old(self)@.lists[c as int] },
                    ),
                    ..old(self)@
                })
                &&& final(self).input_controller.character_index == o.cursor
                &&& r == o.action
                &&& final(self)@.wf()
            }),
    {
        let current = self.current_list.unwrap();
        let list = &mut self.lists[current];
        let r = self.input_controller.input(list, key);
        proof {
            let c = old(self)@.current->0;
            let o = sp_edit(
                old(self)@.lists[c as int].name,
                old(self).input_controller.character_index as int,
                key,
            );
            assert(self@ =~~= (BoardModel {
                lists: old(self)@.lists.update(
                    c as int,
                    ListModel { name: o.text, ..old(self)@.lists[c as int] },
                ),
                ..old(self)@
            }));
        }
        r
    }

    /// Feeds one key of item editing to the selected item.
    pub fn process_input_for_item(&mut self, key: KeyEvent) -> (r: InputAction)
        requires
            old(self)@.wf(),
            old(self)@.current is Some,
            old(self)@.lists[old(self)@.current->0 as int].selected is Some,
        ensures
            ({
                let c = old(self)@.current->0;
                let i = old(self)@.lists[c as int].selected->0;
                let o = sp_edit(
                    old(self)@.lists[c as int].items[i as int].text,
                    old(self).input_controller.character_index as int,
                    key,
                );
                &&& final(self)@ == (BoardModel {
                    lists: old(self)@.lists.update(
                        c as int,
                        ListModel {
                            items: old(self)@.lists[c as int].items.update(
                                i as int,
                                ItemModel {
                                    text: o.text,
                                    ..old(self)@.lists[c as int].items[i as int]
                                },
                            ),
                            ..old(self)@.lists[c as int]
                        },
                    ),
                    ..old(self)@
                })
                &&& final(self).input_controller.character_index == o.cursor
                &&& r == o.action
                &&& final(self)@.wf()
            }),
    {
        let current = self.current_list.unwrap();
        let item_index = self.lists[current].selected_item_index.unwrap();
        let list = &mut self.lists[current];
        let item = &mut list.items[item_index];
        let r = self.input_controller.input(item, key);
        proof {
            let c = old(self)@.current->0;
            let i = old(self)@.lists[c as int].selected->0;
            let o = sp_edit(
                old(self)@.lists[c as int].items[i as int].text,
                old(self).input_controller.character_index as int,
                key,
            );
            assert(self@ =~~= (BoardModel {
                lists: old(self)@.lists.update(
                    c as int,
                    ListModel {
                        items: old(self)@.lists[c as int].items.update(
                            i as int,
                            ItemModel {
                                text: o.text,
                                ..old(self)@.lists[c as int].items[i as int]
                            },
                        ),
                        ..old(self)@.lists[c as int]
                    },
                ),
                ..old(self)@
            }));
        }
        r
    }
}

} // verus!
