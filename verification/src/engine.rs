//! The session engine: the board forest, the navigation path into it, and
//! the undo/redo histories.
//!
//! Boards live in one flat table and refer to each other by index, so the
//! forest never owns itself recursively. Every committed command is pushed
//! onto the undo history tagged with the board it ran on; undoing pops an
//! entry, reverts it on that board (navigating there when it is not the one
//! on screen), and moves the entry to the redo history. Boards are only ever
//! added to the table, never removed, so history entries can always name
//! their board.

use vstd::prelude::*;

use std::collections::VecDeque;

use crate::board::{Board, BoardModel};
use crate::commands::{
    Command, CommandModel, Context, StagedCommand, lemma_apply_wf, lemma_revert_wf,
    lemma_valid_implies_req, sp_apply, sp_apply_req, sp_clip, sp_finalize, sp_finalize_req,
    sp_rev_req, sp_revert, sp_valid,
};
use crate::list::{ItemModel, ListModel};

verus! {

/// What kind of input the session is waiting for.
#[derive(PartialEq, Eq, Structural)]
pub enum InputMode {
    Normal,
    EditTitle,
    EditItem,
    Search,
    Help,
}

/// One step of the navigation path: the board being viewed and the item it
/// was entered through.
#[derive(Clone, Copy)]
pub struct BoardReference {
    pub board: usize,
    pub source_board: usize,
    pub source_list: Option<usize>,
    pub source_item: Option<usize>,
}

/// A history entry: a command tagged with the board it ran on.
pub struct BoardCommand {
    pub board_index: usize,
    pub command: Command,
}

impl BoardCommand {
    pub fn new(board_index: usize, command: Command) -> (r: Self)
        ensures
            r.board_index == board_index,
            r.command == command,
    {
        Self { board_index, command }
    }
}

/// Mathematical model of the whole session.
#[verifier::ext_equal]
pub struct EngineModel {
    pub boards: Seq<BoardModel>,
    pub path: Seq<BoardReference>,
    pub undo: Seq<(usize, CommandModel)>,
    pub redo: Seq<(usize, CommandModel)>,
    pub staged: Option<CommandModel>,
    pub clipboard: Option<Seq<char>>,
}

/// The board currently on screen: the top of the navigation path, or the
/// root board.
pub open spec fn sp_active(m: EngineModel) -> usize {
    if m.path.len() > 0 {
        m.path[0].board
    } else {
        0
    }
}

/// A session is well formed when there is a root board, every board is well
/// formed, and every path or history entry names a board in the table.
pub open spec fn sp_engine_wf(m: EngineModel) -> bool {
    &&& m.boards.len() >= 1
    &&& forall|i: int| 0 <= i < m.boards.len() ==> (#[trigger] m.boards[i]).wf()
    &&& forall|i: int|
        0 <= i < m.path.len() ==> (#[trigger] m.path[i]).board < m.boards.len() && m.path[
            i
        ].source_board < m.boards.len()
    &&& forall|i: int| 0 <= i < m.undo.len() ==> (#[trigger] m.undo[i]).0 < m.boards.len()
    &&& forall|i: int| 0 <= i < m.redo.len() ==> (#[trigger] m.redo[i]).0 < m.boards.len()
}

/// The active board with the selection of its focused list cleared, as undo
/// and redo do before restoring a bookmark.
pub open spec fn sp_cleared_active(m: EngineModel) -> Seq<BoardModel> {
    let a = sp_active(m);
    let b = m.boards[a as int];
    match b.current {
        Some(c) => m.boards.update(
            a as int,
            BoardModel {
                lists: b.lists.update(
                    c as int,
                    ListModel { selected: None, ..b.lists[c as int] },
                ),
                ..b
            },
        ),
        None => m.boards,
    }
}

/// Committing a fresh command: apply it to the active board, push it onto
/// the undo history, and clear the redo history.
pub open spec fn sp_commit(m: EngineModel, c: CommandModel) -> EngineModel {
    let a = sp_active(m);
    let r = sp_apply(c, Context { board: m.boards[a as int], clipboard: m.clipboard });
    EngineModel {
        boards: m.boards.update(a as int, r.1.board),
        clipboard: r.1.clipboard,
        undo: m.undo.insert(0, (a, r.0)),
        redo: Seq::empty(),
        ..m
    }
}

/// The path after landing on board `idx` for an undo or redo: a navigation
/// step is recorded when the entry's board is not the one on screen.
pub open spec fn sp_landing_path(m: EngineModel, idx: usize) -> Seq<BoardReference> {
    if idx != sp_active(m) {
        m.path.insert(
            0,
            BoardReference {
                board: idx,
                source_board: sp_active(m),
                source_list: None,
                source_item: None,
            },
        )
    } else {
        m.path
    }
}

/// Undoing the newest history entry: clear the on-screen selection, land on
/// the entry's board, revert it there, and move the entry to the redo
/// history.
pub open spec fn sp_undo(m: EngineModel) -> EngineModel {
    let (idx, c) = m.undo[0];
    let boards1 = sp_cleared_active(m);
    let t = sp_revert(c, Context { board: boards1[idx as int], clipboard: m.clipboard });
    EngineModel {
        boards: boards1.update(idx as int, t.board),
        path: sp_landing_path(m, idx),
        undo: m.undo.drop_first(),
        redo: m.redo.insert(0, (idx, c)),
        clipboard: t.clipboard,
        staged: m.staged,
    }
}

/// Redoing the newest undone entry: the mirror image of [`sp_undo`].
pub open spec fn sp_redo(m: EngineModel) -> EngineModel {
    let (idx, c) = m.redo[0];
    let boards1 = sp_cleared_active(m);
    let r = sp_apply(c, Context { board: boards1[idx as int], clipboard: m.clipboard });
    EngineModel {
        boards: boards1.update(idx as int, r.1.board),
        path: sp_landing_path(m, idx),
        undo: m.undo.insert(0, (idx, r.0)),
        redo: m.redo.drop_first(),
        clipboard: r.1.clipboard,
        staged: m.staged,
    }
}

// What each user intent builds from a board, if anything: the spec-level
// mirror of the board's command constructors.
/// The command that prioritizing the selected item builds.
pub open spec fn sp_prioritize_cmd(b: BoardModel) -> Option<CommandModel> {
    match b.current {
        Some(c) => match b.lists[c as int].selected {
            Some(i) => if i > 0 {
                Some(
                    CommandModel::ShuffleItem {
                        list: c,
                        from_index: i,
                        to_index: (i - 1) as usize,
                        bookmark: crate::commands::SelectionBookmark {
                            list: Some(c),
                            item: Some(i),
                        },
                    },
                )
            } else {
                None
            },
            None => None,
        },
        None => None,
    }
}

/// The command that deprioritizing the selected item builds.
pub open spec fn sp_deprioritize_cmd(b: BoardModel) -> Option<CommandModel> {
    match b.current {
        Some(c) => match b.lists[c as int].selected {
            Some(i) => if i + 1 < b.lists[c as int].items.len() {
                Some(
                    CommandModel::ShuffleItem {
                        list: c,
                        from_index: i,
                        to_index: (i + 1) as usize,
                        bookmark: crate::commands::SelectionBookmark {
                            list: Some(c),
                            item: Some(i),
                        },
                    },
                )
            } else {
                None
            },
            None => None,
        },
        None => None,
    }
}

/// The command that moving the selected item to the previous list builds;
/// the target row is the selected row itself.
pub open spec fn sp_move_prev_cmd(b: BoardModel) -> Option<CommandModel> {
    match b.current {
        Some(c) => if c > 0 {
            match b.lists[c as int].selected {
                Some(i) => Some(
                    CommandModel::MoveItem {
                        from_list: c,
                        from_index: i,
                        to_list: (c - 1) as usize,
                        to_index: i,
                        to_list_selection: b.lists[c - 1].selected,
                        bookmark: crate::commands::SelectionBookmark {
                            list: Some(c),
                            item: Some(i),
                        },
                    },
                ),
                None => None,
            }
        } else {
            None
        },
        None => None,
    }
}

/// The command that moving the selected item to the next list builds.
pub open spec fn sp_move_next_cmd(b: BoardModel) -> Option<CommandModel> {
    match b.current {
        Some(c) => if c + 1 < b.lists.len() {
            match b.lists[c as int].selected {
                Some(i) => Some(
                    CommandModel::MoveItem {
                        from_list: c,
                        from_index: i,
                        to_list: (c + 1) as usize,
                        to_index: i,
                        to_list_selection: b.lists[c + 1].selected,
                        bookmark: crate::commands::SelectionBookmark {
                            list: Some(c),
                            item: Some(i),
                        },
                    },
                ),
                None => None,
            }
        } else {
            None
        },
        None => None,
    }
}

/// The command that deleting the selected item builds (its value is
/// captured when it is applied).
pub open spec fn sp_delete_item_cmd(b: BoardModel) -> Option<CommandModel> {
    match b.current {
        Some(c) => match b.lists[c as int].selected {
            Some(i) => Some(
                CommandModel::DeleteItem {
                    list: c,
                    item: i,
                    value: ItemModel { text: Seq::empty(), done: false, child: None },
                    bookmark: crate::commands::SelectionBookmark { list: Some(c), item: Some(i) },
                },
            ),
            None => None,
        },
        None => None,
    }
}

/// The command that deleting the focused list builds.
pub open spec fn sp_delete_list_cmd(b: BoardModel) -> Option<CommandModel> {
    match b.current {
        Some(c) => Some(
            CommandModel::DeleteList {
                list: c,
                value: ListModel { name: Seq::empty(), items: Seq::empty(), selected: None },
                bookmark: crate::commands::SelectionBookmark {
                    list: Some(c),
                    item: b.lists[c as int].selected,
                },
            },
        ),
        None => None,
    }
}

/// The command that shuffling the focused list forward builds.
pub open spec fn sp_shuffle_fwd_cmd(b: BoardModel) -> Option<CommandModel> {
    match b.current {
        Some(c) => if c > 0 {
            Some(
                CommandModel::ShuffleList {
                    from_index: c,
                    to_index: (c - 1) as usize,
                    bookmark: crate::commands::SelectionBookmark {
                        list: Some(c),
                        item: b.lists[c as int].selected,
                    },
                },
            )
        } else {
            None
        },
        None => None,
    }
}

/// The command that shuffling the focused list back builds.
pub open spec fn sp_shuffle_back_cmd(b: BoardModel) -> Option<CommandModel> {
    match b.current {
        Some(c) => if c + 1 < b.lists.len() {
            Some(
                CommandModel::ShuffleList {
                    from_index: c,
                    to_index: (c + 1) as usize,
                    bookmark: crate::commands::SelectionBookmark {
                        list: Some(c),
                        item: b.lists[c as int].selected,
                    },
                },
            )
        } else {
            None
        },
        None => None,
    }
}

/// The command that toggling the selected item builds.
pub open spec fn sp_toggle_cmd(b: BoardModel) -> Option<CommandModel> {
    match b.current {
        Some(c) => match b.lists[c as int].selected {
            Some(i) => Some(
                CommandModel::ToggleItem {
                    list: c,
                    item: i,
                    bookmark: crate::commands::SelectionBookmark { list: Some(c), item: Some(i) },
                },
            ),
            None => None,
        },
        None => None,
    }
}

/// The command that cutting the selected item builds.
pub open spec fn sp_cut_cmd(b: BoardModel) -> Option<CommandModel> {
    match b.current {
        Some(c) => match b.lists[c as int].selected {
            Some(i) => Some(
                CommandModel::CutItem {
                    list: c,
                    item: i,
                    value: ItemModel { text: Seq::empty(), done: false, child: None },
                    bookmark: crate::commands::SelectionBookmark { list: Some(c), item: Some(i) },
                    last_clipboard: None,
                },
            ),
            None => None,
        },
        None => None,
    }
}

/// The command that yanking the selected item builds.
pub open spec fn sp_yank_cmd(b: BoardModel) -> Option<CommandModel> {
    match b.current {
        Some(c) => match b.lists[c as int].selected {
            Some(i) => Some(
                CommandModel::YankItem {
                    list: c,
                    item: i,
                    value: ItemModel { text: Seq::empty(), done: false, child: None },
                    last_clipboard: None,
                },
            ),
            None => None,
        },
        None => None,
    }
}

/// The command that pasting after the selection builds.
pub open spec fn sp_paste_cmd(b: BoardModel) -> Option<CommandModel> {
    match b.current {
        Some(c) => {
            let pos: usize = match b.lists[c as int].selected {
                Some(i) => (i + 1) as usize,
                None => 0usize,
            };
            Some(
                CommandModel::PasteItem {
                    list: c,
                    item: pos,
                    bookmark: crate::commands::SelectionBookmark { list: Some(c), item: Some(pos) },
                },
            )
        },
        None => None,
    }
}

/// The staged command that inserting an item after the selection builds.
pub open spec fn sp_insert_item_cmd(b: BoardModel) -> Option<CommandModel> {
    match b.current {
        Some(c) => {
            let pos: usize = match b.lists[c as int].selected {
                Some(i) => (i + 1) as usize,
                None => 0usize,
            };
            Some(
                CommandModel::AddItem {
                    list: c,
                    item: pos,
                    value: ItemModel { text: Seq::empty(), done: false, child: None },
                    bookmark: crate::commands::SelectionBookmark { list: Some(c), item: Some(pos) },
                },
            )
        },
        None => None,
    }
}

/// The staged command that inserting a list after the focused one builds.
pub open spec fn sp_insert_list_cmd(b: BoardModel) -> CommandModel {
    let pos: usize = match b.current {
        Some(c) => (c + 1) as usize,
        None => b.lists.len() as usize,
    };
    CommandModel::AddList {
        list: pos,
        title: Seq::empty(),
        bookmark: crate::commands::SelectionBookmark {
            list: b.current,
            item: match b.current {
                Some(c) => b.lists[c as int].selected,
                None => None,
            },
        },
    }
}

/// The staged command that editing the selected item's text builds.
pub open spec fn sp_edit_item_cmd(b: BoardModel) -> Option<CommandModel> {
    match b.current {
        Some(c) => match b.lists[c as int].selected {
            Some(i) => Some(
                CommandModel::ChangeText {
                    list: c,
                    item: i,
                    old: b.lists[c as int].items[i as int].text,
                    new: b.lists[c as int].items[i as int].text,
                    bookmark: crate::commands::SelectionBookmark { list: Some(c), item: Some(i) },
                },
            ),
            None => None,
        },
        None => None,
    }
}

/// The board with one item's child-board reference set.
pub open spec fn sp_child_set(b: BoardModel, c: usize, i: usize, child: usize) -> BoardModel {
    let l0 = b.lists[c as int];
    let it0 = l0.items[i as int];
    BoardModel {
        lists: b.lists.update(
            c as int,
            ListModel {
                items: l0.items.update(i as int, ItemModel { child: Some(child), ..it0 }),
                ..l0
            },
        ),
        ..b
    }
}

/// Diving into the selected item's child board: navigate into it when it
/// exists (stale references are ignored), otherwise allocate a fresh empty
/// board, record it on the item, and navigate into it. Nothing happens
/// without a selected item.
pub open spec fn sp_push_board(m: EngineModel) -> EngineModel {
    let a = sp_active(m);
    let b = m.boards[a as int];
    match b.current {
        Some(c) => match b.lists[c as int].selected {
            Some(i) => match b.lists[c as int].items[i as int].child {
                Some(child) => if child < m.boards.len() {
                    EngineModel {
                        path: m.path.insert(
                            0,
                            BoardReference {
                                board: child,
                                source_board: a,
                                source_list: Some(c),
                                source_item: Some(i),
                            },
                        ),
                        ..m
                    }
                } else {
                    m
                },
                None => {
                    let ni = m.boards.len() as usize;
                    EngineModel {
                        boards: m.boards.push(
                            BoardModel { lists: Seq::empty(), current: None },
                        ).update(a as int, sp_child_set(b, c, i, ni)),
                        path: m.path.insert(
                            0,
                            BoardReference {
                                board: ni,
                                source_board: a,
                                source_list: Some(c),
                                source_item: Some(i),
                            },
                        ),
                        ..m
                    }
                },
            },
            None => m,
        },
        None => m,
    }
}

/// Climbing back out of a sub-board: pop the navigation step, and when the
/// board being left holds no lists, clear the originating item's reference
/// to it, so empty sub-boards count as never created.
pub open spec fn sp_pop_board(m: EngineModel) -> EngineModel {
    if m.path.len() == 0 {
        m
    } else {
        let r = m.path[0];
        let m1 = EngineModel { path: m.path.drop_first(), ..m };
        if m.boards[r.board as int].lists.len() == 0 {
            match (r.source_list, r.source_item) {
                (Some(sl), Some(si)) => {
                    let sb = m.boards[r.source_board as int];
                    if sl < sb.lists.len() && si < sb.lists[sl as int].items.len() {
                        let l0 = sb.lists[sl as int];
                        let it0 = l0.items[si as int];
                        EngineModel {
                            boards: m.boards.update(
                                r.source_board as int,
                                BoardModel {
                                    lists: sb.lists.update(
                                        sl as int,
                                        ListModel {
                                            items: l0.items.update(
                                                si as int,
                                                ItemModel { child: None, ..it0 },
                                            ),
                                            ..l0
                                        },
                                    ),
                                    ..sb
                                },
                            ),
                            ..m1
                        }
                    } else {
                        m1
                    }
                },
                _ => m1,
            }
        } else {
            m1
        }
    }
}

/// Committing a command and undoing it straight away restores the board
/// table and the clipboard exactly, and leaves the histories as if the
/// command had been undone onto the redo history. Undo first clears the
/// on-screen selection, so this holds for every command whose inverse
/// restores a selection of its own: all of them except a yank (which does
/// not touch the board) and a list deletion (whose inverse cannot know what
/// a neighbouring list had selected).
#[verifier::rlimit(100)]
#[verifier::spinoff_prover]
pub proof fn lemma_commit_then_undo(m: EngineModel, c: CommandModel)
    requires
        sp_engine_wf(m),
        sp_valid(
            c,
            crate::commands::Context {
                board: m.boards[sp_active(m) as int],
                clipboard: m.clipboard,
            },
        ),
        !(c is YankItem),
        !(c is DeleteList),
    ensures
        ({
            let t = sp_commit(m, c);
            &&& t.undo.len() > 0
            &&& sp_rev_req(
                t.undo[0].1,
                Context {
                    board: t.boards[t.undo[0].0 as int],
                    clipboard: t.clipboard,
                },
            )
            &&& sp_undo(t).boards == m.boards
            &&& sp_undo(t).clipboard == m.clipboard
            &&& sp_undo(t).path == m.path
            &&& sp_undo(t).undo == m.undo
            &&& sp_undo(t).redo == seq![t.undo[0]]
        }),
{
    let a = sp_active(m);
    let s = Context { board: m.boards[a as int], clipboard: m.clipboard };
    let (c2, t1) = sp_apply(c, s);
    crate::commands::lemma_apply_revert(c, s);
    let t = sp_commit(m, c);
    assert(t.undo[0] == (a, c2));
    assert(sp_active(t) == a);
    assert(t.boards[a as int] == t1.board);
    let boards1 = sp_cleared_active(t);
    let cleared = boards1[a as int];
    let r_clean = sp_revert(c2, Context { board: t1.board, clipboard: t1.clipboard });
    let r_used = sp_revert(c2, Context { board: cleared, clipboard: t1.clipboard });
    assert(r_clean == s);
    match c {
        CommandModel::ChangeText { .. } => {
            assert(r_used =~~= r_clean);
        },
        CommandModel::AddList { .. } => {
            assert(r_used =~~= r_clean);
        },
        CommandModel::AddItem { .. } => {
            assert(r_used =~~= r_clean);
        },
        CommandModel::DeleteItem { .. } => {
            assert(r_used =~~= r_clean);
        },
        CommandModel::ShuffleList { .. } => {
            assert(r_used =~~= r_clean);
        },
        CommandModel::ShuffleItem { .. } => {
            assert(r_used =~~= r_clean);
        },
        CommandModel::MoveItem { .. } => {
            assert(r_used =~~= r_clean);
        },
        CommandModel::ToggleItem { .. } => {
            assert(r_used =~~= r_clean);
        },
        CommandModel::YankItem { .. } => {
        },
        CommandModel::DeleteList { .. } => {
        },
        CommandModel::CutItem { .. } => {
            assert(r_used =~~= r_clean);
        },
        CommandModel::PasteItem { .. } => {
            assert(r_used =~~= r_clean);
        },
    }
    assert(sp_undo(t).boards =~= m.boards);
    assert(sp_undo(t).undo =~= m.undo);
    assert(sp_undo(t).redo =~= seq![t.undo[0]]);
}

/// The session: the board table, where the user is in it, what can be

/// undone and redone, the staged edit in flight, and the clipboard.
pub struct Engine {
    pub boards: Vec<Board>,
    pub board_path: VecDeque<BoardReference>,
    pub undo: VecDeque<BoardCommand>,
    pub redo: VecDeque<BoardCommand>,
    pub staged: Option<StagedCommand>,
    pub input_mode: InputMode,
    pub clipboard: Option<String>,
}

impl View for Engine {
    type V = EngineModel;

    open spec fn view(&self) -> EngineModel {
        EngineModel {
            boards: self.boards@.map_values(|b: Board| b@),
            path: self.board_path@,
            undo: self.undo@.map_values(|e: BoardCommand| (e.board_index, e.command@)),
            redo: self.redo@.map_values(|e: BoardCommand| (e.board_index, e.command@)),
            staged: match self.staged {
                Some(c) => Some(c@),
                None => None,
            },
            clipboard: sp_clip(self.clipboard),
        }
    }
}

impl Engine {
    pub open spec fn wf(&self) -> bool {
        sp_engine_wf(self@)
    }

    /// A fresh session: one empty root board, nothing staged, empty
    /// histories.
    pub fn new() -> (r: Self)
        ensures
            r.wf(),
            r@.boards =~= seq![BoardModel { lists: Seq::empty(), current: None }],
            r@.path =~= Seq::<BoardReference>::empty(),
            r@.undo =~= Seq::<(usize, CommandModel)>::empty(),
            r@.redo =~= Seq::<(usize, CommandModel)>::empty(),
            r@.staged is None,
            r@.clipboard is None,
            r.input_mode == InputMode::Normal,
    {
        let mut boards: Vec<Board> = Vec::new();
        boards.push(Board::new());
        let r = Engine {
            boards,
            board_path: VecDeque::new(),
            undo: VecDeque::new(),
            redo: VecDeque::new(),
            staged: None,
            input_mode: InputMode::Normal,
            clipboard: None,
        };
        proof {
            assert(r@.boards =~= seq![BoardModel { lists: Seq::empty(), current: None }]);
            assert(r@.undo =~= Seq::<(usize, CommandModel)>::empty());
            assert(r@.redo =~= Seq::<(usize, CommandModel)>::empty());
        }
        r
    }

    /// Index of the board on screen.
    pub fn active_board_index(&self) -> (r: usize)
        requires
            self.wf(),
        ensures
            r == sp_active(self@),
            r < self@.boards.len(),
    {
        if self.board_path.len() > 0 {
            self.board_path[0].board
        } else {
            0
        }
    }

    /// The board on screen.
    pub fn active_board(&self) -> (r: &Board)
        requires
            self.wf(),
        ensures
            r@ == self@.boards[sp_active(self@) as int],
    {
        let idx = self.active_board_index();
        &self.boards[idx]
    }

    /// Applies a fresh command to the active board, pushes it onto the undo
    /// history, and clears the redo history, as every committed edit does.
    pub fn commit(&mut self, cmd: Command)
        requires
            old(self).wf(),
            sp_apply_req(
                cmd@,
                Context {
                    board: old(self)@.boards[sp_active(old(self)@) as int],
                    clipboard: old(self)@.clipboard,
                },
            ),
        ensures
            final(self).wf(),
            final(self)@ == sp_commit(old(self)@, cmd@),
            final(self).input_mode == old(self).input_mode,
    {
        let idx = self.active_board_index();
        let ghost cmd0 = cmd@;
        let mut cmd = cmd;
        cmd.apply(&mut self.boards[idx], &mut self.clipboard);
        proof {
            lemma_apply_wf(
                cmd0,
                Context {
                    board: old(self)@.boards[sp_active(old(self)@) as int],
                    clipboard: old(self)@.clipboard,
                },
            );
        }
        self.undo.push_front(BoardCommand::new(idx, cmd));
        self.redo.clear();
        proof {
            assert(self@ =~~= sp_commit(old(self)@, cmd@));
        }
    }

    /// Undoes the newest history entry, if any whose indices still fit its
    /// board; tells whether anything changed.
    pub fn undo(&mut self) -> (r: bool)
        requires
            old(self).wf(),
        ensures
            final(self).wf(),
            r == (old(self)@.undo.len() > 0 && sp_rev_req(
                old(self)@.undo[0].1,
                Context {
                    board: old(self)@.boards[old(self)@.undo[0].0 as int],
                    clipboard: old(self)@.clipboard,
                },
            )),
            r ==> final(self)@ == sp_undo(old(self)@),
            !r ==> final(self)@ == old(self)@,
            final(self).input_mode == old(self).input_mode,
    {
        if self.undo.len() == 0 {
            return false;
        }
        let entry_board = self.undo[0].board_index;
        if !self.undo[0].command.rev_req_check(&self.boards[entry_board]) {
            return false;
        }
        let active = self.active_board_index();
        let entry = self.undo.pop_front().unwrap();
        let board = &mut self.boards[active];
        board.clear_current_selection();
        if entry.board_index != active {
            self.board_path.push_front(
                BoardReference {
                    board: entry.board_index,
                    source_board: active,
                    source_list: None,
                    source_item: None,
                },
            );
        }
        entry.command.revert(&mut self.boards[entry.board_index], &mut self.clipboard);
        proof {
            lemma_revert_wf(
                entry.command@,
                Context {
                    board: sp_cleared_active(old(self)@)[entry.board_index as int],
                    clipboard: old(self)@.clipboard,
                },
            );
        }
        self.redo.push_front(entry);
        proof {
            assert(self@ =~~= sp_undo(old(self)@));
        }
        true
    }

    /// Redoes the newest undone entry, if any whose indices still fit its
    /// board; tells whether anything changed.
    pub fn redo(&mut self) -> (r: bool)
        requires
            old(self).wf(),
        ensures
            final(self).wf(),
            r == (old(self)@.redo.len() > 0 && sp_apply_req(
                old(self)@.redo[0].1,
                Context {
                    board: old(self)@.boards[old(self)@.redo[0].0 as int],
                    clipboard: old(self)@.clipboard,
                },
            )),
            r ==> final(self)@ == sp_redo(old(self)@),
            !r ==> final(self)@ == old(self)@,
            final(self).input_mode == old(self).input_mode,
    {
        if self.redo.len() == 0 {
            return false;
        }
        let entry_board = self.redo[0].board_index;
        if !self.redo[0].command.apply_req_check(&self.boards[entry_board], &self.clipboard) {
            return false;
        }
        let active = self.active_board_index();
        let mut entry = self.redo.pop_front().unwrap();
        let board = &mut self.boards[active];
        board.clear_current_selection();
        if entry.board_index != active {
            self.board_path.push_front(
                BoardReference {
                    board: entry.board_index,
                    source_board: active,
                    source_list: None,
                    source_item: None,
                },
            );
        }
        entry.command.apply(&mut self.boards[entry.board_index], &mut self.clipboard);
        proof {
            lemma_apply_wf(
                old(self)@.redo[0].1,
                Context {
                    board: sp_cleared_active(old(self)@)[entry.board_index as int],
                    clipboard: old(self)@.clipboard,
                },
            );
        }
        self.undo.push_front(entry);
        proof {
            assert(self@ =~~= sp_redo(old(self)@));
        }
        true
    }

    /// Commits the command built by one of the board's constructors, when
    /// one was built; shared shape of all the one-shot user intents.
    ///
    /// Prioritizes the selected item of the active board.
    pub fn prioritize_selected_item(&mut self) -> (r: bool)
        requires
            old(self).wf(),
        ensures
            final(self).wf(),
            r == (sp_prioritize_cmd(old(self)@.boards[sp_active(old(self)@) as int]) is Some),
            r ==> final(self)@ == sp_commit(
                old(self)@,
                sp_prioritize_cmd(old(self)@.boards[sp_active(old(self)@) as int])->0,
            ),
            !r ==> final(self)@ == old(self)@,
            final(self).input_mode == old(self).input_mode,
    {
        let idx = self.active_board_index();
        if let Some(cmd) = self.boards[idx].prioritize_selected_item() {
            proof {
                lemma_valid_implies_req(
                    cmd@,
                    Context { board: self@.boards[idx as int], clipboard: self@.clipboard },
                );
            }
            self.commit(cmd);
            true
        } else {
            false
        }
    }

    /// Deprioritizes the selected item of the active board.
    pub fn deprioritize_selected_item(&mut self) -> (r: bool)
        requires
            old(self).wf(),
        ensures
            final(self).wf(),
            r == (sp_deprioritize_cmd(old(self)@.boards[sp_active(old(self)@) as int]) is Some),
            r ==> final(self)@ == sp_commit(
                old(self)@,
                sp_deprioritize_cmd(old(self)@.boards[sp_active(old(self)@) as int])->0,
            ),
            !r ==> final(self)@ == old(self)@,
            final(self).input_mode == old(self).input_mode,
    {
        let idx = self.active_board_index();
        if let Some(cmd) = self.boards[idx].deprioritize_selected_item() {
            proof {
                lemma_valid_implies_req(
                    cmd@,
                    Context { board: self@.boards[idx as int], clipboard: self@.clipboard },
                );
            }
            self.commit(cmd);
            true
        } else {
            false
        }
    }

    /// Moves the selected item into the previous list, keeping its row.
    pub fn move_to_prev_list(&mut self) -> (r: bool)
        requires
            old(self).wf(),
        ensures
            final(self).wf(),
            r == (sp_move_prev_cmd(old(self)@.boards[sp_active(old(self)@) as int]) is Some),
            r ==> final(self)@ == sp_commit(
                old(self)@,
                sp_move_prev_cmd(old(self)@.boards[sp_active(old(self)@) as int])->0,
            ),
            !r ==> final(self)@ == old(self)@,
            final(self).input_mode == old(self).input_mode,
    {
        let idx = self.active_board_index();
        if self.boards[idx].current_list.is_some() {
            let index = self.boards[idx].get_current_selection_index();
            if let Some(cmd) = self.boards[idx].move_to_prev_list(index) {
                proof {
                    lemma_valid_implies_req(
                        cmd@,
                        Context { board: self@.boards[idx as int], clipboard: self@.clipboard },
                    );
                }
                self.commit(cmd);
                return true;
            }
        }
        false
    }

    /// Moves the selected item into the next list, keeping its row.
    pub fn move_to_next_list(&mut self) -> (r: bool)
        requires
            old(self).wf(),
        ensures
            final(self).wf(),
            r == (sp_move_next_cmd(old(self)@.boards[sp_active(old(self)@) as int]) is Some),
            r ==> final(self)@ == sp_commit(
                old(self)@,
                sp_move_next_cmd(old(self)@.boards[sp_active(old(self)@) as int])->0,
            ),
            !r ==> final(self)@ == old(self)@,
            final(self).input_mode == old(self).input_mode,
    {
        let idx = self.active_board_index();
        if self.boards[idx].current_list.is_some() {
            let index = self.boards[idx].get_current_selection_index();
            if let Some(cmd) = self.boards[idx].move_to_next_list(index) {
                proof {
                    lemma_valid_implies_req(
                        cmd@,
                        Context { board: self@.boards[idx as int], clipboard: self@.clipboard },
                    );
                }
                self.commit(cmd);
                return true;
            }
        }
        false
    }

    /// Deletes the selected item of the active board.
    pub fn delete_selected_item(&mut self) -> (r: bool)
        requires
            old(self).wf(),
        ensures
            final(self).wf(),
            r == (sp_delete_item_cmd(old(self)@.boards[sp_active(old(self)@) as int]) is Some),
            r ==> final(self)@ == sp_commit(
                old(self)@,
                sp_delete_item_cmd(old(self)@.boards[sp_active(old(self)@) as int])->0,
            ),
            !r ==> final(self)@ == old(self)@,
            final(self).input_mode == old(self).input_mode,
    {
        let idx = self.active_board_index();
        if let Some(cmd) = self.boards[idx].delete_selected_item() {
            proof {
                lemma_valid_implies_req(
                    cmd@,
                    Context { board: self@.boards[idx as int], clipboard: self@.clipboard },
                );
                reveal_strlit("");
                assert(cmd@ =~~= sp_delete_item_cmd(old(self)@.boards[sp_active(old(self)@) as int])->0);
            }
            self.commit(cmd);
            true
        } else {
            false
        }
    }

    /// Deletes the focused list of the active board.
    pub fn delete_selected_list(&mut self) -> (r: bool)
        requires
            old(self).wf(),
        ensures
            final(self).wf(),
            r == (sp_delete_list_cmd(old(self)@.boards[sp_active(old(self)@) as int]) is Some),
            r ==> final(self)@ == sp_commit(
                old(self)@,
                sp_delete_list_cmd(old(self)@.boards[sp_active(old(self)@) as int])->0,
            ),
            !r ==> final(self)@ == old(self)@,
            final(self).input_mode == old(self).input_mode,
    {
        let idx = self.active_board_index();
        if let Some(cmd) = self.boards[idx].delete_selected_list() {
            proof {
                lemma_valid_implies_req(
                    cmd@,
                    Context { board: self@.boards[idx as int], clipboard: self@.clipboard },
                );
                reveal_strlit("");
                assert(cmd@ =~~= sp_delete_list_cmd(old(self)@.boards[sp_active(old(self)@) as int])->0);
            }
            self.commit(cmd);
            true
        } else {
            false
        }
    }

    /// Swaps the focused list with the one before it.
    pub fn shuffle_list_forward(&mut self) -> (r: bool)
        requires
            old(self).wf(),
        ensures
            final(self).wf(),
            r == (sp_shuffle_fwd_cmd(old(self)@.boards[sp_active(old(self)@) as int]) is Some),
            r ==> final(self)@ == sp_commit(
                old(self)@,
                sp_shuffle_fwd_cmd(old(self)@.boards[sp_active(old(self)@) as int])->0,
            ),
            !r ==> final(self)@ == old(self)@,
            final(self).input_mode == old(self).input_mode,
    {
        let idx = self.active_board_index();
        if let Some(cmd) = self.boards[idx].shuffle_list_forward() {
            proof {
                lemma_valid_implies_req(
                    cmd@,
                    Context { board: self@.boards[idx as int], clipboard: self@.clipboard },
                );
            }
            self.commit(cmd);
            true
        } else {
            false
        }
    }

    /// Swaps the focused list with the one after it.
    pub fn shuffle_list_back(&mut self) -> (r: bool)
        requires
            old(self).wf(),
        ensures
            final(self).wf(),
            r == (sp_shuffle_back_cmd(old(self)@.boards[sp_active(old(self)@) as int]) is Some),
            r ==> final(self)@ == sp_commit(
                old(self)@,
                sp_shuffle_back_cmd(old(self)@.boards[sp_active(old(self)@) as int])->0,
            ),
            !r ==> final(self)@ == old(self)@,
            final(self).input_mode == old(self).input_mode,
    {
        let idx = self.active_board_index();
        if let Some(cmd) = self.boards[idx].shuffle_list_back() {
            proof {
                lemma_valid_implies_req(
                    cmd@,
                    Context { board: self@.boards[idx as int], clipboard: self@.clipboard },
                );
            }
            self.commit(cmd);
            true
        } else {
            false
        }
    }

    /// Toggles the done flag of the selected item.
    pub fn toggle_selected_item(&mut self) -> (r: bool)
        requires
            old(self).wf(),
        ensures
            final(self).wf(),
            r == (sp_toggle_cmd(old(self)@.boards[sp_active(old(self)@) as int]) is Some),
            r ==> final(self)@ == sp_commit(
                old(self)@,
                sp_toggle_cmd(old(self)@.boards[sp_active(old(self)@) as int])->0,
            ),
            !r ==> final(self)@ == old(self)@,
            final(self).input_mode == old(self).input_mode,
    {
        let idx = self.active_board_index();
        if let Some(cmd) = self.boards[idx].toggle_selected_item() {
            proof {
                lemma_valid_implies_req(
                    cmd@,
                    Context { board: self@.boards[idx as int], clipboard: self@.clipboard },
                );
            }
            self.commit(cmd);
            true
        } else {
            false
        }
    }

    /// Cuts the selected item onto the clipboard.
    pub fn cut_selected_item(&mut self) -> (r: bool)
        requires
            old(self).wf(),
        ensures
            final(self).wf(),
            r == (sp_cut_cmd(old(self)@.boards[sp_active(old(self)@) as int]) is Some),
            r ==> final(self)@ == sp_commit(
                old(self)@,
                sp_cut_cmd(old(self)@.boards[sp_active(old(self)@) as int])->0,
            ),
            !r ==> final(self)@ == old(self)@,
            final(self).input_mode == old(self).input_mode,
    {
        let idx = self.active_board_index();
        if let Some(cmd) = self.boards[idx].cut_selected_item() {
            proof {
                lemma_valid_implies_req(
                    cmd@,
                    Context { board: self@.boards[idx as int], clipboard: self@.clipboard },
                );
                reveal_strlit("");
                assert(cmd@ =~~= sp_cut_cmd(old(self)@.boards[sp_active(old(self)@) as int])->0);
            }
            self.commit(cmd);
            true
        } else {
            false
        }
    }

    /// Copies the selected item's text onto the clipboard.
    pub fn yank_selected_item(&mut self) -> (r: bool)
        requires
            old(self).wf(),
        ensures
            final(self).wf(),
            r == (sp_yank_cmd(old(self)@.boards[sp_active(old(self)@) as int]) is Some),
            r ==> final(self)@ == sp_commit(
                old(self)@,
                sp_yank_cmd(old(self)@.boards[sp_active(old(self)@) as int])->0,
            ),
            !r ==> final(self)@ == old(self)@,
            final(self).input_mode == old(self).input_mode,
    {
        let idx = self.active_board_index();
        if let Some(cmd) = self.boards[idx].yank_selected_item() {
            proof {
                lemma_valid_implies_req(
                    cmd@,
                    Context { board: self@.boards[idx as int], clipboard: self@.clipboard },
                );
                reveal_strlit("");
                assert(cmd@ =~~= sp_yank_cmd(old(self)@.boards[sp_active(old(self)@) as int])->0);
            }
            self.commit(cmd);
            true
        } else {
            false
        }
    }

    /// Pastes the clipboard as a new item after the selection; nothing
    /// happens while the clipboard is empty.
    pub fn paste_item(&mut self) -> (r: bool)
        requires
            old(self).wf(),
        ensures
            final(self).wf(),
            r == (old(self)@.clipboard is Some && sp_paste_cmd(
                old(self)@.boards[sp_active(old(self)@) as int],
            ) is Some),
            r ==> final(self)@ == sp_commit(
                old(self)@,
                sp_paste_cmd(old(self)@.boards[sp_active(old(self)@) as int])->0,
            ),
            !r ==> final(self)@ == old(self)@,
            final(self).input_mode == old(self).input_mode,
    {
        if self.clipboard.is_none() {
            return false;
        }
        let idx = self.active_board_index();
        if let Some(cmd) = self.boards[idx].paste_item() {
            proof {
                lemma_valid_implies_req(
                    cmd@,
                    Context { board: self@.boards[idx as int], clipboard: self@.clipboard },
                );
            }
            self.commit(cmd);
            true
        } else {
            false
        }
    }


    /// Starts staging a fresh item after the selection; the board gains the
    /// empty item at once so the user sees what they type. Nothing happens
    /// without a focused list.
    pub fn insert_item_to_current_list(&mut self) -> (r: bool)
        requires
            old(self).wf(),
        ensures
            final(self).wf(),
            r == (sp_insert_item_cmd(old(self)@.boards[sp_active(old(self)@) as int]) is Some),
            r ==> ({
                let a = sp_active(old(self)@);
                let cmd = sp_insert_item_cmd(old(self)@.boards[a as int])->0;
                &&& final(self)@ == (EngineModel {
                    boards: old(self)@.boards.update(
                        a as int,
                        sp_apply(
                            cmd,
                            Context {
                                board: old(self)@.boards[a as int],
                                clipboard: old(self)@.clipboard,
                            },
                        ).1.board,
                    ),
                    staged: Some(cmd),
                    ..old(self)@
                })
                &&& final(self).input_mode == InputMode::EditItem
            }),
            !r ==> final(self)@ == old(self)@ && final(self).input_mode == old(self).input_mode,
    {
        let idx = self.active_board_index();
        let board = &mut self.boards[idx];
        if let Some(staged) = board.insert_item_to_current_list() {
            self.staged = Some(staged);
            self.input_mode = InputMode::EditItem;
            proof {
                assert(self@ =~~= (EngineModel {
                    boards: old(self)@.boards.update(
                        idx as int,
                        sp_apply(
                            sp_insert_item_cmd(old(self)@.boards[idx as int])->0,
                            Context {
                                board: old(self)@.boards[idx as int],
                                clipboard: old(self)@.clipboard,
                            },
                        ).1.board,
                    ),
                    staged: Some(sp_insert_item_cmd(old(self)@.boards[idx as int])->0),
                    ..old(self)@
                }));
            }
            true
        } else {
            proof {
                assert(self@ =~~= old(self)@);
            }
            false
        }
    }

    /// Starts staging a fresh list after the focused one; the board gains
    /// the unnamed list at once and title editing begins.
    pub fn insert_list_to_board(&mut self) -> (r: bool)
        requires
            old(self).wf(),
        ensures
            final(self).wf(),
            r,
            ({
                let a = sp_active(old(self)@);
                let cmd = sp_insert_list_cmd(old(self)@.boards[a as int]);
                &&& final(self)@ == (EngineModel {
                    boards: old(self)@.boards.update(
                        a as int,
                        sp_apply(
                            cmd,
                            Context {
                                board: old(self)@.boards[a as int],
                                clipboard: old(self)@.clipboard,
                            },
                        ).1.board,
                    ),
                    staged: Some(cmd),
                    ..old(self)@
                })
                &&& final(self).input_mode == InputMode::EditTitle
            }),
    {
        let idx = self.active_board_index();
        let board = &mut self.boards[idx];
        if let Some(staged) = board.insert_list_to_board() {
            self.staged = Some(staged);
            self.input_mode = InputMode::EditTitle;
        }
        proof {
            assert(self@ =~~= (EngineModel {
                boards: old(self)@.boards.update(
                    idx as int,
                    sp_apply(
                        sp_insert_list_cmd(old(self)@.boards[idx as int]),
                        Context {
                            board: old(self)@.boards[idx as int],
                            clipboard: old(self)@.clipboard,
                        },
                    ).1.board,
                ),
                staged: Some(sp_insert_list_cmd(old(self)@.boards[idx as int])),
                ..old(self)@
            }));
        }
        true
    }

    /// Starts staging an in-place edit of the selected item's text. Nothing
    /// happens without a selected item.
    pub fn edit_current_item(&mut self) -> (r: bool)
        requires
            old(self).wf(),
        ensures
            final(self).wf(),
            r == (sp_edit_item_cmd(old(self)@.boards[sp_active(old(self)@) as int]) is Some),
            r ==> final(self)@ == (EngineModel {
                staged: Some(sp_edit_item_cmd(old(self)@.boards[sp_active(old(self)@) as int])->0),
                ..old(self)@
            }) && final(self).input_mode == InputMode::EditItem,
            !r ==> final(self)@ == old(self)@ && final(self).input_mode == old(self).input_mode,
    {
        let idx = self.active_board_index();
        if let Some(staged) = self.boards[idx].edit_current_item() {
            self.staged = Some(staged);
            self.input_mode = InputMode::EditItem;
            proof {
                assert(self@ =~~= (EngineModel {
                    staged: Some(
                        sp_edit_item_cmd(old(self)@.boards[sp_active(old(self)@) as int])->0,
                    ),
                    ..old(self)@
                }));
            }
            true
        } else {
            false
        }
    }

    /// Settles the staged edit in flight: reads the edited value back from
    /// the board, commits the command when the value is worth keeping, and
    /// reverts the speculative edit otherwise. Tells whether a command was
    /// committed.
    pub fn commit_board_command(&mut self) -> (r: bool)
        requires
            old(self).wf(),
        ensures
            final(self).wf(),
            match old(self)@.staged {
                None => !r && final(self)@ == old(self)@,
                Some(c) => {
                    let a = sp_active(old(self)@);
                    let b = old(self)@.boards[a as int];
                    if !sp_finalize_req(c, b) {
                        !r && final(self)@ == (EngineModel { staged: None, ..old(self)@ })
                    } else {
                        let fin = sp_finalize(c, b);
                        &&& r == fin.1
                        &&& fin.1 ==> final(self)@ == (EngineModel {
                            undo: old(self)@.undo.insert(0, (a, fin.0)),
                            redo: Seq::empty(),
                            staged: None,
                            ..old(self)@
                        })
                        &&& !fin.1 ==> ({
                            let t = sp_revert(
                                fin.0,
                                Context { board: b, clipboard: old(self)@.clipboard },
                            );
                            final(self)@ == (EngineModel {
                                boards: old(self)@.boards.update(a as int, t.board),
                                clipboard: t.clipboard,
                                staged: None,
                                ..old(self)@
                            })
                        })
                    }
                },
            },
            final(self).input_mode == old(self).input_mode,
    {
        let idx = self.active_board_index();
        let taken = self.staged.take();
        match taken {
            None => {
                proof {
                    assert(self@ =~~= old(self)@);
                }
                false
            },
            Some(mut staged) => {
                if !staged.finalize_req_check(&self.boards[idx]) {
                    proof {
                        assert(self@ =~~= (EngineModel { staged: None, ..old(self)@ }));
                    }
                    return false;
                }
                let accepted = staged.finalize(&self.boards[idx]);
                if accepted {
                    self.undo.push_front(BoardCommand::new(idx, staged.to_cmd()));
                    self.redo.clear();
                    proof {
                        let a = sp_active(old(self)@);
                        let b = old(self)@.boards[a as int];
                        let fin = sp_finalize(old(self)@.staged->0, b);
                        assert(self@ =~~= (EngineModel {
                            undo: old(self)@.undo.insert(0, (a, fin.0)),
                            redo: Seq::empty(),
                            staged: None,
                            ..old(self)@
                        }));
                    }
                    true
                } else {
                    proof {
                        let a = sp_active(old(self)@);
                        let b = old(self)@.boards[a as int];
                        assert(sp_rev_req(
                            staged@,
                            Context { board: b, clipboard: old(self)@.clipboard },
                        ));
                    }
                    staged.revert(&mut self.boards[idx], &mut self.clipboard);
                    proof {
                        let a = sp_active(old(self)@);
                        let b = old(self)@.boards[a as int];
                        let fin = sp_finalize(old(self)@.staged->0, b);
                        lemma_revert_wf(
                            fin.0,
                            Context { board: b, clipboard: old(self)@.clipboard },
                        );
                        let t = sp_revert(
                            fin.0,
                            Context { board: b, clipboard: old(self)@.clipboard },
                        );
                        assert(self@ =~~= (EngineModel {
                            boards: old(self)@.boards.update(a as int, t.board),
                            clipboard: t.clipboard,
                            staged: None,
                            ..old(self)@
                        }));
                    }
                    false
                }
            },
        }
    }

    /// Dives into the selected item's child board, allocating one when the
    /// item has none yet.
    pub fn push_board(&mut self)
        requires
            old(self).wf(),
        ensures
            final(self).wf(),
            final(self)@ == sp_push_board(old(self)@),
            final(self).input_mode == old(self).input_mode,
    {
        let idx = self.active_board_index();
        let board = &self.boards[idx];
        if let Some(cur) = board.current_list {
            if let Some(sel) = board.lists[cur].selected_item_index {
                match board.lists[cur].items[sel].board {
                    Some(child) => {
                        if child < self.boards.len() {
                            self.board_path.push_front(
                                BoardReference {
                                    board: child,
                                    source_board: idx,
                                    source_list: Some(cur),
                                    source_item: Some(sel),
                                },
                            );
                        }
                        proof {
                            assert(self@ =~~= sp_push_board(old(self)@));
                        }
                    },
                    None => {
                        let new_index = self.boards.len();
                        self.boards.push(Board::new());
                        let list = &mut self.boards[idx];
                        let l = &mut list.lists[cur];
                        let it = &mut l.items[sel];
                        it.board = Some(new_index);
                        self.board_path.push_front(
                            BoardReference {
                                board: new_index,
                                source_board: idx,
                                source_list: Some(cur),
                                source_item: Some(sel),
                            },
                        );
                        proof {
                            assert(self@ =~~= sp_push_board(old(self)@));
                        }
                    },
                }
            } else {
                proof {
                    assert(self@ =~~= sp_push_board(old(self)@));
                }
            }
        } else {
            proof {
                assert(self@ =~~= sp_push_board(old(self)@));
            }
        }
    }

    /// Climbs back out of the current sub-board; a sub-board left with no
    /// lists is detached from the item that owned it.
    pub fn pop_board(&mut self)
        requires
            old(self).wf(),
        ensures
            final(self).wf(),
            final(self)@ == sp_pop_board(old(self)@),
            final(self).input_mode == old(self).input_mode,
    {
        if let Some(r) = self.board_path.pop_front() {
            if self.boards[r.board].lists.is_empty() {
                if let (Some(source_list), Some(source_item)) = (r.source_list, r.source_item) {
                    if source_list < self.boards[r.source_board].lists.len() {
                        let source = &mut self.boards[r.source_board];
                        let l = &mut source.lists[source_list];
                        if source_item < l.items.len() {
                            let it = &mut l.items[source_item];
                            it.board = None;
                        }
                    }
                }
            }
        }
        proof {
            assert(self@ =~~= sp_pop_board(old(self)@));
        }
    }

    /// Moves the selection one item down on the active board.
    pub fn move_down(&mut self)
        requires
            old(self).wf(),
        ensures
            final(self).wf(),
            final(self)@ == (EngineModel {
                boards: old(self)@.boards.update(
                    sp_active(old(self)@) as int,
                    crate::board::spec_move_down(
                        old(self)@.boards[sp_active(old(self)@) as int],
                    ),
                ),
                ..old(self)@
            }),
            final(self).input_mode == old(self).input_mode,
    {
        let idx = self.active_board_index();
        let board = &mut self.boards[idx];
        board.move_down();
        proof {
            assert(self@ =~~= (EngineModel {
                boards: old(self)@.boards.update(
                    sp_active(old(self)@) as int,
                    crate::board::spec_move_down(
                        old(self)@.boards[sp_active(old(self)@) as int],
                    ),
                ),
                ..old(self)@
            }));
        }
    }

    /// Moves the selection one item up on the active board.
    pub fn move_up(&mut self)
        requires
            old(self).wf(),
        ensures
            final(self).wf(),
            final(self)@ == (EngineModel {
                boards: old(self)@.boards.update(
                    sp_active(old(self)@) as int,
                    crate::board::spec_move_up(old(self)@.boards[sp_active(old(self)@) as int]),
                ),
                ..old(self)@
            }),
            final(self).input_mode == old(self).input_mode,
    {
        let idx = self.active_board_index();
        let board = &mut self.boards[idx];
        board.move_up();
        proof {
            assert(self@ =~~= (EngineModel {
                boards: old(self)@.boards.update(
                    sp_active(old(self)@) as int,
                    crate::board::spec_move_up(old(self)@.boards[sp_active(old(self)@) as int]),
                ),
                ..old(self)@
            }));
        }
    }

    /// Moves the focus one list to the right on the active board.
    pub fn move_right(&mut self)
        requires
            old(self).wf(),
        ensures
            final(self).wf(),
            final(self)@ == (EngineModel {
                boards: old(self)@.boards.update(
                    sp_active(old(self)@) as int,
                    crate::board::spec_move_right(
                        old(self)@.boards[sp_active(old(self)@) as int],
                    ),
                ),
                ..old(self)@
            }),
            final(self).input_mode == old(self).input_mode,
    {
        let idx = self.active_board_index();
        let board = &mut self.boards[idx];
        board.move_right();
        proof {
            assert(self@ =~~= (EngineModel {
                boards: old(self)@.boards.update(
                    sp_active(old(self)@) as int,
                    crate::board::spec_move_right(
                        old(self)@.boards[sp_active(old(self)@) as int],
                    ),
                ),
                ..old(self)@
            }));
        }
    }

    /// Moves the focus one list to the left on the active board.
    pub fn move_left(&mut self)
        requires
            old(self).wf(),
        ensures
            final(self).wf(),
            final(self)@ == (EngineModel {
                boards: old(self)@.boards.update(
                    sp_active(old(self)@) as int,
                    crate::board::spec_move_left(
                        old(self)@.boards[sp_active(old(self)@) as int],
                    ),
                ),
                ..old(self)@
            }),
            final(self).input_mode == old(self).input_mode,
    {
        let idx = self.active_board_index();
        let board = &mut self.boards[idx];
        board.move_left();
        proof {
            assert(self@ =~~= (EngineModel {
                boards: old(self)@.boards.update(
                    sp_active(old(self)@) as int,
                    crate::board::spec_move_left(
                        old(self)@.boards[sp_active(old(self)@) as int],
                    ),
                ),
                ..old(self)@
            }));
        }
    }
}

} // verus!