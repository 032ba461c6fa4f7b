//! The algebra of the command engine, proved once and for all: committed
//! commands undo exactly, in any number and in reverse order, and the staged
//! protocol never leaves a trace when an edit is discarded.

use vstd::prelude::*;

use crate::commands::{
    CommandModel, Context, SelectionBookmark, lemma_apply_revert, sp_apply, sp_finalize,
    sp_revert, sp_text_set, sp_valid,
};
use crate::list::ItemModel;

verus! {

/// A sequence of commands, each valid for the state left by the ones before
/// it: exactly what a run of committed edits looks like.
pub open spec fn sp_all_valid(cs: Seq<CommandModel>, s: Context) -> bool
    decreases cs.len(),
{
    cs.len() == 0 || (sp_valid(cs[0], s) && sp_all_valid(
        cs.drop_first(),
        sp_apply(cs[0], s).1,
    ))
}

/// Applying a run of commands in order: the commands as the history keeps
/// them (with captured values), and the final state.
pub open spec fn sp_apply_all(cs: Seq<CommandModel>, s: Context) -> (Seq<CommandModel>, Context)
    decreases cs.len(),
{
    if cs.len() == 0 {
        (Seq::empty(), s)
    } else {
        let (c2, s1) = sp_apply(cs[0], s);
        let (rest, t) = sp_apply_all(cs.drop_first(), s1);
        (rest.insert(0, c2), t)
    }
}

/// Reverting a run of commands last-in first-out: the first command of the
/// run is undone last.
pub open spec fn sp_revert_all(cs: Seq<CommandModel>, t: Context) -> Context
    decreases cs.len(),
{
    if cs.len() == 0 {
        t
    } else {
        sp_revert(cs[0], sp_revert_all(cs.drop_first(), t))
    }
}

/// For any run of committed commands, applying them all and then reverting
/// them in reverse order restores the starting state exactly: boards,
/// selection, and clipboard.
pub proof fn lemma_history_roundtrip(cs: Seq<CommandModel>, s: Context)
    requires
        sp_all_valid(cs, s),
    ensures
        sp_revert_all(sp_apply_all(cs, s).0, sp_apply_all(cs, s).1) == s,
    decreases cs.len(),
{
    if cs.len() > 0 {
        let (c2, s1) = sp_apply(cs[0], s);
        let (rest, t) = sp_apply_all(cs.drop_first(), s1);
        lemma_apply_revert(cs[0], s);
        lemma_history_roundtrip(cs.drop_first(), s1);
        assert(rest.insert(0, c2).drop_first() =~= rest);
        assert(sp_revert_all(rest.insert(0, c2), t) == sp_revert(c2, sp_revert_all(rest, t)));
    }
}

/// Undo followed immediately by redo is the identity: from the state a
/// committed command produced, reverting it and applying it again lead back
/// to that very state, command included.
pub proof fn lemma_undo_redo_identity(c: CommandModel, s: Context)
    requires
        sp_valid(c, s),
    ensures
        ({
            let (c2, t) = sp_apply(c, s);
            &&& sp_revert(c2, t) == s
            &&& sp_apply(c2, sp_revert(c2, t)) == (c2, t)
        }),
{
    lemma_apply_revert(c, s);
}

/// Inserting an item and then deleting it at the same position leaves every
/// list's length as it was, and leaves the selection on the item before the
/// position (or cleared again when the list is empty).
pub proof fn lemma_insert_then_delete(s: Context, list: usize, pos: usize, value: ItemModel)
    requires
        s.board.wf(),
        s.board.current == Some(list),
        pos <= s.board.lists[list as int].items.len(),
        match s.board.lists[list as int].selected {
            Some(x) => pos == x + 1,
            None => pos == 0,
        },
    ensures
        ({
            let add = CommandModel::AddItem {
                list,
                item: pos,
                value,
                bookmark: SelectionBookmark { list: Some(list), item: Some(pos) },
            };
            let t = sp_apply(add, s).1;
            let del = CommandModel::DeleteItem {
                list,
                item: pos,
                value,
                bookmark: SelectionBookmark { list: Some(list), item: Some(pos) },
            };
            let u = sp_apply(del, t).1;
            &&& u.board.lists.len() == s.board.lists.len()
            &&& forall|j: int|
                0 <= j < u.board.lists.len() ==> (#[trigger] u.board.lists[j]).items
                    =~= s.board.lists[j].items
            &&& u.board.lists[list as int].selected == (if s.board.lists[
                list as int
            ].items.len() == 0 {
                None::<usize>
            } else {
                Some(
                    if pos == 0 {
                        0usize
                    } else {
                        (pos - 1) as usize
                    },
                )
            })
        }),
{
    let add = CommandModel::AddItem {
        list,
        item: pos,
        value,
        bookmark: SelectionBookmark { list: Some(list), item: Some(pos) },
    };
    let t = sp_apply(add, s).1;
    let del = CommandModel::DeleteItem {
        list,
        item: pos,
        value,
        bookmark: SelectionBookmark { list: Some(list), item: Some(pos) },
    };
    let u = sp_apply(del, t).1;
    assert(t.board.lists[list as int].items =~= s.board.lists[list as int].items.insert(
        pos as int,
        value,
    ));
    assert(u.board.lists[list as int].items =~= s.board.lists[list as int].items);
    assert forall|j: int| 0 <= j < u.board.lists.len() implies (#[trigger] u.board.lists[j]).items
        =~= s.board.lists[j].items by {
        if j != list {
            assert(u.board.lists[j] == s.board.lists[j]);
        }
    }
}

/// Cut followed by paste reproduces an item with the same text at the paste
/// target, and reverting the cut restores the clipboard that the cut
/// overwrote.
pub proof fn lemma_cut_then_paste(
    s: Context,
    cut: CommandModel,
    paste_list: usize,
    paste_pos: usize,
)
    requires
        sp_valid(cut, s),
        cut is CutItem,
        ({
            let t = sp_apply(cut, s).1;
            &&& paste_list < t.board.lists.len()
            &&& paste_pos <= t.board.lists[paste_list as int].items.len()
        }),
    ensures
        ({
            let (cut2, t) = sp_apply(cut, s);
            let paste = CommandModel::PasteItem {
                list: paste_list,
                item: paste_pos,
                bookmark: SelectionBookmark { list: Some(paste_list), item: Some(paste_pos) },
            };
            let u = sp_apply(paste, t).1;
            &&& u.board.lists[paste_list as int].items[paste_pos as int].text == s.board.lists[
                cut->CutItem_list as int
            ].items[cut->CutItem_item as int].text
            &&& sp_revert(cut2, t).clipboard == s.clipboard
        }),
{
    lemma_apply_revert(cut, s);
    let (cut2, t) = sp_apply(cut, s);
    let paste = CommandModel::PasteItem {
        list: paste_list,
        item: paste_pos,
        bookmark: SelectionBookmark { list: Some(paste_list), item: Some(paste_pos) },
    };
    let u = sp_apply(paste, t).1;
    assert(t.clipboard == Some(
        s.board.lists[cut->CutItem_list as int].items[cut->CutItem_item as int].text,
    ));
}

/// A staged item insertion whose edited text is still empty when editing
/// settles is rejected by `finalize`, and reverting it restores the starting
/// state exactly, item counts included; editing may have touched nothing but
/// the staged item's text.
pub proof fn lemma_staged_item_discarded(s: Context, c: CommandModel, edited: Seq<char>)
    requires
        sp_valid(c, s),
        c matches CommandModel::AddItem { value, .. } && value == (ItemModel {
            text: Seq::<char>::empty(),
            done: false,
            child: None,
        }),
    ensures
        ({
            let (c2, t) = sp_apply(c, s);
            let tb = sp_text_set(t.board, c->AddItem_list, c->AddItem_item, edited);
            let fin = sp_finalize(c2, tb);
            &&& fin.1 == (edited.len() > 0)
            &&& edited.len() == 0 ==> sp_revert(fin.0, Context { board: tb, clipboard: t.clipboard })
                == s
        }),
{
    let (c2, t) = sp_apply(c, s);
    let tb = sp_text_set(t.board, c->AddItem_list, c->AddItem_item, edited);
    let fin = sp_finalize(c2, tb);
    lemma_apply_revert(c, s);
    if edited.len() == 0 {
        assert(tb =~~= t.board);
        assert(fin.0 =~~= c2);
        assert(sp_revert(fin.0, Context { board: tb, clipboard: t.clipboard }) == sp_revert(
            c2,
            t,
        ));
    }
}

/// A staged list insertion whose title is still empty when editing settles
/// is rejected by `finalize`, and reverting it restores the starting state
/// exactly, list counts included.
pub proof fn lemma_staged_list_discarded(s: Context, c: CommandModel)
    requires
        sp_valid(c, s),
        c matches CommandModel::AddList { title, .. } && title == Seq::<char>::empty(),
    ensures
        ({
            let (c2, t) = sp_apply(c, s);
            let fin = sp_finalize(c2, t.board);
            &&& !fin.1
            &&& sp_revert(fin.0, t) == s
        }),
{
    let (c2, t) = sp_apply(c, s);
    let fin = sp_finalize(c2, t.board);
    lemma_apply_revert(c, s);
    assert(t.board.lists[c->AddList_list as int].name =~= Seq::<char>::empty());
    assert(fin.0 =~~= c2);
}

/// A staged text edit whose edited text equals the original when editing
/// settles is rejected by `finalize`, and reverting it restores the starting
/// state exactly.
pub proof fn lemma_staged_edit_discarded(s: Context, c: CommandModel, edited: Seq<char>)
    requires
        sp_valid(c, s),
        c is ChangeText,
        c->ChangeText_new == c->ChangeText_old,
    ensures
        ({
            let (c2, t) = sp_apply(c, s);
            let tb = sp_text_set(t.board, c->ChangeText_list, c->ChangeText_item, edited);
            let fin = sp_finalize(c2, tb);
            &&& fin.1 == (edited != c->ChangeText_old)
            &&& edited == c->ChangeText_old ==> sp_revert(
                fin.0,
                Context { board: tb, clipboard: t.clipboard },
            ) == s
        }),
{
    let (c2, t) = sp_apply(c, s);
    let tb = sp_text_set(t.board, c->ChangeText_list, c->ChangeText_item, edited);
    let fin = sp_finalize(c2, tb);
    lemma_apply_revert(c, s);
    if edited == c->ChangeText_old {
        assert(tb =~~= t.board);
        assert(fin.0 =~~= c2);
        assert(sp_revert(fin.0, Context { board: tb, clipboard: t.clipboard }) == sp_revert(
            c2,
            t,
        ));
    }
}

} // verus!
