//! Filtering a board: a live search token, and the view that maps matching
//! items back to their real positions.
//!
//! The view holds, for every list, the pairs `(view row, actual index)` of
//! the items whose lowercased text contains the lowercased token. Navigation
//! through the view drives the same focus primitives as the rest of the
//! editor and never bypasses the selection invariants.

use vstd::prelude::*;

use crate::board::{Board, spec_move_down, spec_move_left, spec_move_right, spec_move_up};
use crate::input::{Editable, InputController, KeyEvent};
use crate::list::{ItemModel, ListModel, spec_set_selection};
use crate::text::{chars_of, contains_chars, lower_of, spec_contains, to_lowercase_string};

verus! {

/// The text being typed into the search prompt.
pub struct SearchToken {
    pub value: String,
}

impl View for SearchToken {
    type V = Seq<char>;

    open spec fn view(&self) -> Seq<char> {
        self.value@
    }
}

impl Editable for SearchToken {
    open spec fn text_model(v: Seq<char>) -> Seq<char> {
        v
    }

    open spec fn spec_with_text(v: Seq<char>, t: Seq<char>) -> Seq<char> {
        t
    }

    fn editable_text(&self) -> (r: &String) {
        &self.value
    }

    fn set_editable_text(&mut self, text: String) {
        self.value = text;
    }

    proof fn lemma_with_text_id(v: Seq<char>) {
    }
}

/// Whether an item's text matches a search token, both taken lowercase.
pub open spec fn sp_matches(text: Seq<char>, token: Seq<char>) -> bool {
    spec_contains(lower_of(text), lower_of(token))
}

/// The actual indices of the items of `items` that match `token`, in order.
pub open spec fn sp_match_indices(items: Seq<ItemModel>, token: Seq<char>) -> Seq<usize>
    decreases items.len(),
{
    if items.len() == 0 {
        Seq::empty()
    } else {
        let rest = sp_match_indices(items.drop_last(), token);
        if sp_matches(items.last().text, token) {
            rest.push((items.len() - 1) as usize)
        } else {
            rest
        }
    }
}

/// An index mapping over a board's current lists: for each list, the rows
/// that match the search, in order, paired with their actual item index.
pub struct FilteredBoardView {
    pub board_view: Vec<Vec<(usize, usize)>>,
}

impl View for FilteredBoardView {
    type V = Seq<Seq<(usize, usize)>>;

    open spec fn view(&self) -> Seq<Seq<(usize, usize)>> {
        self.board_view@.map_values(|l: Vec<(usize, usize)>| l@)
    }
}

/// The view still describes the board: one row list per board list, every
/// actual index in bounds, and every view row numbered by its position.
pub open spec fn sp_view_ok(v: Seq<Seq<(usize, usize)>>, b: crate::board::BoardModel) -> bool {
    &&& v.len() == b.lists.len()
    &&& forall|l: int, k: int|
        0 <= l < v.len() && 0 <= k < v[l].len() ==> (#[trigger] v[l][k]).1 < b.lists[
            l
        ].items.len() && v[l][k].0 == k
}

impl FilteredBoardView {
    pub fn new() -> (r: Self)
        ensures
            r@ =~= Seq::<Seq<(usize, usize)>>::empty(),
    {
        let r = FilteredBoardView { board_view: Vec::new() };
        proof {
            assert(r@ =~= Seq::<Seq<(usize, usize)>>::empty());
        }
        r
    }

    /// How many items of list `current_list_index` the view shows.
    pub fn view_items_in_list(&self, current_list_index: usize) -> (r: usize)
        requires
            current_list_index < self@.len(),
        ensures
            r == self@[current_list_index as int].len(),
    {
        self.board_view[current_list_index].len()
    }

    /// Whether some list left of `current_list_index` still has matches.
    pub fn view_has_items_left_of(&self, current_list_index: usize) -> (r: bool)
        requires
            current_list_index <= self@.len(),
        ensures
            r == exists|l: int|
                0 <= l < current_list_index && (#[trigger] self@[l]).len() > 0,
    {
        let mut l: usize = 0;
        while l < current_list_index
            invariant
                current_list_index <= self@.len(),
                l <= current_list_index,
                forall|j: int| 0 <= j < l ==> (#[trigger] self@[j]).len() == 0,
            decreases current_list_index - l,
        {
            if self.board_view[l].len() > 0 {
                proof {
                    assert(self@[l as int].len() > 0);
                }
                return true;
            }
            l += 1;
        }
        false
    }

    /// Whether some list right of `current_list_index` still has matches.
    pub fn view_has_items_right_of(&self, current_list_index: usize) -> (r: bool)
        requires
            current_list_index < self@.len(),
        ensures
            r == exists|l: int|
                current_list_index < l < self@.len() && (#[trigger] self@[l]).len() > 0,
    {
        let n = self.board_view.len();
        let mut l: usize = current_list_index + 1;
        while l < n
            invariant
                n == self@.len(),
                current_list_index < l <= self@.len(),
                forall|j: int|
                    current_list_index < j < l ==> (#[trigger] self@[j]).len() == 0,
            decreases self@.len() - l,
        {
            if self.board_view[l].len() > 0 {
                proof {
                    assert(self@[l as int].len() > 0);
                }
                return true;
            }
            l += 1;
        }
        false
    }

    /// Whether the view is empty at `current_list_index` with more lists to
    /// the right.
    pub fn view_list_on_right_is_empty(&self, current_list_index: usize) -> (r: bool)
        requires
            current_list_index < self@.len(),
        ensures
            r == (self@[current_list_index as int].len() == 0 && current_list_index + 1
                < self@.len()),
    {
        let n = self.board_view.len();
        self.board_view[current_list_index].len() == 0 && current_list_index + 1 < n
    }

    /// Whether the view is empty at `current_list_index` with more lists to
    /// the left.
    pub fn view_list_on_left_is_empty(&self, current_list_index: usize) -> (r: bool)
        requires
            current_list_index < self@.len(),
        ensures
            r == (current_list_index > 0 && self@[current_list_index as int].len() == 0),
    {
        current_list_index > 0 && self.board_view[current_list_index].len() == 0
    }

    /// The actual item index behind view row `view_index` of list
    /// `current_list_index`.
    pub fn actual_index_for_reflected_item(
        &self,
        current_list_index: usize,
        view_index: usize,
    ) -> (r: usize)
        requires
            current_list_index < self@.len(),
            view_index < self@[current_list_index as int].len(),
        ensures
            r == self@[current_list_index as int][view_index as int].1,
    {
        self.board_view[current_list_index][view_index].1
    }

    /// The first place the view can select: the first list with a match,
    /// and that match's view row.
    pub fn available_view_selection(&self) -> (r: Option<(usize, usize)>)
        ensures
            match r {
                Some((l, k)) => {
                    &&& l < self@.len()
                    &&& self@[l as int].len() > 0
                    &&& k == self@[l as int][0].0
                    &&& forall|j: int| 0 <= j < l ==> (#[trigger] self@[j]).len() == 0
                },
                None => forall|j: int| 0 <= j < self@.len() ==> (#[trigger] self@[j]).len() == 0,
            },
    {
        let mut l: usize = 0;
        while l < self.board_view.len()
            invariant
                l <= self@.len(),
                forall|j: int| 0 <= j < l ==> (#[trigger] self@[j]).len() == 0,
            decreases self@.len() - l,
        {
            if self.board_view[l].len() > 0 {
                proof {
                    assert(self@[l as int].len() > 0);
                }
                return Some((l, self.board_view[l][0].0));
            }
            l += 1;
        }
        None
    }

    /// Moves the board's focus through the view: vertical keys step within
    /// the matches of the focused list, horizontal keys skip lists the view
    /// left empty. The board's lists and items are never changed, only
    /// focus and selection.
    pub fn navigate_actual_board(&self, board: &mut Board, key: &KeyEvent)
        requires
            old(board)@.wf(),
            sp_view_ok(self@, old(board)@),
        ensures
            final(board)@.wf(),
            final(board)@.lists.len() == old(board)@.lists.len(),
            forall|j: int|
                0 <= j < final(board)@.lists.len() ==> (#[trigger] final(board)@.lists[j]).items
                    == old(board)@.lists[j].items && final(board)@.lists[j].name == old(
                    board,
                )@.lists[j].name,
    {
        match key.code {
            crate::input::Key::Down => {
                if let Some(current_list_index) = board.current_list {
                    let shown = self.view_items_in_list(current_list_index);
                    let sel = board.get_current_selection_index();
                    if shown > 0 && sel < shown - 1 {
                        board.move_down();
                    }
                }
                proof {
                    lemma_nav_preserves_content(old(board)@, board@);
                }
            },
            crate::input::Key::Up => {
                board.move_up();
                proof {
                    lemma_nav_preserves_content(old(board)@, board@);
                }
            },
            crate::input::Key::Right => {
                if let Some(start) = board.current_list {
                    let nv = self.board_view.len();
                    let mut current_list_index = start;
                    if self.view_has_items_right_of(current_list_index) {
                        let ghost prev = board@;
                        board.move_right();
                        current_list_index += 1;
                        proof {
                            lemma_nav_preserves_content(prev, board@);
                        }
                    }
                    while current_list_index < nv && self.view_list_on_right_is_empty(
                        current_list_index,
                    )
                        invariant
                            board@.wf(),
                            sp_view_ok(self@, board@),
                            nv == self@.len(),
                            current_list_index <= nv,
                            board@.lists.len() == old(board)@.lists.len(),
                            forall|j: int|
                                0 <= j < board@.lists.len() ==> (#[trigger] board@.lists[
                                    j
                                ]).items == old(board)@.lists[j].items && board@.lists[j].name
                                    == old(board)@.lists[j].name,
                        decreases self@.len() - current_list_index,
                    {
                        let ghost prev = board@;
                        board.move_right();
                        current_list_index += 1;
                        proof {
                            lemma_nav_preserves_content(prev, board@);
                        }
                    }
                }
            },
            crate::input::Key::Left => {
                if let Some(start) = board.current_list {
                    let nv = self.board_view.len();
                    let mut current_list_index = start;
                    if self.view_has_items_left_of(current_list_index) {
                        let ghost prev = board@;
                        board.move_left();
                        if current_list_index > 0 {
                            current_list_index -= 1;
                        }
                        proof {
                            lemma_nav_preserves_content(prev, board@);
                        }
                    }
                    while current_list_index < nv && self.view_list_on_left_is_empty(
                        current_list_index,
                    )
                        invariant
                            board@.wf(),
                            sp_view_ok(self@, board@),
                            nv == self@.len(),
                            current_list_index < nv,
                            board@.lists.len() == old(board)@.lists.len(),
                            forall|j: int|
                                0 <= j < board@.lists.len() ==> (#[trigger] board@.lists[
                                    j
                                ]).items == old(board)@.lists[j].items && board@.lists[j].name
                                    == old(board)@.lists[j].name,
                        decreases current_list_index,
                    {
                        let ghost prev = board@;
                        board.move_left();
                        current_list_index -= 1;
                        proof {
                            lemma_nav_preserves_content(prev, board@);
                        }
                    }
                }
            },
            _ => {},
        }
    }

    /// Lands the board's real selection on the item behind the row the view
    /// had selected, clamped into the view.
    pub fn select_item_from_view(&self, board: &mut Board)
        requires
            old(board)@.wf(),
            sp_view_ok(self@, old(board)@),
            match old(board)@.current {
                Some(c) => self@[c as int].len() > 0,
                None => true,
            },
        ensures
            final(board)@.wf(),
            match old(board)@.current {
                Some(c) => {
                    let rows = self@[c as int];
                    let sel = match old(board)@.lists[c as int].selected {
                        Some(i) => i,
                        None => 0usize,
                    };
                    let row: int = if sel < rows.len() {
                        sel as int
                    } else {
                        rows.len() - 1
                    };
                    final(board)@ == (crate::board::BoardModel {
                        lists: old(board)@.lists.update(
                            c as int,
                            ListModel {
                                selected: Some(rows[row].1),
                                ..old(board)@.lists[c as int]
                            },
                        ),
                        ..old(board)@
                    })
                },
                None => final(board)@ == old(board)@,
            },
    {
        if let Some(current_list_index) = board.current_list {
            let shown = self.view_items_in_list(current_list_index);
            let sel = board.get_current_selection_index();
            let row = if sel < shown {
                sel
            } else {
                shown - 1
            };
            let mapped = self.actual_index_for_reflected_item(current_list_index, row);
            let list = &mut board.lists[current_list_index];
            list.selected_item_index = Some(mapped);
            proof {
                assert(board@ =~~= (crate::board::BoardModel {
                    lists: old(board)@.lists.update(
                        current_list_index as int,
                        ListModel {
                            selected: Some(mapped),
                            ..old(board)@.lists[current_list_index as int]
                        },
                    ),
                    ..old(board)@
                }));
            }
        }
    }

    /// Clears every selection, then lands on the first match the view still
    /// shows, if any.
    pub fn update_view_selection(&self, board: &mut Board)
        requires
            old(board)@.wf(),
            sp_view_ok(self@, old(board)@),
        ensures
            final(board)@.wf(),
            final(board)@.lists.len() == old(board)@.lists.len(),
            forall|j: int|
                0 <= j < final(board)@.lists.len() ==> (#[trigger] final(board)@.lists[j]).items
                    == old(board)@.lists[j].items && final(board)@.lists[j].name == old(
                    board,
                )@.lists[j].name,
    {
        let mut l: usize = 0;
        let n = board.lists.len();
        while l < n
            invariant
                board@.wf(),
                n == board@.lists.len(),
                l <= n,
                board@.lists.len() == old(board)@.lists.len(),
                board@.current == old(board)@.current,
                forall|j: int|
                    0 <= j < board@.lists.len() ==> (#[trigger] board@.lists[j]).items == old(
                        board,
                    )@.lists[j].items && board@.lists[j].name == old(board)@.lists[j].name,
            decreases n - l,
        {
            let ghost prev = board@;
            let list = &mut board.lists[l];
            list.clear_selection();
            proof {
                assert forall|j: int|
                    0 <= j < board@.lists.len() implies (#[trigger] board@.lists[j]).items
                    == old(board)@.lists[j].items && board@.lists[j].name == old(board)@.lists[
                    j
                ].name && board@.lists[j].wf() by {
                    if j != l {
                        assert(board@.lists[j] == prev.lists[j]);
                    } else {
                        assert(board@.lists[j] == (ListModel {
                            selected: None,
                            ..prev.lists[j]
                        }));
                    }
                }
            }
            l += 1;
        }
        board.current_list = None;
        if let Some((list_index, row)) = self.available_view_selection() {
            let ghost prev = board@;
            board.current_list = Some(list_index);
            let list = &mut board.lists[list_index];
            list.set_selection_index(row);
            list.set_selection();
            proof {
                assert forall|j: int|
                    0 <= j < board@.lists.len() implies (#[trigger] board@.lists[j]).items
                    == prev.lists[j].items && board@.lists[j].name == prev.lists[j].name
                    && board@.lists[j].wf() by {
                    if j != list_index {
                        assert(board@.lists[j] == prev.lists[j]);
                    }
                }
            }
        }
        proof {
            assert forall|j: int|
                0 <= j < board@.lists.len() implies (#[trigger] board@.lists[j]).items == old(
                board,
            )@.lists[j].items && board@.lists[j].name == old(board)@.lists[j].name by {
            }
        }
    }
}

/// Focus movement never changes a board's lists or items, only which list
/// and item are selected.
proof fn lemma_nav_preserves_content(b0: crate::board::BoardModel, b1: crate::board::BoardModel)
    requires
        b0.wf(),
        b1 == spec_move_down(b0) || b1 == spec_move_up(b0) || b1 == spec_move_right(b0) || b1
            == spec_move_left(b0) || b1 == b0,
    ensures
        b1.lists.len() == b0.lists.len(),
        forall|j: int|
            0 <= j < b1.lists.len() ==> (#[trigger] b1.lists[j]).items == b0.lists[j].items
                && b1.lists[j].name == b0.lists[j].name,
{
    if b1 == b0 {
    } else if b1 == spec_move_down(b0) {
        match b0.current {
            Some(c) => {
                assert(b1.lists == b0.lists.update(
                    c as int,
                    crate::list::spec_select_next(b0.lists[c as int]),
                ));
                assert(b1.lists.len() == b0.lists.len());
            },
            None => {},
        }
    } else if b1 == spec_move_up(b0) {
        match b0.current {
            Some(c) => {
                assert(b1.lists == b0.lists.update(
                    c as int,
                    crate::list::spec_select_previous(b0.lists[c as int]),
                ));
                assert(b1.lists.len() == b0.lists.len());
            },
            None => {},
        }
    } else if b1 == spec_move_right(b0) {
        match b0.current {
            Some(c) => {
                if c + 1 < b0.lists.len() {
                    assert(b1.lists == b0.lists.update(
                        c + 1,
                        spec_set_selection(b0.lists[c + 1]),
                    ));
                    assert(b1.lists.len() == b0.lists.len());
                }
            },
            None => {
                assert(b1.lists == b0.lists);
            },
        }
    } else {
        match b0.current {
            Some(c) => {
                if c > 0 {
                    assert(b1.lists == b0.lists.update(
                        c - 1,
                        spec_set_selection(b0.lists[c - 1]),
                    ));
                    assert(b1.lists.len() == b0.lists.len());
                }
            },
            None => {
                assert(b1.lists == b0.lists);
            },
        }
    }
    assert forall|j: int|
        0 <= j < b1.lists.len() implies (#[trigger] b1.lists[j]).items == b0.lists[j].items
        && b1.lists[j].name == b0.lists[j].name by {
        if b1.lists[j] != b0.lists[j] {
            let l0 = b0.lists[j];
            assert(b1.lists[j] == crate::list::spec_select_next(l0) || b1.lists[j]
                == crate::list::spec_select_previous(l0) || b1.lists[j] == spec_set_selection(
                l0,
            ));
            lemma_select_variant_content(l0, b1.lists[j]);
        }
    }
}

/// Selection movement within one list never changes its items or name.
proof fn lemma_select_variant_content(l0: ListModel, l1: ListModel)
    requires
        l1 == crate::list::spec_select_next(l0) || l1 == crate::list::spec_select_previous(l0)
            || l1 == spec_set_selection(l0) || l1 == l0,
    ensures
        l1.items == l0.items,
        l1.name == l0.name,
{
}

/// The live search: the token being typed and the cursor typing it.
pub struct SearchController {
    pub token: SearchToken,
    pub input: InputController,
}

impl SearchController {
    pub fn new() -> (r: Self)
        ensures
            r.token@ =~= Seq::<char>::empty(),
            r.input.character_index == 0,
    {
        SearchController { token: SearchToken { value: String::new() }, input: InputController::new() }
    }

    /// The token as typed so far.
    pub fn query(&self) -> (r: &String)
        ensures
            r@ == self.token@,
    {
        &self.token.value
    }

    /// Where the cursor stands in the token.
    pub fn cursor(&self) -> (r: usize)
        ensures
            r == self.input.character_index,
    {
        self.input.character_index
    }

    /// Feeds one key to the token editor and hands back the token as it now
    /// stands.
    pub fn input(&mut self, key: KeyEvent) -> (r: String)
        ensures
            ({
                let o = crate::input::sp_edit(
                    old(self).token@,
                    old(self).input.character_index as int,
                    key,
                );
                &&& final(self).token@ == o.text
                &&& final(self).input.character_index == o.cursor
                &&& r@ == o.text
            }),
    {
        self.input.input(&mut self.token, key);
        self.token.value.clone()
    }

    /// Starts a fresh search.
    pub fn clear(&mut self)
        ensures
            final(self).token@ =~= Seq::<char>::empty(),
            final(self).input.character_index == 0,
    {
        self.input.character_index = 0;
        self.token.value = String::new();
    }

    /// Builds the view of `board` under the current token: for every list,
    /// the rows whose lowercased text contains the lowercased token, in
    /// order, paired with their actual index.
    pub fn reflect(&self, board: &Board) -> (r: FilteredBoardView)
        requires
            board@.wf(),
        ensures
            r@.len() == board@.lists.len(),
            forall|l: int|
                0 <= l < r@.len() ==> (#[trigger] r@[l]).len() == sp_match_indices(
                    board@.lists[l].items,
                    self.token@,
                ).len(),
            forall|l: int, k: int|
                0 <= l < r@.len() && 0 <= k < r@[l].len() ==> (#[trigger] r@[l][k]).0 == k && r@[
                    l
                ][k].1 == sp_match_indices(board@.lists[l].items, self.token@)[k],
            sp_view_ok(r@, board@),
    {
        let needle = chars_of(to_lowercase_string(self.token.value.as_str()).as_str());
        let mut board_view: Vec<Vec<(usize, usize)>> = Vec::new();
        let mut l: usize = 0;
        let n = board.lists.len();
        while l < n
            invariant
                board@.wf(),
                needle@ == lower_of(self.token@),
                n == board@.lists.len(),
                l <= n,
                board_view@.len() == l,
                forall|j: int|
                    0 <= j < l ==> (#[trigger] board_view@[j])@.len() == sp_match_indices(
                        board@.lists[j].items,
                        self.token@,
                    ).len(),
                forall|j: int, k: int|
                    0 <= j < l && 0 <= k < board_view@[j]@.len() ==> (#[trigger] board_view@[
                        j
                    ]@[k]).0 == k && board_view@[j]@[k].1 == sp_match_indices(
                        board@.lists[j].items,
                        self.token@,
                    )[k],
            decreases n - l,
        {
            let mut list_view: Vec<(usize, usize)> = Vec::new();
            let mut index: usize = 0;
            let m = board.lists[l].items.len();
            while index < m
                invariant
                    board@.wf(),
                    needle@ == lower_of(self.token@),
                    l < board@.lists.len(),
                    m == board@.lists[l as int].items.len(),
                    index <= m,
                    list_view@.len() == sp_match_indices(
                        board@.lists[l as int].items.take(index as int),
                        self.token@,
                    ).len(),
                    forall|k: int|
                        0 <= k < list_view@.len() ==> (#[trigger] list_view@[k]).0 == k
                            && list_view@[k].1 == sp_match_indices(
                            board@.lists[l as int].items.take(index as int),
                            self.token@,
                        )[k],
                decreases m - index,
            {
                let ghost items = board@.lists[l as int].items;
                let hay = chars_of(
                    to_lowercase_string(board.lists[l].items[index].text.as_str()).as_str(),
                );
                proof {
                    assert(items.take(index + 1).drop_last() =~= items.take(index as int));
                    assert(items.take(index + 1).last() == items[index as int]);
                }
                if contains_chars(&hay, &needle) {
                    let row = list_view.len();
                    list_view.push((row, index));
                }
                index += 1;
            }
            proof {
                assert(board@.lists[l as int].items.take(m as int) =~= board@.lists[
                    l as int
                ].items);
            }
            board_view.push(list_view);
            l += 1;
        }
        let r = FilteredBoardView { board_view };
        proof {
            assert forall|l0: int, k: int|
                0 <= l0 < r@.len() && 0 <= k < r@[l0].len() implies (#[trigger] r@[l0][k]).1
                < board@.lists[l0].items.len() && r@[l0][k].0 == k by {
                lemma_match_indices_bounds(board@.lists[l0].items, self.token@);
            }
        }
        r
    }
}

/// The indices collected by [`sp_match_indices`] are all in bounds.
proof fn lemma_match_indices_bounds(items: Seq<ItemModel>, token: Seq<char>)
    ensures
        forall|k: int|
            0 <= k < sp_match_indices(items, token).len() ==> (#[trigger] sp_match_indices(
                items,
                token,
            )[k]) < items.len(),
    decreases items.len(),
{
    if items.len() > 0 {
        lemma_match_indices_bounds(items.drop_last(), token);
        let rest = sp_match_indices(items.drop_last(), token);
        assert forall|k: int|
            0 <= k < sp_match_indices(items, token).len() implies (#[trigger] sp_match_indices(
            items,
            token,
        )[k]) < items.len() by {
            if k < rest.len() {
                assert(sp_match_indices(items, token)[k] == rest[k]);
                assert(rest[k] < items.drop_last().len());
            } else {
                assert(sp_match_indices(items, token)[k] == (items.len() - 1) as usize);
            }
        }
    }
}

} // verus!
