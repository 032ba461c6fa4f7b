//! Items and lists: the two innermost layers of the board model.
//!
//! A `BoardItem` is a line of text with a done flag and an optional reference
//! (by index into the session's board table) to a child board. A `BoardList`
//! is a named, ordered sequence of items together with the index of the
//! currently selected item, if any.

use vstd::prelude::*;

verus! {

/// Mathematical model of a [`BoardItem`].
#[verifier::ext_equal]
pub struct ItemModel {
    pub text: Seq<char>,
    pub done: bool,
    pub child: Option<usize>,
}

/// Mathematical model of a [`BoardList`].
///
/// The transient column width is a layout hint and not part of the model.
#[verifier::ext_equal]
pub struct ListModel {
    pub name: Seq<char>,
    pub items: Seq<ItemModel>,
    pub selected: Option<usize>,
}

impl ListModel {
    /// A list is well formed when its selection, if present, is in bounds.
    /// An empty list therefore never carries a selection.
    pub open spec fn wf(self) -> bool {
        match self.selected {
            Some(i) => i < self.items.len(),
            None => true,
        }
    }
}

pub struct BoardItem {
    pub text: String,
    pub done: bool,
    pub board: Option<usize>,
}

impl View for BoardItem {
    type V = ItemModel;

    open spec fn view(&self) -> ItemModel {
        ItemModel { text: self.text@, done: self.done, child: self.board }
    }
}

impl BoardItem {
    pub fn new(text: &str) -> (r: Self)
        ensures
            r@ == (ItemModel { text: text@, done: false, child: None }),
    {
        Self { text: text.to_owned(), done: false, board: None }
    }

    pub fn toggle(&mut self)
        ensures
            final(self)@ == (ItemModel { done: !old(self)@.done, ..old(self)@ }),
    {
        self.done = !self.done;
    }

    /// Field-by-field copy with a known result, used where the history must
    /// retain a snapshot of an item.
    pub fn duplicate(&self) -> (r: Self)
        ensures
            r@ == self@,
    {
        BoardItem { text: self.text.clone(), done: self.done, board: self.board }
    }
}

impl crate::input::Editable for BoardItem {
    open spec fn text_model(v: ItemModel) -> Seq<char> {
        v.text
    }

    open spec fn spec_with_text(v: ItemModel, t: Seq<char>) -> ItemModel {
        ItemModel { text: t, ..v }
    }

    fn editable_text(&self) -> (r: &String) {
        &self.text
    }

    fn set_editable_text(&mut self, text: String) {
        self.text = text;
    }

    proof fn lemma_with_text_id(v: ItemModel) {
    }
}

pub struct BoardList {
    pub name: String,
    pub items: Vec<BoardItem>,
    pub selected_item_index: Option<usize>,
    /// Transient column width used by the renderer; not part of the model.
    pub width: u16,
}

impl View for BoardList {
    type V = ListModel;

    open spec fn view(&self) -> ListModel {
        ListModel {
            name: self.name@,
            items: self.items@.map_values(|it: BoardItem| it@),
            selected: self.selected_item_index,
        }
    }
}

impl crate::input::Editable for BoardList {
    open spec fn text_model(v: ListModel) -> Seq<char> {
        v.name
    }

    open spec fn spec_with_text(v: ListModel, t: Seq<char>) -> ListModel {
        ListModel { name: t, ..v }
    }

    fn editable_text(&self) -> (r: &String) {
        &self.name
    }

    fn set_editable_text(&mut self, text: String) {
        self.name = text;
    }

    proof fn lemma_with_text_id(v: ListModel) {
    }
}

/// Selection repair: a list that has items but no selection selects item 0;
/// anything else is left alone.
pub open spec fn spec_set_selection(l: ListModel) -> ListModel {
    if l.items.len() > 0 && l.selected is None {
        ListModel { selected: Some(0), ..l }
    } else {
        l
    }
}

/// Selection forced to `index`, clamped to the last item; an empty list keeps
/// no selection.
pub open spec fn spec_set_selection_index(l: ListModel, index: usize) -> ListModel {
    if l.items.len() == 0 {
        ListModel { selected: None, ..l }
    } else if index < l.items.len() {
        ListModel { selected: Some(index), ..l }
    } else {
        ListModel { selected: Some((l.items.len() - 1) as usize), ..l }
    }
}

/// Focus moved one item down, clamped at the end; a repaired selection if the
/// list had none.
pub open spec fn spec_select_next(l: ListModel) -> ListModel {
    match l.selected {
        Some(i) => if i + 1 < l.items.len() {
            ListModel { selected: Some((i + 1) as usize), ..l }
        } else {
            l
        },
        None => spec_set_selection(l),
    }
}

/// Focus moved one item up, clamped at the start; a repaired selection if the
/// list had none.
pub open spec fn spec_select_previous(l: ListModel) -> ListModel {
    match l.selected {
        Some(i) => if i > 0 {
            ListModel { selected: Some((i - 1) as usize), ..l }
        } else {
            l
        },
        None => spec_set_selection(l),
    }
}

impl BoardList {
    pub fn new(name: &str) -> (r: Self)
        ensures
            r@ == (ListModel { name: name@, items: Seq::empty(), selected: None }),
            r@.wf(),
    {
        let r = BoardList {
            name: name.to_owned(),
            items: Vec::new(),
            selected_item_index: None,
            width: 0,
        };
        proof {
            assert(r@.items =~= Seq::<ItemModel>::empty());
        }
        r
    }

    /// Snapshot copy with a known result (selection and width included).
    pub fn duplicate(&self) -> (r: Self)
        ensures
            r@ == self@,
    {
        let mut items: Vec<BoardItem> = Vec::new();
        let mut i: usize = 0;
        while i < self.items.len()
            invariant
                i <= self.items.len(),
                items@.len() == i,
                forall|j: int| 0 <= j < i ==> items@[j]@ == self.items@[j]@,
            decreases self.items.len() - i,
        {
            items.push(self.items[i].duplicate());
            i += 1;
        }
        let r = BoardList {
            name: self.name.clone(),
            items,
            selected_item_index: self.selected_item_index,
            width: self.width,
        };
        proof {
            assert(r@.items =~= self@.items);
            assert(r@ =~= self@);
        }
        r
    }

    /// Removes the item at `index` and clears the selection.
    pub fn remove_item(&mut self, index: usize)
        requires
            index < old(self)@.items.len(),
        ensures
            final(self)@ == (ListModel {
                items: old(self)@.items.remove(index as int),
                selected: None,
                ..old(self)@
            }),
    {
        self.items.remove(index);
        self.clear_selection();
    }

    pub fn select_previous(&mut self)
        requires
            old(self)@.wf(),
        ensures
            final(self)@ == spec_select_previous(old(self)@),
            final(self)@.wf(),
    {
        if let Some(selected_item_index) = self.selected_item_index {
            if selected_item_index > 0 {
                self.selected_item_index = Some(selected_item_index - 1);
            }
        } else {
            self.set_selection();
        }
    }

    pub fn select_next(&mut self)
        requires
            old(self)@.wf(),
        ensures
            final(self)@ == spec_select_next(old(self)@),
            final(self)@.wf(),
    {
        if let Some(selected_item_index) = self.selected_item_index {
            let n = self.items.len();
            if selected_item_index + 1 < n {
                self.selected_item_index = Some(selected_item_index + 1);
            }
        } else {
            self.set_selection();
        }
    }

    pub fn set_selection_index(&mut self, index: usize)
        ensures
            final(self)@ == spec_set_selection_index(old(self)@, index),
            final(self)@.wf(),
    {
        self.selected_item_index = if self.items.is_empty() {
            None
        } else if index < self.items.len() {
            Some(index)
        } else {
            Some(self.items.len() - 1)
        };
    }

    /// Ensures a non-empty list has a selection (item 0 when none was set).
    pub fn set_selection(&mut self)
        ensures
            final(self)@ == spec_set_selection(old(self)@),
    {
        if !self.items.is_empty() && self.selected_item_index.is_none() {
            self.selected_item_index = Some(0);
        }
    }

    pub fn clear_selection(&mut self)
        ensures
            final(self)@ == (ListModel { selected: None, ..old(self)@ }),
    {
        self.selected_item_index = None;
    }

    pub fn get_selected_item_text(&self) -> (r: Option<&str>)
        requires
            self@.wf(),
        ensures
            match self@.selected {
                Some(i) => r is Some && r->0@ == self@.items[i as int].text,
                None => r is None,
            },
    {
        if let Some(selected_item_index) = self.selected_item_index {
            Some(self.items[selected_item_index].text.as_str())
        } else {
            None
        }
    }

    pub fn current_item(&self) -> (r: Option<&BoardItem>)
        requires
            self@.wf(),
        ensures
            match self@.selected {
                Some(i) => r is Some && r->0@ == self@.items[i as int],
                None => r is None,
            },
    {
        if let Some(selected_item_index) = self.selected_item_index {
            Some(&self.items[selected_item_index])
        } else {
            None
        }
    }
}

} // verus!
