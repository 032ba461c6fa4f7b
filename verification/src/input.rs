//! The in-place text editor: a cursor over the characters of an editable
//! text, driven one key at a time.
//!
//! Only character-level editing lives here. Cursor travel across word-wrapped
//! display lines is presentation work and is handled by the surrounding
//! application; the corresponding keys leave the editor state unchanged.

use vstd::prelude::*;

use crate::text::{char_is_alphanumeric, chars_of, is_alnum_of, string_of_chars};
use vstd::string::{StrSliceExecFns, StringSliceAdditionalSpecFns};
use vstd::utf8::encode_utf8;

verus! {

/// A key as the editor understands it; the application translates terminal
/// events into this form.
pub enum Key {
    Char(char),
    Backspace,
    Delete,
    Left,
    Right,
    Up,
    Down,
    Home,
    End,
    Esc,
    Enter,
    Other,
}

/// A key press together with whether the control modifier was held.
pub struct KeyEvent {
    pub code: Key,
    pub ctrl: bool,
}

impl KeyEvent {
    pub fn plain(code: Key) -> (r: KeyEvent)
        ensures
            r.code == code,
            !r.ctrl,
    {
        KeyEvent { code, ctrl: false }
    }

    pub fn control(code: Key) -> (r: KeyEvent)
        ensures
            r.code == code,
            r.ctrl,
    {
        KeyEvent { code, ctrl: true }
    }
}

/// What a key press means for the staged-edit protocol: keep editing, settle
/// the edit, or settle it and immediately start the next item.
#[derive(PartialEq, Eq, Structural)]
pub enum InputAction {
    Continue,
    Done,
    NewItem,
}

/// Anything with one editable line of text.
pub trait Editable: View + Sized {
    /// The text of a value, read off its model.
    spec fn text_model(v: Self::V) -> Seq<char>;

    /// The model with its text replaced and everything else kept.
    spec fn spec_with_text(v: Self::V, t: Seq<char>) -> Self::V;

    fn editable_text(&self) -> (r: &String)
        ensures
            r@ == Self::text_model(self@),
    ;

    fn set_editable_text(&mut self, text: String)
        ensures
            final(self)@ == Self::spec_with_text(old(self)@, text@),
            Self::text_model(final(self)@) == text@,
    ;

    /// Replacing the text with itself changes nothing.
    proof fn lemma_with_text_id(v: Self::V)
        ensures
            Self::spec_with_text(v, Self::text_model(v)) == v,
    ;
}

/// Cursor position clamped into the text.
pub open spec fn sp_clamp(text: Seq<char>, i: int) -> int {
    if i < text.len() {
        i
    } else {
        text.len() as int
    }
}

/// Whether a word starts at character `i`: the start of the text, or an
/// alphanumeric character right after a non-alphanumeric one.
pub open spec fn sp_is_word_start(text: Seq<char>, i: int) -> bool {
    if i == 0 {
        true
    } else if 0 < i < text.len() {
        !is_alnum_of(text[i - 1]) && is_alnum_of(text[i])
    } else {
        false
    }
}

/// Whether a word ends at character `i`: the end of the text, or a
/// non-alphanumeric character right after an alphanumeric one.
pub open spec fn sp_is_word_end(text: Seq<char>, i: int) -> bool {
    if i == text.len() {
        true
    } else if 0 < i < text.len() {
        is_alnum_of(text[i - 1]) && !is_alnum_of(text[i])
    } else {
        false
    }
}

/// First position at or below `i` where a word ends, not going below 0.
pub open spec fn sp_scan_word_end_down(text: Seq<char>, i: int) -> int
    decreases i,
{
    if i <= 0 {
        0
    } else if sp_is_word_end(text, i) {
        i
    } else {
        sp_scan_word_end_down(text, i - 1)
    }
}

/// First position at or above `i` where a word starts, not going above the
/// text length.
pub open spec fn sp_scan_word_start_up(text: Seq<char>, i: int) -> int
    decreases text.len() - i,
{
    if i >= text.len() {
        i
    } else if sp_is_word_start(text, i) {
        i
    } else {
        sp_scan_word_start_up(text, i + 1)
    }
}

/// The editor state after one key: the text, the cursor, and the signal
/// returned to the caller.
#[verifier::ext_equal]
pub struct EditOutcome {
    pub text: Seq<char>,
    pub cursor: int,
    pub action: InputAction,
}

/// One step of the editor on `text` with the cursor at `idx`.
///
/// Printable characters are inserted at the (clamped) cursor; backspace and
/// delete remove around it; horizontal motion clamps at the ends; control
/// with a horizontal key jumps words. Escape settles the edit and enter asks
/// for the next item. Vertical keys are left to the presentation layer and
/// change nothing here.
pub open spec fn sp_edit(text: Seq<char>, idx: int, key: KeyEvent) -> EditOutcome {
    if key.ctrl {
        match key.code {
            Key::Left => {
                let from = if idx <= 0 {
                    0
                } else {
                    idx - 1
                };
                let stop = sp_scan_word_end_down(text, sp_clamp(text, from));
                let back = if stop <= 0 {
                    0
                } else {
                    stop - 1
                };
                EditOutcome {
                    text,
                    cursor: sp_clamp(text, back),
                    action: InputAction::Continue,
                }
            },
            Key::Right => {
                let from = sp_clamp(text, idx + 1);
                let stop = sp_scan_word_start_up(text, from);
                EditOutcome { text, cursor: sp_clamp(text, stop), action: InputAction::Continue }
            },
            _ => EditOutcome { text, cursor: idx, action: InputAction::Continue },
        }
    } else {
        match key.code {
            Key::Char(c) => {
                let p = sp_clamp(text, idx);
                EditOutcome {
                    text: text.insert(p, c),
                    cursor: p + 1,
                    action: InputAction::Continue,
                }
            },
            Key::Backspace => {
                let p = sp_clamp(text, idx);
                if p > 0 {
                    EditOutcome {
                        text: text.remove(p - 1),
                        cursor: p - 1,
                        action: InputAction::Continue,
                    }
                } else {
                    EditOutcome { text, cursor: p, action: InputAction::Continue }
                }
            },
            Key::Delete => {
                let p = sp_clamp(text, idx);
                if p < text.len() {
                    EditOutcome { text: text.remove(p), cursor: p, action: InputAction::Continue }
                } else {
                    EditOutcome { text, cursor: p, action: InputAction::Continue }
                }
            },
            Key::Left => {
                let back = if idx <= 0 {
                    0
                } else {
                    idx - 1
                };
                EditOutcome { text, cursor: sp_clamp(text, back), action: InputAction::Continue }
            },
            Key::Right => EditOutcome {
                text,
                cursor: sp_clamp(text, idx + 1),
                action: InputAction::Continue,
            },
            Key::Home => EditOutcome { text, cursor: 0, action: InputAction::Continue },
            Key::End => EditOutcome {
                text,
                cursor: text.len() as int,
                action: InputAction::Continue,
            },
            Key::Esc => EditOutcome { text, cursor: idx, action: InputAction::Done },
            Key::Enter => EditOutcome { text, cursor: idx, action: InputAction::NewItem },
            _ => EditOutcome { text, cursor: idx, action: InputAction::Continue },
        }
    }
}

/// Whether a word starts at character `index` of `chars`.
pub fn is_word_start(chars: &Vec<char>, index: usize) -> (r: bool)
    ensures
        r == sp_is_word_start(chars@, index as int),
{
    if index == 0 {
        true
    } else if index < chars.len() {
        !char_is_alphanumeric(chars[index - 1]) && char_is_alphanumeric(chars[index])
    } else {
        false
    }
}

/// Whether a word ends at character `index` of `chars`.
pub fn is_word_end(chars: &Vec<char>, index: usize) -> (r: bool)
    ensures
        r == sp_is_word_end(chars@, index as int),
{
    if index == chars.len() {
        true
    } else if 0 < index && index < chars.len() {
        char_is_alphanumeric(chars[index - 1]) && !char_is_alphanumeric(chars[index])
    } else {
        false
    }
}

/// The cursor of the in-place editor: an index into the characters of the
/// text being edited, never past its end after any operation.
pub struct InputController {
    pub character_index: usize,
}

impl InputController {
    pub fn new() -> (r: Self)
        ensures
            r.character_index == 0,
    {
        InputController { character_index: 0 }
    }

    /// Byte offset of the (clamped) cursor within the text's UTF-8
    /// encoding; what a byte-oriented caller needs to index into the
    /// `String` itself.
    pub fn byte_index<T: Editable>(&self, editable: &T) -> (r: usize)
        ensures
            ({
                let text = T::text_model(editable@);
                r == encode_utf8(
                    text.take(sp_clamp(text, self.character_index as int)),
                ).len() as usize
            }),
    {
        let text = editable.editable_text().as_str();
        let n = text.unicode_len();
        let p = if self.character_index < n {
            self.character_index
        } else {
            n
        };
        let prefix = text.substring_char(0, p);
        let blen = prefix.len();
        proof {
            assert(prefix@ =~= text@.take(p as int));
            assert(prefix.spec_bytes() == encode_utf8(prefix@));
            assert(p as int == sp_clamp(text@, self.character_index as int));
        }
        blen
    }

    fn clamp_cursor<T: Editable>(&self, editable: &T, new_cursor_pos: usize) -> (r: usize)
        ensures
            r == sp_clamp(T::text_model(editable@), new_cursor_pos as int),
    {
        let chars = chars_of(editable.editable_text().as_str());
        if new_cursor_pos < chars.len() {
            new_cursor_pos
        } else {
            chars.len()
        }
    }

    fn move_cursor_left<T: Editable>(&mut self, editable: &T)
        ensures
            final(self).character_index == sp_clamp(
                T::text_model(editable@),
                if old(self).character_index == 0 {
                    0
                } else {
                    old(self).character_index - 1
                },
            ),
    {
        let cursor_moved_left = if self.character_index == 0 {
            0
        } else {
            self.character_index - 1
        };
        self.character_index = self.clamp_cursor(editable, cursor_moved_left);
    }

    fn move_cursor_right<T: Editable>(&mut self, editable: &T)
        ensures
            final(self).character_index == sp_clamp(
                T::text_model(editable@),
                old(self).character_index + 1,
            ),
    {
        let chars = chars_of(editable.editable_text().as_str());
        let n = chars.len();
        self.character_index = if self.character_index < n {
            self.character_index + 1
        } else {
            n
        };
    }

    fn move_cursor_word_left<T: Editable>(&mut self, editable: &T)
        ensures
            final(self).character_index == sp_edit(
                T::text_model(editable@),
                old(self).character_index as int,
                KeyEvent { code: Key::Left, ctrl: true },
            ).cursor,
    {
        let ghost text = T::text_model(editable@);
        let chars = chars_of(editable.editable_text().as_str());
        let from = if self.character_index == 0 {
            0
        } else {
            self.character_index - 1
        };
        let mut new_index = if from < chars.len() {
            from
        } else {
            chars.len()
        };
        while new_index > 0 && !is_word_end(&chars, new_index)
            invariant
                chars@ == text,
                0 <= new_index <= text.len(),
                sp_scan_word_end_down(text, new_index as int) == sp_scan_word_end_down(
                    text,
                    sp_clamp(text, if old(self).character_index == 0 {
                        0
                    } else {
                        old(self).character_index - 1
                    }),
                ),
            decreases new_index,
        {
            new_index -= 1;
        }
        let back = if new_index == 0 {
            0
        } else {
            new_index - 1
        };
        self.character_index = self.clamp_cursor(editable, back);
    }

    fn move_cursor_word_right<T: Editable>(&mut self, editable: &T)
        ensures
            final(self).character_index == sp_edit(
                T::text_model(editable@),
                old(self).character_index as int,
                KeyEvent { code: Key::Right, ctrl: true },
            ).cursor,
    {
        let ghost text = T::text_model(editable@);
        let chars = chars_of(editable.editable_text().as_str());
        let n = chars.len();
        let mut new_index = if self.character_index < n {
            self.character_index + 1
        } else {
            n
        };
        while new_index < n && !is_word_start(&chars, new_index)
            invariant
                chars@ == text,
                n == text.len(),
                0 <= new_index <= n,
                sp_scan_word_start_up(text, new_index as int) == sp_scan_word_start_up(
                    text,
                    sp_clamp(text, old(self).character_index + 1),
                ),
            decreases n - new_index,
        {
            new_index += 1;
        }
        self.character_index = self.clamp_cursor(editable, new_index);
    }

    fn move_cursor_to_start(&mut self)
        ensures
            final(self).character_index == 0,
    {
        self.character_index = 0;
    }

    fn move_cursor_to_end<T: Editable>(&mut self, editable: &T)
        ensures
            final(self).character_index == T::text_model(editable@).len(),
    {
        let chars = chars_of(editable.editable_text().as_str());
        self.character_index = chars.len();
    }

    fn enter_char<T: Editable>(&mut self, editable: &mut T, new_char: char)
        ensures
            ({
                let o = sp_edit(
                    T::text_model(old(editable)@),
                    old(self).character_index as int,
                    KeyEvent { code: Key::Char(new_char), ctrl: false },
                );
                &&& final(editable)@ == T::spec_with_text(old(editable)@, o.text)
                &&& final(self).character_index == o.cursor
            }),
    {
        let mut chars = chars_of(editable.editable_text().as_str());
        let p = if self.character_index < chars.len() {
            self.character_index
        } else {
            chars.len()
        };
        chars.insert(p, new_char);
        let new_len = chars.len();
        editable.set_editable_text(string_of_chars(&chars));
        proof {
            assert(p + 1 <= new_len);
        }
        self.character_index = p + 1;
    }

    fn delete_char_backwards<T: Editable>(&mut self, editable: &mut T)
        ensures
            ({
                let o = sp_edit(
                    T::text_model(old(editable)@),
                    old(self).character_index as int,
                    KeyEvent { code: Key::Backspace, ctrl: false },
                );
                &&& final(editable)@ == T::spec_with_text(old(editable)@, o.text)
                &&& final(self).character_index == o.cursor
            }),
    {
        let mut chars = chars_of(editable.editable_text().as_str());
        let p = if self.character_index < chars.len() {
            self.character_index
        } else {
            chars.len()
        };
        if p > 0 {
            chars.remove(p - 1);
            editable.set_editable_text(string_of_chars(&chars));
            self.character_index = p - 1;
        } else {
            let unchanged = string_of_chars(&chars);
            editable.set_editable_text(unchanged);
            self.character_index = p;
        }
    }

    fn delete_char<T: Editable>(&mut self, editable: &mut T)
        ensures
            ({
                let o = sp_edit(
                    T::text_model(old(editable)@),
                    old(self).character_index as int,
                    KeyEvent { code: Key::Delete, ctrl: false },
                );
                &&& final(editable)@ == T::spec_with_text(old(editable)@, o.text)
                &&& final(self).character_index == o.cursor
            }),
    {
        let mut chars = chars_of(editable.editable_text().as_str());
        let p = if self.character_index < chars.len() {
            self.character_index
        } else {
            chars.len()
        };
        if p < chars.len() {
            chars.remove(p);
            editable.set_editable_text(string_of_chars(&chars));
        } else {
            let unchanged = string_of_chars(&chars);
            editable.set_editable_text(unchanged);
        }
        self.character_index = p;
    }

    /// Feeds one key press to the editor.
    pub fn input<T: Editable>(&mut self, editable: &mut T, key: KeyEvent) -> (r: InputAction)
        ensures
            ({
                let o = sp_edit(
                    T::text_model(old(editable)@),
                    old(self).character_index as int,
                    key,
                );
                &&& final(editable)@ == T::spec_with_text(old(editable)@, o.text)
                &&& final(self).character_index == o.cursor
                &&& r == o.action
            }),
    {
        let ghost pre = old(editable)@;
        let mut acted = false;
        let mut action = InputAction::Continue;
        if key.ctrl {
            match key.code {
                Key::Left => {
                    self.move_cursor_word_left(editable);
                },
                Key::Right => {
                    self.move_cursor_word_right(editable);
                },
                _ => {},
            }
        } else {
            match key.code {
                Key::Char(to_insert) => {
                    self.enter_char(editable, to_insert);
                    acted = true;
                },
                Key::Backspace => {
                    self.delete_char_backwards(editable);
                    acted = true;
                },
                Key::Delete => {
                    self.delete_char(editable);
                    acted = true;
                },
                Key::Left => {
                    self.move_cursor_left(editable);
                },
                Key::Right => {
                    self.move_cursor_right(editable);
                },
                Key::Home => {
                    self.move_cursor_to_start();
                },
                Key::End => {
                    self.move_cursor_to_end(editable);
                },
                Key::Esc => {
                    action = InputAction::Done;
                },
                Key::Enter => {
                    action = InputAction::NewItem;
                },
                _ => {},
            }
        }
        if !acted {
            proof {
                T::lemma_with_text_id(pre);
            }
        }
        action
    }
}

} // verus!
