//! Single-line text input state: a value, a cursor position counted in
//! characters, and the prompt and placeholder texts shown around it.

use vstd::prelude::*;

use crate::strutil::push_char;

verus! {

/// Editable input line with a character cursor.
pub struct InputState {
    pub value: String,
    pub cursor: usize,
    pub prompt: String,
    pub placeholder: String,
}

impl InputState {
    /// The cursor always sits between zero and the value's length.
    pub open spec fn wf(self) -> bool {
        0 <= self.cursor <= self.value@.len()
    }

    /// An empty input with the given prompt.
    pub fn new(prompt: String) -> (r: InputState)
        ensures
            r.value@ == Seq::<char>::empty(),
            r.cursor == 0,
            r.prompt@ == prompt@,
            r.placeholder@ == Seq::<char>::empty(),
            r.wf(),
    {
        InputState { value: String::new(), cursor: 0, prompt, placeholder: String::new() }
    }

    /// The same input with a placeholder text.
    pub fn with_placeholder(self, placeholder: String) -> (r: InputState)
        ensures
            r.value@ == self.value@,
            r.cursor == self.cursor,
            r.prompt@ == self.prompt@,
            r.placeholder@ == placeholder@,
    {
        InputState { placeholder, ..self }
    }

    /// The same input pre-filled with a value, cursor at its end.
    pub fn with_value(self, value: String) -> (r: InputState)
        ensures
            r.value@ == value@,
            r.cursor == value@.len(),
            r.prompt@ == self.prompt@,
            r.placeholder@ == self.placeholder@,
            r.wf(),
    {
        let cursor = value.as_str().unicode_len();
        InputState { value, cursor, ..self }
    }

    /// Insert a character at the cursor and step past it.
    pub fn insert(&mut self, c: char)
        requires
            old(self).wf(),
            old(self).value@.len() < usize::MAX,
        ensures
            final(self).value@ == old(self).value@.subrange(0, old(self).cursor as int).push(c)
                + old(self).value@.subrange(old(self).cursor as int, old(self).value@.len() as int),
            final(self).cursor == old(self).cursor + 1,
            final(self).prompt@ == old(self).prompt@,
            final(self).placeholder@ == old(self).placeholder@,
            final(self).wf(),
    {
        let before = self.value.as_str().substring_char(0, self.cursor);
        let after = self.value.as_str().substring_char(self.cursor, self.value.as_str().unicode_len());
        let mut v = before.to_owned();
        push_char(&mut v, c);
        let v = v.concat(after);
        proof {
            assert(v@ =~= old(self).value@.subrange(0, old(self).cursor as int).push(c) + old(
                self,
            ).value@.subrange(old(self).cursor as int, old(self).value@.len() as int));
        }
        self.value = v;
        self.cursor = self.cursor + 1;
    }

    /// Delete the character before the cursor, if any, and step back.
    pub fn backspace(&mut self)
        requires
            old(self).wf(),
        ensures
            old(self).cursor == 0 ==> *final(self) == *old(self),
            old(self).cursor > 0 ==> final(self).value@ == old(self).value@.subrange(
                0,
                old(self).cursor - 1,
            ) + old(self).value@.subrange(old(self).cursor as int, old(self).value@.len() as int)
                && final(self).cursor == old(self).cursor - 1,
            final(self).prompt@ == old(self).prompt@,
            final(self).placeholder@ == old(self).placeholder@,
            final(self).wf(),
    {
        if self.cursor > 0 {
            let before = self.value.as_str().substring_char(0, self.cursor - 1);
            let after = self.value.as_str().substring_char(
                self.cursor,
                self.value.as_str().unicode_len(),
            );
            self.value = before.to_owned().concat(after);
            self.cursor = self.cursor - 1;
        }
    }

    /// Delete the character under the cursor, if any.
    pub fn delete(&mut self)
        requires
            old(self).wf(),
        ensures
            old(self).cursor == old(self).value@.len() ==> *final(self) == *old(self),
            old(self).cursor < old(self).value@.len() ==> final(self).value@ == old(
                self,
            ).value@.subrange(0, old(self).cursor as int) + old(self).value@.subrange(
                old(self).cursor + 1,
                old(self).value@.len() as int,
            ) && final(self).cursor == old(self).cursor,
            final(self).prompt@ == old(self).prompt@,
            final(self).placeholder@ == old(self).placeholder@,
            final(self).wf(),
    {
        let len = self.value.as_str().unicode_len();
        if self.cursor < len {
            let before = self.value.as_str().substring_char(0, self.cursor);
            let after = self.value.as_str().substring_char(self.cursor + 1, len);
            self.value = before.to_owned().concat(after);
        }
    }

    /// Step the cursor one character left, stopping at the start.
    pub fn move_left(&mut self)
        ensures
            final(self).cursor == if old(self).cursor > 0 {
                (old(self).cursor - 1) as usize
            } else {
                0usize
            },
            final(self).value@ == old(self).value@,
            final(self).prompt@ == old(self).prompt@,
            final(self).placeholder@ == old(self).placeholder@,
    {
        if self.cursor > 0 {
            self.cursor = self.cursor - 1;
        }
    }

    /// Step the cursor one character right, stopping at the end.
    pub fn move_right(&mut self)
        requires
            old(self).wf(),
        ensures
            final(self).cursor == if old(self).cursor < old(self).value@.len() {
                old(self).cursor + 1
            } else {
                old(self).cursor as int
            },
            final(self).value@ == old(self).value@,
            final(self).prompt@ == old(self).prompt@,
            final(self).placeholder@ == old(self).placeholder@,
            final(self).wf(),
    {
        if self.cursor < self.value.as_str().unicode_len() {
            self.cursor = self.cursor + 1;
        }
    }

    /// Jump to the start of the value.
    pub fn move_start(&mut self)
        ensures
            final(self).cursor == 0,
            final(self).value@ == old(self).value@,
            final(self).prompt@ == old(self).prompt@,
            final(self).placeholder@ == old(self).placeholder@,
            final(self).wf(),
    {
        self.cursor = 0;
    }

    /// Jump past the end of the value.
    pub fn move_end(&mut self)
        ensures
            final(self).cursor == old(self).value@.len(),
            final(self).value@ == old(self).value@,
            final(self).prompt@ == old(self).prompt@,
            final(self).placeholder@ == old(self).placeholder@,
            final(self).wf(),
    {
        self.cursor = self.value.as_str().unicode_len();
    }

    /// Clear the value and reset the cursor.
    pub fn clear(&mut self)
        ensures
            final(self).value@ == Seq::<char>::empty(),
            final(self).cursor == 0,
            final(self).prompt@ == old(self).prompt@,
            final(self).placeholder@ == old(self).placeholder@,
            final(self).wf(),
    {
        self.value = String::new();
        self.cursor = 0;
    }
}

} // verus!
