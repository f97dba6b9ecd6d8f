//! A one-line text field with a cursor.

use vstd::prelude::*;
use vstd::string::{StrSliceExecFns, StringExecFns};
use crate::widget::key::{KeyCode, KeyEvent};
use crate::widget::text::{byte_len, insert_at, push_repeated, remove_at, repeat, utf8_len};

verus! {

/// A text field. It takes the focus; characters go in at the cursor.
///
/// `cursor_pos` counts characters from the start of `value`. A cursor behind
/// the end of the text is treated as standing at the end wherever the text is
/// edited or drawn.
#[derive(Debug)]
pub struct Input {
    pub label: String,
    pub placeholder: String,
    pub value: String,
    pub cursor_pos: usize,
    pub focused: bool,
}

/// What a text field is, as plain data.
pub struct InputModel {
    pub label: Seq<char>,
    pub placeholder: Seq<char>,
    pub value: Seq<char>,
    pub cursor: nat,
    pub focused: bool,
}

impl InputModel {
    /// The cursor stands within the text or at its end.
    pub open spec fn cursor_in_bounds(self) -> bool {
        self.cursor <= self.value.len()
    }

    /// Where an edit takes place: the cursor, or the end of the text if the
    /// cursor lies behind it.
    pub open spec fn caret(self) -> nat {
        if self.cursor <= self.value.len() {
            self.cursor
        } else {
            self.value.len()
        }
    }

    /// The field after `c` went in at the caret; the cursor stands behind it.
    pub open spec fn inserted(self, c: char) -> InputModel {
        InputModel {
            value: self.value.insert(self.caret() as int, c),
            cursor: self.caret() + 1,
            ..self
        }
    }

    /// The field after a backspace: without the character before the caret,
    /// the cursor one to the left; unchanged if the caret is at the start.
    pub open spec fn erased(self) -> InputModel {
        if self.caret() > 0 {
            InputModel {
                value: self.value.remove(self.caret() - 1),
                cursor: (self.caret() - 1) as nat,
                ..self
            }
        } else {
            self
        }
    }

    /// The field after the cursor moved one to the left, if it was not at
    /// the start.
    pub open spec fn moved_left(self) -> InputModel {
        if self.cursor > 0 {
            InputModel { cursor: (self.cursor - 1) as nat, ..self }
        } else {
            self
        }
    }

    /// The field after the cursor moved one to the right, if it was before
    /// the end.
    pub open spec fn moved_right(self) -> InputModel {
        if self.cursor < self.value.len() {
            InputModel { cursor: self.cursor + 1, ..self }
        } else {
            self
        }
    }

    /// The field after the character `c` arrived: the backspace character
    /// erases, every other character goes in.
    pub open spec fn typed(self, c: char) -> InputModel {
        if c == '\x08' {
            self.erased()
        } else {
            self.inserted(c)
        }
    }

    /// The field after a key: characters go in, backspace erases, the arrows
    /// move the cursor, and any other key changes nothing.
    pub open spec fn after_key(self, code: KeyCode) -> InputModel {
        match code {
            KeyCode::Char(c) => self.inserted(c),
            KeyCode::Backspace => self.erased(),
            KeyCode::Left => self.moved_left(),
            KeyCode::Right => self.moved_right(),
            _ => self,
        }
    }

    /// The text that stands for the content: the value, or the dimmed
    /// placeholder while the value is empty.
    pub open spec fn shown(self) -> Seq<char> {
        if self.value.len() == 0 {
            "\x1b[2m"@ + self.placeholder + "\x1b[0m"@
        } else {
            self.value
        }
    }

    /// The content line. With `focused` it holds the marker `|` at the
    /// cursor, or at the end where the cursor lies behind the shown text.
    pub open spec fn display(self, focused: bool) -> Seq<char> {
        if focused {
            let shown = self.shown();
            let at = if self.cursor <= shown.len() {
                self.cursor as int
            } else {
                shown.len() as int
            };
            shown.insert(at, '|')
        } else {
            self.shown()
        }
    }

    /// The number of strokes under the content line: as many as the line has
    /// bytes in UTF-8, and ten at least.
    pub open spec fn underline_len(self, focused: bool) -> nat {
        let n = byte_len(self.display(focused));
        if n >= 10 {
            n
        } else {
            10
        }
    }

    /// The rendered field: the label, the content line and a coloured
    /// underline, separated by line feeds.
    pub open spec fn render(self, focused: bool) -> Seq<char> {
        self.label + "\n"@ + self.display(focused) + "\n"@ + "\x1b[38;5;205m"@ + repeat(
            "\u{e2}\u{201d}\u{20ac}"@,
            self.underline_len(focused),
        ) + "\x1b[0m"@
    }

    /// Every edit and every cursor move leaves a cursor that was within the
    /// text within the text.
    pub proof fn cursor_stays_in_bounds(self, code: KeyCode)
        requires
            self.cursor_in_bounds(),
        ensures
            self.after_key(code).cursor_in_bounds(),
    {
    }

    /// A backspace with the cursor at the start changes nothing.
    pub proof fn backspace_at_start_is_noop(self)
        requires
            self.cursor == 0,
        ensures
            self.erased() == self,
    {
    }
}

impl View for Input {
    type V = InputModel;

    open spec fn view(&self) -> InputModel {
        InputModel {
            label: self.label@,
            placeholder: self.placeholder@,
            value: self.value@,
            cursor: self.cursor_pos as nat,
            focused: self.focused,
        }
    }
}

impl Input {
    /// An empty, unfocused field with the given label and placeholder.
    pub fn new(label: &str, placeholder: &str) -> (input: Input)
        ensures
            input@ == (InputModel {
                label: label@,
                placeholder: placeholder@,
                value: Seq::empty(),
                cursor: 0,
                focused: false,
            }),
    {
        Input {
            label: String::from_str(label),
            placeholder: String::from_str(placeholder),
            value: String::new(),
            cursor_pos: 0,
            focused: false,
        }
    }

    /// Records whether the field has the focus.
    pub fn set_focus(&mut self, focus: bool)
        ensures
            final(self)@ == (InputModel { focused: focus, ..old(self)@ }),
    {
        self.focused = focus;
    }

    /// Applies one key to the field, whether it is a press or not.
    pub fn handle_event(&mut self, event: KeyEvent)
        ensures
            final(self)@ == old(self)@.after_key(event.code),
    {
        match event.code {
            KeyCode::Char(c) => self.insert_char(c),
            KeyCode::Backspace => self.handle_backspace(),
            KeyCode::Left => self.move_cursor_left(),
            KeyCode::Right => self.move_cursor_right(),
            _ => {},
        }
    }

    /// Puts `c` in at the caret and moves the cursor behind it.
    pub fn insert_char(&mut self, c: char)
        ensures
            final(self)@ == old(self)@.inserted(c),
    {
        let len = self.value.as_str().unicode_len();
        let caret = if self.cursor_pos <= len {
            self.cursor_pos
        } else {
            len
        };
        let (value, behind) = insert_at(self.value.as_str(), caret, c);
        self.value = value;
        self.cursor_pos = behind;
    }

    /// Takes one character as typed: the backspace character erases, every
    /// other character goes in at the caret.
    pub fn handle_char(&mut self, c: char)
        ensures
            final(self)@ == old(self)@.typed(c),
    {
        if c == '\x08' {
            self.handle_backspace();
        } else {
            self.insert_char(c);
        }
    }

    /// Removes the character before the caret, if there is one.
    pub fn handle_backspace(&mut self)
        ensures
            final(self)@ == old(self)@.erased(),
    {
        let len = self.value.as_str().unicode_len();
        let caret = if self.cursor_pos <= len {
            self.cursor_pos
        } else {
            len
        };
        if caret > 0 {
            let value = remove_at(self.value.as_str(), caret - 1);
            self.value = value;
            self.cursor_pos = caret - 1;
        }
    }

    /// The field as three lines of text in one string; `focused` asks for
    /// the cursor marker.
    pub fn render(&self, focused: bool) -> (text: String)
        ensures
            text@ == self@.render(focused),
    {
        let mut shown = String::new();
        if self.value.as_str().unicode_len() == 0 {
            shown.append("\x1b[2m");
            shown.append(self.placeholder.as_str());
            shown.append("\x1b[0m");
        } else {
            shown.append(self.value.as_str());
        }
        let display = if focused {
            let len = shown.as_str().unicode_len();
            let at = if self.cursor_pos <= len {
                self.cursor_pos
            } else {
                len
            };
            insert_at(shown.as_str(), at, '|').0
        } else {
            shown
        };
        let width = utf8_len(display.as_str());
        let strokes = if width >= 10 {
            width
        } else {
            10
        };
        let mut out = String::new();
        out.append(self.label.as_str());
        out.append("\n");
        out.append(display.as_str());
        out.append("\n");
        out.append("\x1b[38;5;205m");
        push_repeated(&mut out, "\u{e2}\u{201d}\u{20ac}", strokes);
        out.append("\x1b[0m");
        proof {
            assert(display@ == self@.display(focused));
            assert(out@ =~= self@.render(focused));
        }
        out
    }

    /// Moves the cursor one to the left, if it is not at the start.
    pub fn move_cursor_left(&mut self)
        ensures
            final(self)@ == old(self)@.moved_left(),
    {
        if self.cursor_pos > 0 {
            self.cursor_pos = self.cursor_pos - 1;
        }
    }

    /// Moves the cursor one to the right, if it is before the end.
    pub fn move_cursor_right(&mut self)
        ensures
            final(self)@ == old(self)@.moved_right(),
    {
        let len = self.value.as_str().unicode_len();
        if self.cursor_pos < len {
            self.cursor_pos = self.cursor_pos + 1;
        }
    }

    /// The text entered so far.
    pub fn get_value(&self) -> (value: &str)
        ensures
            value@ == self@.value,
    {
        self.value.as_str()
    }
}

} // verus!
