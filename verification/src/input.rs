//! The two text fields through which a point is typed in.
//!
//! While a point is being entered, each coordinate is text, not a number, so
//! that a half-typed value such as `-` or `3.` can stand in its field. Only a
//! commit turns the two texts into numbers.

use crate::decimal::{is_digit, parse_decimal, Decimal};
use crate::series::Point;
use vstd::prelude::*;

verus! {

/// The most characters a field takes.
pub const FIELD_CAPACITY: usize = 5;

/// Which of the two fields takes the next character.
#[derive(Clone, Copy, Debug, PartialEq, Eq, Structural)]
pub enum InputField {
    X,
    Y,
}

/// Whether a point is being typed in.
#[derive(Clone, Copy, Debug, PartialEq, Eq, Structural)]
pub enum InputMode {
    Normal,
    Insert,
}

/// The texts of the two fields and the field that is active.
pub struct InputBuffer {
    active_field: InputField,
    x_text: String,
    y_text: String,
}

/// What an input buffer is, to a specification.
pub struct InputModel {
    pub active_field: InputField,
    pub x_text: Seq<char>,
    pub y_text: Seq<char>,
}

/// A character that a field accepts: a decimal digit, a point or a minus.
pub open spec fn is_entry_char(c: char) -> bool {
    is_digit(c) || c == '.' || c == '-'
}

/// A text that a field can hold: at most five accepted characters.
pub open spec fn is_field_text(s: Seq<char>) -> bool {
    &&& s.len() <= FIELD_CAPACITY
    &&& forall|i: int| 0 <= i < s.len() ==> is_entry_char(#[trigger] s[i])
}

/// The other field.
pub open spec fn other_field(f: InputField) -> InputField {
    match f {
        InputField::X => InputField::Y,
        InputField::Y => InputField::X,
    }
}

/// The text with `c` at its end, where `c` is accepted and there is room;
/// else the text as it is.
pub open spec fn text_with(s: Seq<char>, c: char) -> Seq<char> {
    if is_entry_char(c) && s.len() < FIELD_CAPACITY {
        s.push(c)
    } else {
        s
    }
}

/// The text without its last character; an empty text stays empty.
pub open spec fn text_without_last(s: Seq<char>) -> Seq<char> {
    if s.len() > 0 {
        s.drop_last()
    } else {
        s
    }
}

impl InputModel {
    /// Both fields hold field texts.
    pub open spec fn wf(self) -> bool {
        is_field_text(self.x_text) && is_field_text(self.y_text)
    }

    /// Both fields empty, the X field active.
    pub open spec fn cleared() -> InputModel {
        InputModel { active_field: InputField::X, x_text: Seq::empty(), y_text: Seq::empty() }
    }

    /// The buffer after `c` was typed into the active field.
    pub open spec fn typed(self, c: char) -> InputModel {
        match self.active_field {
            InputField::X => InputModel { x_text: text_with(self.x_text, c), ..self },
            InputField::Y => InputModel { y_text: text_with(self.y_text, c), ..self },
        }
    }

    /// The buffer after the last character of the active field was taken
    /// back.
    pub open spec fn erased(self) -> InputModel {
        match self.active_field {
            InputField::X => InputModel { x_text: text_without_last(self.x_text), ..self },
            InputField::Y => InputModel { y_text: text_without_last(self.y_text), ..self },
        }
    }

    /// The buffer with the other field active.
    pub open spec fn cycled(self) -> InputModel {
        InputModel { active_field: other_field(self.active_field), ..self }
    }

    /// The buffer with the given field active.
    pub open spec fn focused(self, field: InputField) -> InputModel {
        InputModel { active_field: field, ..self }
    }

    /// The point that the two texts stand for, where both are decimal texts.
    pub open spec fn point(self) -> Option<Point> {
        match (parse_decimal(self.x_text), parse_decimal(self.y_text)) {
            (Some(x), Some(y)) => Some(Point { x, y }),
            _ => None,
        }
    }
}

impl View for InputBuffer {
    type V = InputModel;

    closed spec fn view(&self) -> InputModel {
        InputModel { active_field: self.active_field, x_text: self.x_text@, y_text: self.y_text@ }
    }
}

/// Whether a field accepts the character.
pub fn accepts(c: char) -> (b: bool)
    ensures
        b == is_entry_char(c),
{
    ('0' <= c && c <= '9') || c == '.' || c == '-'
}

fn push_to(text: &mut String, c: char)
    ensures
        final(text)@ == text_with(old(text)@, c),
{
    if accepts(c) && text.as_str().unicode_len() < FIELD_CAPACITY {
        text.push(c);
    }
}

fn pop_from(text: &mut String)
    ensures
        final(text)@ == text_without_last(old(text)@),
{
    let n = text.as_str().unicode_len();
    if n > 0 {
        let shorter = text.as_str().substring_char(0, n - 1).to_owned();
        *text = shorter;
    }
}

impl InputBuffer {
    /// Both fields hold field texts.
    pub open spec fn wf(&self) -> bool {
        self@.wf()
    }

    /// An empty buffer with the X field active.
    pub fn new() -> (buffer: InputBuffer)
        ensures
            buffer@ == InputModel::cleared(),
            buffer.wf(),
    {
        InputBuffer { active_field: InputField::X, x_text: String::new(), y_text: String::new() }
    }

    /// The field that takes the next character.
    pub fn active_field(&self) -> (f: InputField)
        ensures
            f == self@.active_field,
    {
        self.active_field
    }

    /// The text of the X field.
    pub fn x_text(&self) -> (s: &String)
        ensures
            s@ == self@.x_text,
    {
        &self.x_text
    }

    /// The text of the Y field.
    pub fn y_text(&self) -> (s: &String)
        ensures
            s@ == self@.y_text,
    {
        &self.y_text
    }

    /// Empties both fields and makes the X field active.
    pub fn clear(&mut self)
        ensures
            final(self)@ == InputModel::cleared(),
            final(self).wf(),
    {
        self.active_field = InputField::X;
        self.x_text = String::new();
        self.y_text = String::new();
    }

    /// Types a character into the active field. A character that is no
    /// digit, point or minus is ignored, and so is any character once the
    /// field holds five.
    pub fn push_char(&mut self, c: char)
        requires
            old(self).wf(),
        ensures
            final(self)@ == old(self)@.typed(c),
            final(self).wf(),
    {
        match self.active_field {
            InputField::X => push_to(&mut self.x_text, c),
            InputField::Y => push_to(&mut self.y_text, c),
        }
    }

    /// Takes back the last character of the active field, if it has one.
    pub fn backspace(&mut self)
        requires
            old(self).wf(),
        ensures
            final(self)@ == old(self)@.erased(),
            final(self).wf(),
    {
        match self.active_field {
            InputField::X => pop_from(&mut self.x_text),
            InputField::Y => pop_from(&mut self.y_text),
        }
    }

    /// Makes the other field active and leaves the texts as they are.
    pub fn cycle_field(&mut self)
        ensures
            final(self)@ == old(self)@.cycled(),
    {
        self.active_field =
        match self.active_field {
            InputField::X => InputField::Y,
            InputField::Y => InputField::X,
        };
    }

    /// Makes the given field active and leaves the texts as they are.
    pub fn focus(&mut self, field: InputField)
        ensures
            final(self)@ == old(self)@.focused(field),
    {
        self.active_field = field;
    }

    /// The point that the two fields stand for, where both hold a decimal
    /// text.
    pub fn parse(&self) -> (p: Option<Point>)
        ensures
            p == self@.point(),
    {
        match (Decimal::parse(self.x_text.as_str()), Decimal::parse(self.y_text.as_str())) {
            (Some(x), Some(y)) => Some(Point { x, y }),
            _ => None,
        }
    }
}

} // verus!
