//! Editable fields: the data of a field and the edits a key makes to it.

use crate::event::{Event, EventHandlerResult, EventResult, KeyCode};
use crate::pos::Pos;
use crate::text::{spec_delete, spec_set_char};
use std::cmp::Ordering;
use vstd::prelude::*;
use vstd::std_specs::cmp::{PartialEqSpecImpl, PartialOrdSpecImpl};

verus! {

/// Whether a field offers a choice picker, and of which kind.
#[derive(Debug, Clone, Copy, PartialEq, Eq, Structural)]
pub enum Select {
    /// The field has no choices.
    NoSelect,
    /// One choice at most can be taken.
    Single,
    /// Any number of choices can be taken.
    Multi,
}

/// An input field: a named run of `length` cells anchored at `pos`.
///
/// A field can mask what is typed (passwords), restrict the characters it
/// takes (numbers), and carry a list of choices for the picker.
#[derive(Debug, Clone)]
pub struct Input {
    pub pos: Pos,
    pub length: u16,
    pub name: String,
    pub value: String,
    pub default_value: String,
    pub allowed_characters: Option<Vec<char>>,
    pub mask_char: Option<char>,
    pub select: Select,
    pub select_static: Vec<(String, String)>,
}

/// What a field holds, as mathematical values.
pub struct InputView {
    pub pos: Pos,
    pub length: u16,
    pub name: Seq<char>,
    pub value: Seq<char>,
    pub default_value: Seq<char>,
    pub allowed_characters: Option<Seq<char>>,
    pub mask_char: Option<char>,
    pub select: Select,
    pub select_static: Seq<(Seq<char>, Seq<char>)>,
}

/// The `(id, text)` pairs of a choice list, as sequences of characters.
pub open spec fn choices_view(choices: Seq<(String, String)>) -> Seq<(Seq<char>, Seq<char>)> {
    choices.map_values(|c: (String, String)| (c.0@, c.1@))
}

impl View for Input {
    type V = InputView;

    open spec fn view(&self) -> InputView {
        InputView {
            pos: self.pos,
            length: self.length,
            name: self.name@,
            value: self.value@,
            default_value: self.default_value@,
            allowed_characters: match self.allowed_characters {
                Some(v) => Some(v@),
                None => None,
            },
            mask_char: self.mask_char,
            select: self.select,
            select_static: choices_view(self.select_static@),
        }
    }
}

impl InputView {
    /// The cursor is on the field, or on the cell just past its end.
    pub open spec fn has_focus(self, cursor: Pos) -> bool {
        cursor.spec_within(self.pos, self.length) is Some
    }

    /// The column just past the field's last cell, kept on the coordinate grid.
    pub open spec fn end_x(self) -> u16 {
        if self.pos.x + self.length > u16::MAX {
            u16::MAX
        } else {
            (self.pos.x + self.length) as u16
        }
    }

    /// The field with `value` in place of its value.
    pub open spec fn with_value(self, value: Seq<char>) -> InputView {
        InputView { value, ..self }
    }

    /// Typing `key` at `cursor`. On a cell of the field the character lands
    /// at the cursor's offset and the cursor steps right, staying on the
    /// field. On the cell just past the field's end, or further right, the
    /// field is full: nothing is written and the cursor stays.
    pub open spec fn key(self, key: char, cursor: Pos) -> (InputView, Pos) {
        if cursor.x - self.pos.x >= self.length {
            (self, cursor)
        } else {
            (
                self.with_value(spec_set_char(self.value, cursor.x - self.pos.x, key)),
                cursor.spec_move_x(1i16, self.end_x()),
            )
        }
    }

    /// Backspace at `cursor`: nothing at the field's first cell; elsewhere the
    /// cursor steps left and the character now under it goes.
    pub open spec fn key_backspace(self, cursor: Pos) -> (InputView, Pos) {
        if cursor.x == self.pos.x {
            (self, cursor)
        } else {
            (
                self.with_value(spec_delete(self.value, cursor.x - self.pos.x - 1)),
                cursor.spec_move_x(-1i16, self.end_x()),
            )
        }
    }

    /// Delete at `cursor`: the character under the cursor goes.
    pub open spec fn key_delete(self, cursor: Pos) -> InputView {
        self.with_value(spec_delete(self.value, cursor.x - self.pos.x))
    }

    /// The field takes `key`: it has no allowed-character set, or `key` is in it.
    pub open spec fn accepts(self, key: char) -> bool {
        match self.allowed_characters {
            Some(allowed) => allowed.contains(key),
            None => true,
        }
    }

    /// What the field makes of `event` with the cursor at `cursor`: the field
    /// after it, the cursor after it, and whether the field claimed the event.
    pub open spec fn handle(self, event: Event, cursor: Pos) -> (InputView, Pos, EventHandlerResult) {
        let handled = EventHandlerResult::Handled(EventResult::Nothing);
        match event {
            Event::Key(k) => {
                if k.code == KeyCode::Backspace {
                    (self.key_backspace(cursor).0, self.key_backspace(cursor).1, handled)
                } else if k.code == KeyCode::Delete {
                    (self.key_delete(cursor), cursor, handled)
                } else if k.modifiers.is_empty() {
                    match k.code {
                        KeyCode::Char(c) => {
                            if self.accepts(c) {
                                (self.key(c, cursor).0, self.key(c, cursor).1, handled)
                            } else {
                                (self, cursor, handled)
                            }
                        },
                        _ => (self, cursor, EventHandlerResult::NotHandled),
                    }
                } else {
                    (self, cursor, EventHandlerResult::NotHandled)
                }
            },
            Event::Other => (self, cursor, EventHandlerResult::NotHandled),
        }
    }
}

/// Typing stays within the field. With the cursor on a field that lies on
/// the coordinate grid: on a cell of the field the character lands at the
/// cursor's offset, every other character stays, and the cursor ends in the
/// same row one cell to the right, or where it was on the field's last
/// cell; on the cell just past the field's end nothing changes. Either way
/// a value that fits the field's width keeps fitting it, and no value is
/// shortened.
pub proof fn lemma_typing_stays_on_the_field(field: InputView, key: char, cursor: Pos)
    requires
        field.has_focus(cursor),
        field.pos.x + field.length <= u16::MAX,
    ensures
        cursor.x - field.pos.x == field.length ==> field.key(key, cursor) == (field, cursor),
        cursor.x - field.pos.x < field.length ==> {
            &&& field.key(key, cursor).0 == field.with_value(
                spec_set_char(field.value, cursor.x - field.pos.x, key),
            )
            &&& field.key(key, cursor).0.value[cursor.x - field.pos.x] == key
            &&& field.key(key, cursor).1.x == (if cursor.x + 1 < field.pos.x + field.length {
                cursor.x + 1
            } else {
                cursor.x as int
            })
        },
        field.key(key, cursor).1.y == cursor.y,
        field.pos.x <= field.key(key, cursor).1.x <= field.pos.x + field.length,
        field.value.len() <= field.length ==> field.key(key, cursor).0.value.len()
            <= field.length,
        field.key(key, cursor).0.value.len() >= field.value.len(),
        forall|i: int|
            0 <= i < field.value.len() && i != cursor.x - field.pos.x ==> field.key(
                key,
                cursor,
            ).0.value[i] == field.value[i],
{
}

/// Backspace keeps the cursor on the field. With the cursor on a field that
/// lies on the coordinate grid, past its first cell, the cursor ends one
/// cell to the left, the character there is gone, and what followed it has
/// moved one place left; where there was no character, only the cursor
/// moves.
pub proof fn lemma_backspace_steps_left(field: InputView, cursor: Pos)
    requires
        field.has_focus(cursor),
        cursor.x > field.pos.x,
        field.pos.x + field.length <= u16::MAX,
    ensures
        field.key_backspace(cursor).1.x == cursor.x - 1,
        field.key_backspace(cursor).1.y == cursor.y,
        field.key_backspace(cursor).0.value == spec_delete(
            field.value,
            cursor.x - field.pos.x - 1,
        ),
        cursor.x - field.pos.x - 1 >= field.value.len() ==> field.key_backspace(cursor).0
            == field,
{
}

/// True when `c` occurs in `chars`.
pub fn contains_char(chars: &Vec<char>, c: char) -> (r: bool)
    ensures
        r == chars@.contains(c),
{
    let mut i: usize = 0;
    while i < chars.len()
        invariant
            i <= chars.len(),
            forall|j: int| 0 <= j < i ==> chars@[j] != c,
        decreases chars.len() - i,
    {
        if chars[i] == c {
            return true;
        }
        i = i + 1;
    }
    false
}

impl Input {
    /// True when the cursor is on the field or on the cell just past its end.
    pub fn has_focus(&self, cursor: Pos) -> (r: bool)
        ensures
            r == self@.has_focus(cursor),
    {
        cursor.within(self.pos, self.length).is_some()
    }

    /// The column just past the field's last cell, kept on the coordinate grid.
    pub fn end_x(&self) -> (r: u16)
        ensures
            r == self@.end_x(),
    {
        if self.length > u16::MAX - self.pos.x {
            u16::MAX
        } else {
            self.pos.x + self.length
        }
    }

    /// A field with every part given.
    pub fn new_generic(
        pos: Pos,
        length: u16,
        name: &str,
        value: &str,
        default_value: &str,
        allowed_characters: Option<Vec<char>>,
        mask_char: Option<char>,
        select: Select,
    ) -> (r: Input)
        ensures
            r@ == (InputView {
                pos,
                length,
                name: name@,
                value: value@,
                default_value: default_value@,
                allowed_characters: match allowed_characters {
                    Some(v) => Some(v@),
                    None => None,
                },
                mask_char,
                select,
                select_static: Seq::empty(),
            }),
    {
        let r = Input {
            pos,
            length,
            name: name.to_owned(),
            value: value.to_owned(),
            default_value: default_value.to_owned(),
            allowed_characters,
            mask_char,
            select,
            select_static: Vec::new(),
        };
        assert(r@.select_static =~= Seq::empty());
        r
    }

    /// `s` with `ch` at scalar position `pos`, padded with spaces when `s`
    /// is shorter than `pos`.
    pub fn set_char_in_string(s: &str, pos: usize, ch: char) -> (r: String)
        ensures
            r@ == spec_set_char(s@, pos as int, ch),
    {
        let len: usize = s.unicode_len();
        let mut output = String::new();
        let mut n: usize = 0;
        for c in it: s.chars()
            invariant
                it.seq() == s@,
                len == s@.len(),
                n == it.index(),
                output@.len() == n,
                forall|i: int| 0 <= i < n ==> output@[i] == (if i == pos { ch } else { s@[i] }),
        {
            if n == pos {
                output.push(ch);
            } else {
                output.push(c);
            }
            n = n + 1;
        }
        if n <= pos {
            while n < pos
                invariant
                    n <= pos,
                    s@.len() <= n,
                    output@ == s@ + Seq::new((n - s@.len()) as nat, |i: int| ' '),
                decreases pos - n,
            {
                output.push(' ');
                n = n + 1;
                assert(output@ =~= s@ + Seq::new((n - s@.len()) as nat, |i: int| ' '));
            }
            output.push(ch);
        } else {
            assert(output@ =~= s@.update(pos as int, ch));
        }
        output
    }

    /// `input` without the scalar at position `pos`; `input` as it is when
    /// `pos` is at or past its end.
    pub fn delete_in_string(input: &str, pos: usize) -> (r: String)
        ensures
            r@ == spec_delete(input@, pos as int),
            pos >= input@.len() ==> r@ == input@,
    {
        let len: usize = input.unicode_len();
        let mut output = String::new();
        let mut n: usize = 0;
        for c in it: input.chars()
            invariant
                it.seq() == input@,
                len == input@.len(),
                n == it.index(),
                output@ == (if n <= pos {
                    input@.take(n as int)
                } else {
                    input@.take(n as int).remove(pos as int)
                }),
        {
            if n != pos {
                output.push(c);
            }
            n = n + 1;
            assert(output@ =~= (if n <= pos {
                input@.take(n as int)
            } else {
                input@.take(n as int).remove(pos as int)
            }));
        }
        assert(input@.take(n as int) =~= input@);
        output
    }

    /// Types `key` at the cursor and steps the cursor right. Past the
    /// field's last cell the field is full and nothing happens.
    pub fn key(&mut self, key: char, current_pos: &mut Pos)
        requires
            old(current_pos).x >= old(self).pos.x,
        ensures
            (final(self)@, *final(current_pos)) == old(self)@.key(key, *old(current_pos)),
    {
        let str_pos: u16 = current_pos.x - self.pos.x;
        if str_pos >= self.length {
            return ;
        }
        let end: u16 = self.end_x();
        *current_pos = current_pos.move_x(1, end);
        self.value = Self::set_char_in_string(self.value.as_str(), str_pos as usize, key);
    }

    /// Backspace: a no-op at the field's first cell; elsewhere steps the
    /// cursor left and removes the character there.
    pub fn key_backspace(&mut self, current_pos: &mut Pos)
        requires
            old(current_pos).x >= old(self).pos.x,
        ensures
            (final(self)@, *final(current_pos)) == old(self)@.key_backspace(*old(current_pos)),
            old(current_pos).x == old(self).pos.x ==> *final(self) == *old(self),
            old(current_pos).x == old(self).pos.x ==> *final(current_pos) == *old(current_pos),
    {
        let str_pos: u16 = current_pos.x - self.pos.x;
        if str_pos == 0 {
            return ;
        }
        let end: u16 = self.end_x();
        *current_pos = current_pos.move_x(-1, end);
        self.value = Self::delete_in_string(self.value.as_str(), (str_pos - 1) as usize);
    }

    /// Delete: removes the character under the cursor.
    pub fn key_delete(&mut self, current_pos: &Pos)
        requires
            current_pos.x >= old(self).pos.x,
        ensures
            final(self)@ == old(self)@.key_delete(*current_pos),
    {
        let str_pos: u16 = current_pos.x - self.pos.x;
        self.value = Self::delete_in_string(self.value.as_str(), str_pos as usize);
    }

    /// Offers `event` to the field. Backspace, delete and unmodified
    /// characters are the field's; a character outside the allowed set, or
    /// typed past the field's last cell, is claimed and dropped; everything
    /// else is declined.
    pub fn event_handler(&mut self, event: &Event, current_pos: &mut Pos) -> (r: EventHandlerResult)
        requires
            old(current_pos).x >= old(self).pos.x,
        ensures
            (final(self)@, *final(current_pos), r) == old(self)@.handle(*event, *old(current_pos)),
    {
        match event {
            Event::Key(k) => {
                if k.code == KeyCode::Backspace {
                    self.key_backspace(current_pos);
                } else if k.code == KeyCode::Delete {
                    self.key_delete(current_pos);
                } else if k.modifiers.is_empty() {
                    match k.code {
                        KeyCode::Char(c) => {
                            let allowed: bool = match &self.allowed_characters {
                                Some(ac) => contains_char(ac, c),
                                None => true,
                            };
                            if allowed {
                                self.key(c, current_pos);
                            }
                        },
                        _ => {
                            return EventHandlerResult::NotHandled;
                        },
                    }
                } else {
                    return EventHandlerResult::NotHandled;
                }
            },
            Event::Other => {
                return EventHandlerResult::NotHandled;
            },
        }
        EventHandlerResult::Handled(EventResult::Nothing)
    }
}

/// Two fields are equal when they are anchored at the same cell: a field is
/// identified by where it is, not by what it holds.
impl PartialEq for Input {
    fn eq(&self, other: &Input) -> (r: bool) {
        self.pos == other.pos
    }
}

impl Eq for Input {

}

impl PartialEqSpecImpl for Input {
    open spec fn obeys_eq_spec() -> bool {
        true
    }

    open spec fn eq_spec(&self, other: &Input) -> bool {
        self.pos == other.pos
    }
}

/// Ordered as their anchors are, in row-major order.
impl PartialOrd for Input {
    fn partial_cmp(&self, other: &Input) -> (r: Option<Ordering>) {
        self.pos.partial_cmp(&other.pos)
    }
}

impl PartialOrdSpecImpl for Input {
    open spec fn obeys_partial_cmp_spec() -> bool {
        true
    }

    open spec fn partial_cmp_spec(&self, other: &Input) -> Option<Ordering> {
        Some(self.pos.ordering_to(other.pos))
    }
}

/// Collects the parts of a field, then builds it.
pub struct InputBuilder {
    pub pos: Pos,
    pub length: u16,
    pub name: String,
    pub value: String,
    pub default_value: String,
    pub allowed_characters: Option<Vec<char>>,
    pub mask_char: Option<char>,
    pub select: Select,
    pub select_static: Vec<(String, String)>,
}

impl View for InputBuilder {
    type V = InputView;

    open spec fn view(&self) -> InputView {
        InputView {
            pos: self.pos,
            length: self.length,
            name: self.name@,
            value: self.value@,
            default_value: self.default_value@,
            allowed_characters: match self.allowed_characters {
                Some(v) => Some(v@),
                None => None,
            },
            mask_char: self.mask_char,
            select: self.select,
            select_static: choices_view(self.select_static@),
        }
    }
}

/// A copy of a choice list.
pub fn clone_choices(choices: &[(String, String)]) -> (r: Vec<(String, String)>)
    ensures
        choices_view(r@) == choices_view(choices@),
{
    let mut out: Vec<(String, String)> = Vec::new();
    let mut i: usize = 0;
    while i < choices.len()
        invariant
            i <= choices.len(),
            out@.len() == i,
            forall|j: int| 0 <= j < i ==> out@[j].0@ == choices@[j].0@ && out@[j].1@ == choices@[j].1@,
        decreases choices.len() - i,
    {
        out.push((choices[i].0.clone(), choices[i].1.clone()));
        i = i + 1;
    }
    assert(choices_view(out@) =~= choices_view(choices@));
    out
}

impl Input {
    /// Starts a field at `pos` of `length` cells under `name`: empty value
    /// and default, any character allowed, no mask, no choices.
    pub fn builder(pos: Pos, length: u16, name: &str) -> (r: InputBuilder)
        ensures
            r@ == (InputView {
                pos,
                length,
                name: name@,
                value: Seq::empty(),
                default_value: Seq::empty(),
                allowed_characters: None,
                mask_char: None,
                select: Select::NoSelect,
                select_static: Seq::empty(),
            }),
    {
        let r = InputBuilder {
            pos,
            length,
            name: name.to_owned(),
            value: String::new(),
            default_value: String::new(),
            allowed_characters: None,
            mask_char: None,
            select: Select::NoSelect,
            select_static: Vec::new(),
        };
        assert(r@.select_static =~= Seq::empty());
        r
    }
}

impl InputBuilder {
    /// Sets the value the field starts with.
    pub fn with_value(self, value: &str) -> (r: InputBuilder)
        ensures
            r@ == (InputView { value: value@, ..self@ }),
    {
        let mut b = self;
        b.value = value.to_owned();
        b
    }

    /// Sets the value the field is compared against when it is drawn.
    pub fn with_default_value(self, default_value: &str) -> (r: InputBuilder)
        ensures
            r@ == (InputView { default_value: default_value@, ..self@ }),
    {
        let mut b = self;
        b.default_value = default_value.to_owned();
        b
    }

    /// Restricts the field to the given characters.
    pub fn with_allowed_characters(self, allowed_characters: Vec<char>) -> (r: InputBuilder)
        ensures
            r@ == (InputView { allowed_characters: Some(allowed_characters@), ..self@ }),
    {
        let mut b = self;
        b.allowed_characters = Some(allowed_characters);
        b
    }

    /// Draws `mask_char` in place of every character of the value.
    pub fn with_mask_char(self, mask_char: char) -> (r: InputBuilder)
        ensures
            r@ == (InputView { mask_char: Some(mask_char), ..self@ }),
    {
        let mut b = self;
        b.mask_char = Some(mask_char);
        b
    }

    /// Gives the field a list of `(id, text)` choices.
    pub fn with_select_static(self, select_static: &[(String, String)]) -> (r: InputBuilder)
        ensures
            r@ == (InputView { select_static: choices_view(select_static@), ..self@ }),
    {
        let mut b = self;
        b.select_static = clone_choices(select_static);
        b
    }

    /// The field that was described.
    pub fn build(self) -> (r: Input)
        ensures
            r@ == self@,
    {
        Input {
            pos: self.pos,
            length: self.length,
            name: self.name,
            value: self.value,
            default_value: self.default_value,
            allowed_characters: self.allowed_characters,
            mask_char: self.mask_char,
            select: self.select,
            select_static: self.select_static,
        }
    }
}

} // verus!
