//! The form definition format, one widget per line:
//!
//! ```text
//! LABEL <x> <y> <text>
//! INPUT <x> <y> <width> <name> <initial text>
//! PASSWORD <x> <y> <width> <name> <initial text>
//! NUMBER <x> <y> <width> <name> <integer default>
//! SELECT <field-name> <id> <display text>
//! ```
//!
//! Numbers are decimal and at most 65535. A name or an id is an ASCII letter
//! or underscore followed by ASCII letters, digits and underscores. The parts
//! of a line are separated by white space (one or more blanks, tabs, carriage
//! returns or line feeds), except that `LABEL` is followed by exactly one
//! blank. The text is the rest of the line.

use crate::form::{Form, FormView};
use crate::input::{Input, InputView, Select};
use crate::label::{Label, LabelView};
use crate::number::{canonical_number, normalize_number};
use crate::pos::Pos;
use crate::scan::{
    chars_of, ident_end, identifier, matches_at, scan_u16, skip_spaces, spaces_end, spec_u16,
    starts_with, string_of,
};
use vstd::prelude::*;

verus! {

/// The character a password field shows for every character typed.
pub const PASSWORD_MASK: char = '*';

/// What one line of a form definition describes.
pub enum Widget {
    Label(Label),
    Input(Input),
    /// A choice for a field: the field's name, the choice's id, its text.
    Select(String, String, String),
}

/// What a widget holds, as mathematical values.
pub enum WidgetView {
    Label(LabelView),
    Input(InputView),
    Select(Seq<char>, Seq<char>, Seq<char>),
}

impl View for Widget {
    type V = WidgetView;

    open spec fn view(&self) -> WidgetView {
        match self {
            Widget::Label(l) => WidgetView::Label(l@),
            Widget::Input(i) => WidgetView::Input(i@),
            Widget::Select(name, id, text) => WidgetView::Select(name@, id@, text@),
        }
    }
}

/// Why a line was not taken.
#[derive(Debug, Clone, Copy, PartialEq, Eq, Structural)]
pub enum ParseError {
    /// The line is none of the five kinds of widget.
    Syntax,
    /// The line gives a choice to a field that the form does not have.
    UnknownField,
}

/// The part that `INPUT`, `PASSWORD` and `NUMBER` lines share: position,
/// width and name of the field, and where the rest of the line starts.
pub struct FieldHead {
    pub x: u16,
    pub y: u16,
    pub length: u16,
    pub name_from: int,
    pub name_to: int,
    pub rest_from: int,
}

/// The number at `i` and the end of the spaces that must follow it.
pub open spec fn spec_number_then_spaces(s: Seq<char>, i: int) -> Option<(u16, int)> {
    match spec_u16(s, i) {
        Some((value, end)) => if spaces_end(s, end) > end {
            Some((value, spaces_end(s, end)))
        } else {
            None
        },
        None => None,
    }
}

/// The head of a field line whose keyword ends at `i`: spaces, three numbers
/// each followed by spaces, a name, and any spaces after it.
pub open spec fn spec_field_head(s: Seq<char>, i: int) -> Option<FieldHead> {
    if spaces_end(s, i) <= i {
        None
    } else {
        match spec_number_then_spaces(s, spaces_end(s, i)) {
            None => None,
            Some((x, after_x)) => match spec_number_then_spaces(s, after_x) {
                None => None,
                Some((y, after_y)) => match spec_number_then_spaces(s, after_y) {
                    None => None,
                    Some((length, name_from)) => match ident_end(s, name_from) {
                        None => None,
                        Some(name_to) => Some(
                            FieldHead {
                                x,
                                y,
                                length,
                                name_from,
                                name_to,
                                rest_from: spaces_end(s, name_to),
                            },
                        ),
                    },
                },
            },
        }
    }
}

/// The field a head describes, with `value` and `default_value`, nothing
/// masked, every character allowed.
pub open spec fn plain_field(
    s: Seq<char>,
    head: FieldHead,
    value: Seq<char>,
    default_value: Seq<char>,
) -> InputView {
    InputView {
        pos: Pos { x: head.x, y: head.y },
        length: head.length,
        name: s.subrange(head.name_from, head.name_to),
        value,
        default_value,
        allowed_characters: None,
        mask_char: None,
        select: Select::NoSelect,
        select_static: Seq::empty(),
    }
}

/// The ten digits, in order.
pub open spec fn digit_set() -> Seq<char> {
    seq!['0', '1', '2', '3', '4', '5', '6', '7', '8', '9']
}

/// `LABEL`, one blank, column, row, text.
pub open spec fn spec_parse_label(s: Seq<char>) -> Option<WidgetView> {
    if !starts_with(s, 0, "LABEL "@) {
        None
    } else {
        match spec_number_then_spaces(s, 6) {
            None => None,
            Some((x, after_x)) => match spec_number_then_spaces(s, after_x) {
                None => None,
                Some((y, text_from)) => Some(
                    WidgetView::Label(
                        LabelView {
                            pos: Pos { x, y },
                            text: s.subrange(text_from, s.len() as int),
                        },
                    ),
                ),
            },
        }
    }
}

/// `INPUT` or `PASSWORD`, then the head of a field; the rest of the line is
/// the value the field starts with. A password field is masked.
pub open spec fn spec_parse_input(s: Seq<char>) -> Option<WidgetView> {
    if starts_with(s, 0, "INPUT"@) {
        match spec_field_head(s, 5) {
            None => None,
            Some(head) => Some(
                WidgetView::Input(
                    plain_field(s, head, s.subrange(head.rest_from, s.len() as int), Seq::empty()),
                ),
            ),
        }
    } else if starts_with(s, 0, "PASSWORD"@) {
        match spec_field_head(s, 8) {
            None => None,
            Some(head) => Some(
                WidgetView::Input(
                    InputView {
                        mask_char: Some(PASSWORD_MASK),
                        ..plain_field(
                            s,
                            head,
                            s.subrange(head.rest_from, s.len() as int),
                            Seq::empty(),
                        )
                    },
                ),
            ),
        }
    } else {
        None
    }
}

/// `NUMBER`, then the head of a field; the rest of the line is empty or a
/// 64-bit signed number, which in its shortest form is both the value the
/// field starts with and its default. The field takes digits only.
pub open spec fn spec_parse_number(s: Seq<char>) -> Option<WidgetView> {
    if !starts_with(s, 0, "NUMBER"@) {
        None
    } else {
        match spec_field_head(s, 6) {
            None => None,
            Some(head) => {
                let rest = s.subrange(head.rest_from, s.len() as int);
                let number = if rest.len() == 0 {
                    Some(Seq::empty())
                } else {
                    canonical_number(rest)
                };
                match number {
                    None => None,
                    Some(text) => Some(
                        WidgetView::Input(
                            InputView {
                                allowed_characters: Some(digit_set()),
                                ..plain_field(s, head, text, text)
                            },
                        ),
                    ),
                }
            },
        }
    }
}

/// `SELECT`, the name of a field, the id of the choice, its text.
pub open spec fn spec_parse_select(s: Seq<char>) -> Option<WidgetView> {
    if !starts_with(s, 0, "SELECT"@) || spaces_end(s, 6) <= 6 {
        None
    } else {
        let name_from = spaces_end(s, 6);
        match ident_end(s, name_from) {
            None => None,
            Some(name_to) => {
                let id_from = spaces_end(s, name_to);
                if id_from <= name_to {
                    None
                } else {
                    match ident_end(s, id_from) {
                        None => None,
                        Some(id_to) => {
                            let text_from = spaces_end(s, id_to);
                            if text_from <= id_to {
                                None
                            } else {
                                Some(
                                    WidgetView::Select(
                                        s.subrange(name_from, name_to),
                                        s.subrange(id_from, id_to),
                                        s.subrange(text_from, s.len() as int),
                                    ),
                                )
                            }
                        },
                    }
                }
            },
        }
    }
}

/// The widget a line describes: a label, else a field, else a number field,
/// else a choice; `None` when it is none of them.
pub open spec fn spec_parse_widget(s: Seq<char>) -> Option<WidgetView> {
    if spec_parse_label(s) is Some {
        spec_parse_label(s)
    } else if spec_parse_input(s) is Some {
        spec_parse_input(s)
    } else if spec_parse_number(s) is Some {
        spec_parse_number(s)
    } else {
        spec_parse_select(s)
    }
}

/// A line is of one kind at most: the keywords tell the kinds apart, so the
/// order in which the kinds are tried decides nothing.
pub proof fn lemma_kinds_are_disjoint(s: Seq<char>)
    ensures
        spec_parse_label(s) is Some ==> spec_parse_input(s) is None && spec_parse_number(s) is None
            && spec_parse_select(s) is None,
        spec_parse_input(s) is Some ==> spec_parse_number(s) is None && spec_parse_select(s)
            is None,
        spec_parse_number(s) is Some ==> spec_parse_select(s) is None,
{
    reveal_strlit("LABEL ");
    reveal_strlit("INPUT");
    reveal_strlit("PASSWORD");
    reveal_strlit("NUMBER");
    reveal_strlit("SELECT");
    if s.len() > 0 {
        assert(starts_with(s, 0, "LABEL "@) ==> s.subrange(0, 6)[0] == 'L');
        assert(starts_with(s, 0, "INPUT"@) ==> s.subrange(0, 5)[0] == 'I');
        assert(starts_with(s, 0, "PASSWORD"@) ==> s.subrange(0, 8)[0] == 'P');
        assert(starts_with(s, 0, "NUMBER"@) ==> s.subrange(0, 6)[0] == 'N');
        assert(starts_with(s, 0, "SELECT"@) ==> s.subrange(0, 6)[0] == 'S');
    }
}

/// What a line does to a form: a label or a field is added; a choice goes to
/// the first field of its name, and is an error when there is no such field;
/// a line that is no widget is an error. An error leaves the form as it is.
pub open spec fn spec_parse_str(form: FormView, s: Seq<char>) -> (FormView, Result<(), ParseError>) {
    match spec_parse_widget(s) {
        None => (form, Err(ParseError::Syntax)),
        Some(WidgetView::Label(label)) => (
            FormView { labels: form.labels.push(label), ..form },
            Ok(()),
        ),
        Some(WidgetView::Input(input)) => (
            FormView { inputs: form.inputs.push(input), ..form },
            Ok(()),
        ),
        Some(WidgetView::Select(name, id, text)) => match form.named(name) {
            Some(i) => (form.with_choice(i, id, text), Ok(())),
            None => (form, Err(ParseError::UnknownField)),
        },
    }
}

/// The head of a field line, as indices into the line.
pub struct Head {
    pub x: u16,
    pub y: u16,
    pub length: u16,
    pub name_from: usize,
    pub name_to: usize,
    pub rest_from: usize,
}

impl View for Head {
    type V = FieldHead;

    open spec fn view(&self) -> FieldHead {
        FieldHead {
            x: self.x,
            y: self.y,
            length: self.length,
            name_from: self.name_from as int,
            name_to: self.name_to as int,
            rest_from: self.rest_from as int,
        }
    }
}

/// Reads a number and the white space after it.
pub fn number_then_spaces(chars: &Vec<char>, i: usize) -> (r: Option<(u16, usize)>)
    requires
        i <= chars.len(),
    ensures
        r.is_some() == spec_number_then_spaces(chars@, i as int).is_some(),
        r.is_some() ==> r.unwrap().0 == spec_number_then_spaces(chars@, i as int).unwrap().0,
        r.is_some() ==> r.unwrap().1 == spec_number_then_spaces(chars@, i as int).unwrap().1,
        r.is_some() ==> i < r.unwrap().1 <= chars.len(),
{
    match scan_u16(chars, i) {
        Some((value, end)) => {
            let after: usize = skip_spaces(chars, end);
            if after > end {
                Some((value, after))
            } else {
                None
            }
        },
        None => None,
    }
}

/// Reads the head of a field line whose keyword ends at `i`.
pub fn field_head(chars: &Vec<char>, i: usize) -> (r: Option<Head>)
    requires
        i <= chars.len(),
    ensures
        r.is_some() == spec_field_head(chars@, i as int).is_some(),
        r.is_some() ==> r.unwrap()@ == spec_field_head(chars@, i as int).unwrap(),
        r.is_some() ==> r.unwrap().name_from <= r.unwrap().name_to <= r.unwrap().rest_from
            <= chars.len(),
{
    let x_from: usize = skip_spaces(chars, i);
    if x_from <= i {
        return None;
    }
    let (x, after_x) = match number_then_spaces(chars, x_from) {
        Some(found) => found,
        None => {
            return None;
        },
    };
    let (y, after_y) = match number_then_spaces(chars, after_x) {
        Some(found) => found,
        None => {
            return None;
        },
    };
    let (length, name_from) = match number_then_spaces(chars, after_y) {
        Some(found) => found,
        None => {
            return None;
        },
    };
    let name_to: usize = match identifier(chars, name_from) {
        Some(end) => end,
        None => {
            return None;
        },
    };
    let rest_from: usize = skip_spaces(chars, name_to);
    Some(Head { x, y, length, name_from, name_to, rest_from })
}

/// Reads a `LABEL` line.
pub fn parse_label(chars: &Vec<char>) -> (r: Option<Widget>)
    ensures
        r.is_some() == spec_parse_label(chars@).is_some(),
        r.is_some() ==> r.unwrap()@ == spec_parse_label(chars@).unwrap(),
{
    proof {
        reveal_strlit("LABEL ");
    }
    if !matches_at(chars, 0, "LABEL ") {
        return None;
    }
    let (x, after_x) = match number_then_spaces(chars, 6) {
        Some(found) => found,
        None => {
            return None;
        },
    };
    let (y, text_from) = match number_then_spaces(chars, after_x) {
        Some(found) => found,
        None => {
            return None;
        },
    };
    let text = string_of(chars, text_from, chars.len());
    Some(Widget::Label(Label::new_label(Pos { x, y }, text.as_str())))
}

/// Reads an `INPUT` or a `PASSWORD` line.
pub fn parse_input(chars: &Vec<char>) -> (r: Option<Widget>)
    ensures
        r.is_some() == spec_parse_input(chars@).is_some(),
        r.is_some() ==> r.unwrap()@ == spec_parse_input(chars@).unwrap(),
{
    proof {
        reveal_strlit("INPUT");
        reveal_strlit("PASSWORD");
    }
    let masked: bool = if matches_at(chars, 0, "INPUT") {
        false
    } else if matches_at(chars, 0, "PASSWORD") {
        true
    } else {
        return None;
    };
    let keyword_end: usize = if masked {
        8
    } else {
        5
    };
    let head = match field_head(chars, keyword_end) {
        Some(head) => head,
        None => {
            return None;
        },
    };
    let name = string_of(chars, head.name_from, head.name_to);
    let value = string_of(chars, head.rest_from, chars.len());
    let builder = Input::builder(Pos { x: head.x, y: head.y }, head.length, name.as_str()).with_value(
        value.as_str(),
    );
    if masked {
        Some(Widget::Input(builder.with_mask_char(PASSWORD_MASK).build()))
    } else {
        Some(Widget::Input(builder.build()))
    }
}

/// Reads a `NUMBER` line.
pub fn parse_number(chars: &Vec<char>) -> (r: Option<Widget>)
    ensures
        r.is_some() == spec_parse_number(chars@).is_some(),
        r.is_some() ==> r.unwrap()@ == spec_parse_number(chars@).unwrap(),
{
    proof {
        reveal_strlit("NUMBER");
    }
    if !matches_at(chars, 0, "NUMBER") {
        return None;
    }
    let head = match field_head(chars, 6) {
        Some(head) => head,
        None => {
            return None;
        },
    };
    let default_value: String = if head.rest_from == chars.len() {
        String::new()
    } else {
        match normalize_number(chars, head.rest_from) {
            Some(text) => text,
            None => {
                return None;
            },
        }
    };
    let name = string_of(chars, head.name_from, head.name_to);
    let digits: Vec<char> = vec!['0', '1', '2', '3', '4', '5', '6', '7', '8', '9'];
    assert(digits@ =~= digit_set());
    Some(
        Widget::Input(
            Input::builder(Pos { x: head.x, y: head.y }, head.length, name.as_str()).with_value(
                default_value.as_str(),
            ).with_default_value(default_value.as_str()).with_allowed_characters(digits).build(),
        ),
    )
}

/// Reads a `SELECT` line.
pub fn parse_select(chars: &Vec<char>) -> (r: Option<Widget>)
    ensures
        r.is_some() == spec_parse_select(chars@).is_some(),
        r.is_some() ==> r.unwrap()@ == spec_parse_select(chars@).unwrap(),
{
    proof {
        reveal_strlit("SELECT");
    }
    if !matches_at(chars, 0, "SELECT") {
        return None;
    }
    let name_from: usize = skip_spaces(chars, 6);
    if name_from <= 6 {
        return None;
    }
    let name_to: usize = match identifier(chars, name_from) {
        Some(end) => end,
        None => {
            return None;
        },
    };
    let id_from: usize = skip_spaces(chars, name_to);
    if id_from <= name_to {
        return None;
    }
    let id_to: usize = match identifier(chars, id_from) {
        Some(end) => end,
        None => {
            return None;
        },
    };
    let text_from: usize = skip_spaces(chars, id_to);
    if text_from <= id_to {
        return None;
    }
    Some(
        Widget::Select(
            string_of(chars, name_from, name_to),
            string_of(chars, id_from, id_to),
            string_of(chars, text_from, chars.len()),
        ),
    )
}

/// Reads one line of a form definition.
pub fn parse_widget(input: &str) -> (r: Result<Widget, ParseError>)
    ensures
        r.is_ok() == spec_parse_widget(input@).is_some(),
        r.is_ok() ==> r.unwrap()@ == spec_parse_widget(input@).unwrap(),
        r.is_err() ==> r == Err::<Widget, ParseError>(ParseError::Syntax),
{
    let chars = chars_of(input);
    if let Some(widget) = parse_label(&chars) {
        return Ok(widget);
    }
    if let Some(widget) = parse_input(&chars) {
        return Ok(widget);
    }
    if let Some(widget) = parse_number(&chars) {
        return Ok(widget);
    }
    if let Some(widget) = parse_select(&chars) {
        return Ok(widget);
    }
    Err(ParseError::Syntax)
}

/// Reads one line of a form definition and puts what it describes on the
/// form. On an error the form is left as it was.
pub fn parse_str(form: &mut Form, input: &str) -> (r: Result<(), ParseError>)
    ensures
        (final(form)@, r) == spec_parse_str(old(form)@, input@),
{
    match parse_widget(input) {
        Ok(Widget::Label(label)) => {
            form.add_label(label);
            Ok(())
        },
        Ok(Widget::Input(field)) => {
            form.add_input(field);
            Ok(())
        },
        Ok(Widget::Select(name, id, text)) => {
            if form.find_input(&name).is_some() {
                form.add_select(name, id, text);
                Ok(())
            } else {
                Err(ParseError::UnknownField)
            }
        },
        Err(e) => Err(e),
    }
}

} // verus!
