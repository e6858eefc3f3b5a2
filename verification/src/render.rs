//! What to draw: every frame is a list of drawing steps for the terminal to
//! carry out in order. Nothing here touches the terminal.

use crate::form::{Form, FormView};
use crate::input::{Input, InputView, Select};
use crate::label::LabelView;
use crate::pos::Pos;
use crate::scan::chars_of;
use crate::select_form::{
    Item, ItemView, SelectForm, SelectFormView, FIRST_FIELD_X, FIRST_FIELD_Y, ROW_HEIGHT,
};
use vstd::prelude::*;

verus! {

/// Column of the frame's right edge.
pub const FRAME_COLUMNS: u16 = 80;

/// Row of the frame's bottom edge.
pub const FRAME_ROWS: u16 = 24;

/// Column where the hint for the picker key starts.
pub const HINT_COLUMN: u16 = 66;

/// The character of the frame's right edge.
pub const EDGE_VERTICAL: char = '\u{2502}';

/// The character of the frame's bottom edge.
pub const EDGE_HORIZONTAL: char = '\u{2500}';

/// The character of the frame's bottom right corner.
pub const EDGE_CORNER: char = '\u{2518}';

/// The colours the engine draws in.
#[derive(Debug, Clone, Copy, PartialEq, Eq, Structural)]
pub enum Color {
    /// What the user changed, and what has no default to compare with.
    DarkRed,
    /// What is as the default has it, and cells nothing was entered in.
    DarkGreen,
    /// Labels.
    White,
}

/// One step of drawing.
#[derive(Debug, Clone, PartialEq, Eq)]
pub enum Draw {
    /// Put the terminal's cursor on a cell.
    MoveTo(Pos),
    /// Clear from the cursor up to the top of the screen.
    ClearUp,
    /// Clear from the cursor to the end of the line.
    ClearLine,
    /// Draw what follows in this colour.
    Foreground(Color),
    /// Underline what follows, or stop underlining.
    Underline(bool),
    /// Draw one character.
    Put(char),
    /// Draw a text.
    Print(String),
    /// Show the terminal's cursor as a steady underscore.
    CursorUnderscore,
}

/// What a drawing step holds, as mathematical values.
pub enum DrawView {
    MoveTo(Pos),
    ClearUp,
    ClearLine,
    Foreground(Color),
    Underline(bool),
    Put(char),
    Print(Seq<char>),
    CursorUnderscore,
}

impl View for Draw {
    type V = DrawView;

    open spec fn view(&self) -> DrawView {
        match self {
            Draw::MoveTo(p) => DrawView::MoveTo(*p),
            Draw::ClearUp => DrawView::ClearUp,
            Draw::ClearLine => DrawView::ClearLine,
            Draw::Foreground(c) => DrawView::Foreground(*c),
            Draw::Underline(on) => DrawView::Underline(*on),
            Draw::Put(c) => DrawView::Put(*c),
            Draw::Print(s) => DrawView::Print(s@),
            Draw::CursorUnderscore => DrawView::CursorUnderscore,
        }
    }
}

/// The steps of a frame, as mathematical values.
pub open spec fn frame_view(steps: Seq<Draw>) -> Seq<DrawView> {
    steps.map_values(|d: Draw| d@)
}

/// `c`, `n` times.
pub open spec fn repeated(c: char, n: int) -> Seq<char> {
    Seq::new(
        if n > 0 {
            n as nat
        } else {
            0
        },
        |i: int| c,
    )
}

/// The colour of cell `i` of a field: red where the value differs from the
/// default or goes beyond it, green where it agrees with the default and
/// where nothing was entered.
pub open spec fn cell_color(value: Seq<char>, default_value: Seq<char>, i: int) -> Color {
    if i < value.len() && (i >= default_value.len() || value[i] != default_value[i]) {
        Color::DarkRed
    } else {
        Color::DarkGreen
    }
}

/// The character in cell `i` of a field: the value's, or a blank past it.
pub open spec fn cell_char(value: Seq<char>, i: int) -> char {
    if i < value.len() {
        value[i]
    } else {
        ' '
    }
}

/// The first `n` cells of a field, each in its colour.
pub open spec fn spec_cells(value: Seq<char>, default_value: Seq<char>, n: int) -> Seq<DrawView>
    decreases n,
{
    if n <= 0 {
        Seq::empty()
    } else {
        spec_cells(value, default_value, n - 1) + seq![
            DrawView::Foreground(cell_color(value, default_value, n - 1)),
            DrawView::Put(cell_char(value, n - 1)),
        ]
    }
}

/// A field shown as it is: its cells, underlined, from its anchor on.
pub open spec fn spec_display_string(input: InputView) -> Seq<DrawView> {
    seq![DrawView::MoveTo(input.pos), DrawView::Underline(true)] + spec_cells(
        input.value,
        input.default_value,
        input.length as int,
    ) + seq![DrawView::Underline(false)]
}

/// A field shown masked: the mask once for every character of the value,
/// then blanks for the cells that are left.
pub open spec fn spec_display_password(input: InputView) -> Seq<DrawView> {
    seq![
        DrawView::MoveTo(input.pos),
        DrawView::Underline(true),
        DrawView::Foreground(Color::DarkRed),
        DrawView::Print(repeated(input.mask_char->0, input.value.len() as int)),
        DrawView::Foreground(Color::DarkGreen),
        DrawView::Print(repeated(' ', input.length - input.value.len())),
        DrawView::Underline(false),
    ]
}

/// A field: masked when it has a mask character, as it is otherwise.
pub open spec fn spec_display_generic(input: InputView) -> Seq<DrawView> {
    if input.mask_char is Some {
        spec_display_password(input)
    } else {
        spec_display_string(input)
    }
}

/// The first `n` rows of the frame's right edge.
pub open spec fn spec_side(n: int) -> Seq<DrawView>
    decreases n,
{
    if n <= 0 {
        Seq::empty()
    } else {
        spec_side(n - 1) + seq![
            DrawView::MoveTo(Pos { x: FRAME_COLUMNS, y: (n - 1) as u16 }),
            DrawView::Put(EDGE_VERTICAL),
        ]
    }
}

/// The frame: right edge, bottom edge, and the keys that end the form.
pub open spec fn spec_border() -> Seq<DrawView> {
    seq![DrawView::Foreground(Color::DarkGreen)] + spec_side(FRAME_ROWS as int) + seq![
        DrawView::MoveTo(Pos { x: 0, y: FRAME_ROWS }),
        DrawView::Print(repeated(EDGE_HORIZONTAL, FRAME_COLUMNS as int)),
        DrawView::Put(EDGE_CORNER),
        DrawView::MoveTo(Pos { x: 2, y: FRAME_ROWS }),
        DrawView::Print(" Esc=Abort "@),
        DrawView::Put(EDGE_HORIZONTAL),
        DrawView::Print(" Enter=Submit "@),
    ]
}

/// The first `n` labels.
pub open spec fn spec_labels(labels: Seq<LabelView>, n: int) -> Seq<DrawView>
    decreases n,
{
    if n <= 0 {
        Seq::empty()
    } else {
        spec_labels(labels, n - 1) + seq![
            DrawView::MoveTo(labels[n - 1].pos),
            DrawView::Foreground(Color::White),
            DrawView::Print(labels[n - 1].text),
        ]
    }
}

/// The first `n` fields.
pub open spec fn spec_fields(inputs: Seq<InputView>, n: int) -> Seq<DrawView>
    decreases n,
{
    if n <= 0 {
        Seq::empty()
    } else {
        spec_fields(inputs, n - 1) + spec_display_generic(inputs[n - 1])
    }
}

/// One row of the picker: the marker underlined, a blank, the text.
pub open spec fn spec_display_choice(pos: Pos, item: ItemView) -> Seq<DrawView> {
    seq![
        DrawView::MoveTo(pos),
        DrawView::Underline(true),
        DrawView::Put(item.choice),
        DrawView::Underline(false),
        DrawView::Put(' '),
        DrawView::Print(item.text),
    ]
}

/// The first `n` rows of the picker. A row that would lie off the
/// coordinate grid is not drawn.
pub open spec fn spec_choices(items: Seq<ItemView>, n: int) -> Seq<DrawView>
    decreases n,
{
    if n <= 0 {
        Seq::empty()
    } else if FIRST_FIELD_Y + ROW_HEIGHT * (n - 1) > u16::MAX {
        spec_choices(items, n - 1)
    } else {
        spec_choices(items, n - 1) + spec_display_choice(
            crate::select_form::row_pos(n - 1),
            items[n - 1],
        )
    }
}

/// A frame starts by clearing what is above the canvas's far corner.
pub open spec fn spec_clear(size: Pos) -> Seq<DrawView> {
    seq![DrawView::MoveTo(size), DrawView::ClearUp]
}

/// A frame ends by showing the cursor where it is.
pub open spec fn spec_cursor(pos: Pos) -> Seq<DrawView> {
    seq![DrawView::MoveTo(pos), DrawView::CursorUnderscore]
}

/// The hint for the picker key, shown while the focused field has a
/// selection mode.
pub open spec fn spec_hint(form: FormView) -> Seq<DrawView> {
    if form.focus() is Some && form.inputs[form.focus()->0].select != Select::NoSelect {
        seq![
            DrawView::MoveTo(Pos { x: HINT_COLUMN, y: FRAME_ROWS }),
            DrawView::Foreground(Color::DarkGreen),
            DrawView::Print(" F4 - Select "@),
        ]
    } else {
        Seq::empty()
    }
}

/// The frame of a picker: the border, every row, the cursor.
pub open spec fn spec_display_picker(picker: SelectFormView) -> Seq<DrawView> {
    spec_clear(picker.size) + spec_border() + spec_choices(picker.items, picker.items.len() as int)
        + spec_cursor(picker.current_pos)
}

/// The frame of a form. While a picker is open, the picker's frame and
/// nothing of the form; otherwise the border, the hint, the labels, the
/// fields, the cursor.
pub open spec fn spec_display(form: FormView) -> Seq<DrawView> {
    match form.select_form {
        Some(picker) => spec_display_picker(picker),
        None => spec_clear(form.size) + spec_border() + spec_hint(form) + spec_labels(
            form.labels,
            form.labels.len() as int,
        ) + spec_fields(form.inputs, form.inputs.len() as int) + spec_cursor(form.current_pos),
    }
}

/// Adds one step to a frame.
pub fn emit(frame: &mut Vec<Draw>, step: Draw)
    ensures
        frame_view(final(frame)@) == frame_view(old(frame)@).push(step@),
{
    frame.push(step);
    assert(frame_view(frame@) =~= frame_view(old(frame)@).push(step@));
}

/// Adds the steps of `more` to a frame.
pub fn emit_all(frame: &mut Vec<Draw>, more: Vec<Draw>)
    ensures
        frame_view(final(frame)@) == frame_view(old(frame)@) + frame_view(more@),
{
    let mut more = more;
    let ghost added = more@;
    frame.append(&mut more);
    assert(frame_view(frame@) =~= frame_view(old(frame)@) + frame_view(added));
}

/// A text of `n` times `c`.
pub fn repeat_char(c: char, n: usize) -> (r: String)
    ensures
        r@ == repeated(c, n as int),
{
    let mut out = String::new();
    let mut i: usize = 0;
    while i < n
        invariant
            i <= n,
            out@ == repeated(c, i as int),
        decreases n - i,
    {
        out.push(c);
        i = i + 1;
        assert(out@ =~= repeated(c, i as int));
    }
    out
}

/// The steps that draw a field as it is: every cell of its width, the
/// entered characters red where they differ from the default and green where
/// they agree, blanks after them.
pub fn display_string(input: &Input) -> (r: Vec<Draw>)
    ensures
        frame_view(r@) == spec_display_string(input@),
{
    let value = chars_of(input.value.as_str());
    let default_value = chars_of(input.default_value.as_str());
    let mut frame: Vec<Draw> = Vec::new();
    emit(&mut frame, Draw::MoveTo(input.pos));
    emit(&mut frame, Draw::Underline(true));
    let ghost head = frame_view(frame@);
    assert(head =~= seq![DrawView::MoveTo(input.pos), DrawView::Underline(true)]);
    let mut i: u16 = 0;
    while i < input.length
        invariant
            i <= input.length,
            value@ == input.value@,
            default_value@ == input.default_value@,
            frame_view(frame@) == head + spec_cells(value@, default_value@, i as int),
        decreases input.length - i,
    {
        let k: usize = i as usize;
        let red: bool = k < value.len() && (k >= default_value.len() || value[k] != default_value[k]);
        emit(
            &mut frame,
            Draw::Foreground(
                if red {
                    Color::DarkRed
                } else {
                    Color::DarkGreen
                },
            ),
        );
        emit(
            &mut frame,
            Draw::Put(
                if k < value.len() {
                    value[k]
                } else {
                    ' '
                },
            ),
        );
        i = i + 1;
        assert(frame_view(frame@) =~= head + spec_cells(value@, default_value@, i as int));
    }
    emit(&mut frame, Draw::Underline(false));
    frame
}

/// The steps that draw a masked field.
pub fn display_password(input: &Input) -> (r: Vec<Draw>)
    requires
        input.mask_char is Some,
    ensures
        frame_view(r@) == spec_display_password(input@),
{
    let pass_len: usize = input.value.as_str().unicode_len();
    let mask_char: char = input.mask_char.unwrap();
    let width: usize = input.length as usize;
    let blanks: usize = if pass_len < width {
        width - pass_len
    } else {
        0
    };
    let mut frame: Vec<Draw> = Vec::new();
    emit(&mut frame, Draw::MoveTo(input.pos));
    emit(&mut frame, Draw::Underline(true));
    emit(&mut frame, Draw::Foreground(Color::DarkRed));
    emit(&mut frame, Draw::Print(repeat_char(mask_char, pass_len)));
    emit(&mut frame, Draw::Foreground(Color::DarkGreen));
    emit(&mut frame, Draw::Print(repeat_char(' ', blanks)));
    emit(&mut frame, Draw::Underline(false));
    assert(repeated(' ', blanks as int) =~= repeated(' ', input.length - input.value@.len()));
    assert(frame_view(frame@) =~= spec_display_password(input@));
    frame
}

/// The steps that draw a field, masked or as it is.
pub fn display_generic(input: &Input) -> (r: Vec<Draw>)
    ensures
        frame_view(r@) == spec_display_generic(input@),
{
    if input.mask_char.is_some() {
        display_password(input)
    } else {
        display_string(input)
    }
}

/// The steps that draw the frame around a form or a picker.
pub fn display_border() -> (r: Vec<Draw>)
    ensures
        frame_view(r@) == spec_border(),
{
    let mut frame: Vec<Draw> = Vec::new();
    emit(&mut frame, Draw::Foreground(Color::DarkGreen));
    let ghost head = frame_view(frame@);
    assert(head =~= seq![DrawView::Foreground(Color::DarkGreen)]);
    let mut y: u16 = 0;
    while y < FRAME_ROWS
        invariant
            y <= FRAME_ROWS,
            frame_view(frame@) == head + spec_side(y as int),
        decreases FRAME_ROWS - y,
    {
        emit(&mut frame, Draw::MoveTo(Pos { x: FRAME_COLUMNS, y }));
        emit(&mut frame, Draw::Put(EDGE_VERTICAL));
        y = y + 1;
        assert(frame_view(frame@) =~= head + spec_side(y as int));
    }
    let ghost side = frame_view(frame@);
    emit(&mut frame, Draw::MoveTo(Pos { x: 0, y: FRAME_ROWS }));
    emit(&mut frame, Draw::Print(repeat_char(EDGE_HORIZONTAL, FRAME_COLUMNS as usize)));
    emit(&mut frame, Draw::Put(EDGE_CORNER));
    emit(&mut frame, Draw::MoveTo(Pos { x: 2, y: FRAME_ROWS }));
    emit(&mut frame, Draw::Print(" Esc=Abort ".to_owned()));
    emit(&mut frame, Draw::Put(EDGE_HORIZONTAL));
    emit(&mut frame, Draw::Print(" Enter=Submit ".to_owned()));
    assert(frame_view(frame@) =~= spec_border());
    frame
}

impl SelectForm {
    /// The steps that draw one row of the picker at `pos`.
    pub fn display_choice(pos: Pos, item: &Item) -> (r: Vec<Draw>)
        ensures
            frame_view(r@) == spec_display_choice(pos, item@),
    {
        let mut frame: Vec<Draw> = Vec::new();
        emit(&mut frame, Draw::MoveTo(pos));
        emit(&mut frame, Draw::Underline(true));
        emit(&mut frame, Draw::Put(item.choice));
        emit(&mut frame, Draw::Underline(false));
        emit(&mut frame, Draw::Put(' '));
        emit(&mut frame, Draw::Print(item.text.clone()));
        assert(frame_view(frame@) =~= spec_display_choice(pos, item@));
        frame
    }

    /// The steps that draw the picker: the frame, every row with its marker,
    /// and the cursor.
    pub fn display(&self) -> (r: Vec<Draw>)
        ensures
            frame_view(r@) == spec_display_picker(self@),
    {
        let mut frame: Vec<Draw> = Vec::new();
        emit(&mut frame, Draw::MoveTo(self.size));
        emit(&mut frame, Draw::ClearUp);
        emit_all(&mut frame, display_border());
        let ghost head = frame_view(frame@);
        assert(head =~= spec_clear(self.size) + spec_border());
        let mut i: usize = 0;
        while i < self.items.len()
            invariant
                i <= self.items.len(),
                frame_view(frame@) == head + spec_choices(self@.items, i as int),
            decreases self.items.len() - i,
        {
            if i <= ((u16::MAX - FIRST_FIELD_Y) / ROW_HEIGHT) as usize {
                let pos = Pos { x: FIRST_FIELD_X, y: FIRST_FIELD_Y + ROW_HEIGHT * (i as u16) };
                emit_all(&mut frame, Self::display_choice(pos, &self.items[i]));
            }
            i = i + 1;
            assert(frame_view(frame@) =~= head + spec_choices(self@.items, i as int));
        }
        emit(&mut frame, Draw::MoveTo(self.current_pos));
        emit(&mut frame, Draw::CursorUnderscore);
        assert(frame_view(frame@) =~= spec_display_picker(self@));
        frame
    }
}

impl Form {
    /// The steps that draw the hint for the picker key, if it is to be shown.
    pub fn display_hint(&self) -> (r: Vec<Draw>)
        ensures
            frame_view(r@) == spec_hint(self@),
    {
        let mut frame: Vec<Draw> = Vec::new();
        assert(frame_view(frame@) =~= Seq::empty());
        if let Some(i) = self.current_field() {
            if self.inputs[i].select != Select::NoSelect {
                emit(&mut frame, Draw::MoveTo(Pos { x: HINT_COLUMN, y: FRAME_ROWS }));
                emit(&mut frame, Draw::Foreground(Color::DarkGreen));
                emit(&mut frame, Draw::Print(" F4 - Select ".to_owned()));
                assert(frame_view(frame@) =~= spec_hint(self@));
            }
        }
        frame
    }

    /// The steps that draw the form as it stands: the open picker if there
    /// is one, and otherwise the frame, the labels, the fields and the
    /// cursor.
    pub fn display(&self) -> (r: Vec<Draw>)
        ensures
            frame_view(r@) == spec_display(self@),
    {
        if let Some(select_form) = &self.select_form {
            return select_form.display();
        }
        let mut frame: Vec<Draw> = Vec::new();
        emit(&mut frame, Draw::MoveTo(self.size));
        emit(&mut frame, Draw::ClearUp);
        emit_all(&mut frame, display_border());
        emit_all(&mut frame, self.display_hint());
        let ghost head = frame_view(frame@);
        assert(head =~= spec_clear(self.size) + spec_border() + spec_hint(self@));
        let mut i: usize = 0;
        while i < self.labels.len()
            invariant
                i <= self.labels.len(),
                frame_view(frame@) == head + spec_labels(self@.labels, i as int),
            decreases self.labels.len() - i,
        {
            emit(&mut frame, Draw::MoveTo(self.labels[i].pos));
            emit(&mut frame, Draw::Foreground(Color::White));
            emit(&mut frame, Draw::Print(self.labels[i].text.clone()));
            i = i + 1;
            assert(frame_view(frame@) =~= head + spec_labels(self@.labels, i as int));
        }
        let ghost labelled = frame_view(frame@);
        let mut j: usize = 0;
        while j < self.inputs.len()
            invariant
                j <= self.inputs.len(),
                frame_view(frame@) == labelled + spec_fields(self@.inputs, j as int),
            decreases self.inputs.len() - j,
        {
            emit_all(&mut frame, display_generic(&self.inputs[j]));
            j = j + 1;
            assert(frame_view(frame@) =~= labelled + spec_fields(self@.inputs, j as int));
        }
        emit(&mut frame, Draw::MoveTo(self.current_pos));
        emit(&mut frame, Draw::CursorUnderscore);
        assert(frame_view(frame@) =~= spec_display(self@));
        frame
    }
}

} // verus!
