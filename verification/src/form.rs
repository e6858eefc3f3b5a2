//! The form: labels, fields, a cursor, and at most one open choice picker.
//!
//! A form is in one of two states. While no picker is open it is *editing*:
//! an event goes first to the field under the cursor, then to the form's own
//! bindings. While a picker is open it is *overlaying*: the picker gets every
//! event, and the form's cursor does not move until the picker closes.

use crate::cursor::{moved, spec_moved};
use crate::event::{Event, EventHandlerResult, EventResult, KeyCode};
use crate::input::{Input, InputView, Select};
use crate::label::{Label, LabelView};
use crate::nav::{next_anchor, next_on_ring, prev_anchor, prev_on_ring, sort_anchors};
use crate::pos::Pos;
use crate::select_form::{blank_rows, first_field_pos, SelectForm, SelectFormView};
use vstd::prelude::*;

verus! {

/// The function key that asks for the picker.
pub const PICKER_KEY: u8 = 4;

/// Columns of the canvas a picker is laid out on.
pub const PICKER_COLUMNS: u16 = 80;

/// Rows of the canvas a picker is laid out on.
pub const PICKER_ROWS: u16 = 24;

/// A form.
#[derive(Debug, Clone)]
pub struct Form {
    pub labels: Vec<Label>,
    pub inputs: Vec<Input>,
    pub current_pos: Pos,
    pub size: Pos,
    pub select_form: Option<SelectForm>,
}

/// What a form holds, as mathematical values.
pub struct FormView {
    pub labels: Seq<LabelView>,
    pub inputs: Seq<InputView>,
    pub current_pos: Pos,
    pub size: Pos,
    pub select_form: Option<SelectFormView>,
}

impl View for Form {
    type V = FormView;

    open spec fn view(&self) -> FormView {
        FormView {
            labels: self.labels@.map_values(|l: Label| l@),
            inputs: self.inputs@.map_values(|i: Input| i@),
            current_pos: self.current_pos,
            size: self.size,
            select_form: match self.select_form {
                Some(s) => Some(s@),
                None => None,
            },
        }
    }
}

/// The first of `inputs` from index `i` on that has `cursor` on it.
pub open spec fn focus_from(inputs: Seq<InputView>, cursor: Pos, i: int) -> Option<int>
    decreases inputs.len() - i,
{
    if i < 0 || i >= inputs.len() {
        None
    } else if inputs[i].has_focus(cursor) {
        Some(i)
    } else {
        focus_from(inputs, cursor, i + 1)
    }
}

/// The first of `inputs` from index `i` on that is called `name`.
pub open spec fn named_from(inputs: Seq<InputView>, name: Seq<char>, i: int) -> Option<int>
    decreases inputs.len() - i,
{
    if i < 0 || i >= inputs.len() {
        None
    } else if inputs[i].name == name {
        Some(i)
    } else {
        named_from(inputs, name, i + 1)
    }
}

impl FormView {
    /// A form without labels and fields on a canvas of `size`, the cursor in
    /// the top left corner.
    pub open spec fn empty(size: Pos) -> FormView {
        FormView {
            labels: Seq::empty(),
            inputs: Seq::empty(),
            current_pos: Pos { x: 0, y: 0 },
            size,
            select_form: None,
        }
    }

    /// The anchors of the fields, in the order the fields were added.
    pub open spec fn anchors(self) -> Seq<Pos> {
        self.inputs.map_values(|i: InputView| i.pos)
    }

    /// The focused field: the first field, in the order they were added,
    /// that the cursor is on.
    pub open spec fn focus(self) -> Option<int> {
        focus_from(self.inputs, self.current_pos, 0)
    }

    /// The form with its cursor at `pos`.
    pub open spec fn with_cursor(self, pos: Pos) -> FormView {
        FormView { current_pos: pos, ..self }
    }

    /// The anchor Tab jumps to.
    pub open spec fn find_next(self) -> Option<Pos> {
        next_anchor(self.anchors(), self.current_pos)
    }

    /// The anchor Shift-Tab jumps to.
    pub open spec fn find_prev(self) -> Option<Pos> {
        prev_anchor(self.anchors(), self.current_pos)
    }

    /// After Tab: the cursor on the next anchor, or left alone when the form
    /// has no field.
    pub open spec fn next_input(self) -> FormView {
        match self.find_next() {
            Some(p) => self.with_cursor(p),
            None => self,
        }
    }

    /// After Shift-Tab.
    pub open spec fn prev_input(self) -> FormView {
        match self.find_prev() {
            Some(p) => self.with_cursor(p),
            None => self,
        }
    }

    /// The form with its cursor on the anchor that follows the cursor on the
    /// ring, or at `(0, 0)` when the form has no field.
    pub open spec fn place_cursor(self) -> FormView {
        self.with_cursor(
            match self.find_next() {
                Some(p) => p,
                None => Pos { x: 0, y: 0 },
            },
        )
    }

    /// After an arrow key.
    pub open spec fn move_event(self, code: KeyCode) -> FormView {
        self.with_cursor(spec_moved(self.current_pos, code, self.size))
    }

    /// The picker can open: a field has the cursor, it declares a selection
    /// mode, and it has at least one choice.
    pub open spec fn offers_picker(self) -> bool {
        match self.focus() {
            Some(i) => self.inputs[i].select != Select::NoSelect && self.inputs[i].select_static.len()
                > 0,
            None => false,
        }
    }

    /// The picker over the focused field's choices, as it is when it opens.
    pub open spec fn picker(self) -> SelectFormView {
        let field = self.inputs[self.focus()->0];
        SelectFormView {
            items: blank_rows(field.select_static),
            current_pos: first_field_pos(),
            size: Pos { x: PICKER_COLUMNS, y: PICKER_ROWS },
            select_type: field.select,
        }
    }

    /// After the picker was submitted with `selection`: the picker is gone,
    /// the focused field holds the first selected id (nothing when none was
    /// selected), and the cursor is on that field's anchor.
    pub open spec fn submit_picker(self, selection: Seq<Seq<char>>) -> FormView {
        let closed = FormView { select_form: None, ..self };
        let value = if selection.len() > 0 {
            selection[0]
        } else {
            Seq::empty()
        };
        match self.focus() {
            Some(i) => FormView {
                inputs: self.inputs.update(i, self.inputs[i].with_value(value)),
                current_pos: self.inputs[i].pos,
                ..closed
            },
            None => closed,
        }
    }

    /// What an overlaying form makes of `event`: the picker gets it. A
    /// submission or an abort closes the picker and the form goes on; the
    /// caller sees neither.
    pub open spec fn handle_overlaying(self, event: Event) -> (FormView, EventHandlerResult)
        recommends
            self.select_form is Some,
    {
        let (picker, result) = self.select_form->0.handle(event);
        match result {
            EventHandlerResult::Handled(EventResult::Submit) => (
                self.submit_picker(picker.selection()),
                EventHandlerResult::Handled(EventResult::Nothing),
            ),
            EventHandlerResult::Handled(EventResult::Abort) => (
                FormView { select_form: None, ..self },
                EventHandlerResult::Handled(EventResult::Nothing),
            ),
            _ => (FormView { select_form: Some(picker), ..self }, result),
        }
    }

    /// What the form's own bindings make of `event`.
    pub open spec fn handle_bindings(self, event: Event) -> (FormView, EventHandlerResult) {
        let handled = EventHandlerResult::Handled(EventResult::Nothing);
        match event {
            Event::Key(k) => match k.code {
                KeyCode::Esc => (self, EventHandlerResult::Handled(EventResult::Abort)),
                KeyCode::Enter => (self, EventHandlerResult::Handled(EventResult::Submit)),
                KeyCode::Left | KeyCode::Right | KeyCode::Up | KeyCode::Down => (
                    self.move_event(k.code),
                    handled,
                ),
                KeyCode::Tab => (self.next_input(), handled),
                KeyCode::BackTab => (self.prev_input(), handled),
                KeyCode::F(n) => {
                    if n != PICKER_KEY {
                        (self, EventHandlerResult::NotHandled)
                    } else if self.offers_picker() {
                        (FormView { select_form: Some(self.picker()), ..self }, handled)
                    } else {
                        (self, handled)
                    }
                },
                _ => (self, EventHandlerResult::NotHandled),
            },
            Event::Other => (self, EventHandlerResult::NotHandled),
        }
    }

    /// What an editing form makes of `event`: the focused field has first
    /// refusal; what it declines goes to the form's own bindings.
    pub open spec fn handle_editing(self, event: Event) -> (FormView, EventHandlerResult) {
        match self.focus() {
            Some(i) => {
                let (field, cursor, result) = self.inputs[i].handle(event, self.current_pos);
                if result is Handled {
                    (
                        FormView {
                            inputs: self.inputs.update(i, field),
                            current_pos: cursor,
                            ..self
                        },
                        result,
                    )
                } else {
                    self.handle_bindings(event)
                }
            },
            None => self.handle_bindings(event),
        }
    }

    /// One step of the form: the form after `event`, and the outcome.
    pub open spec fn handle(self, event: Event) -> (FormView, EventHandlerResult) {
        if self.select_form is Some {
            self.handle_overlaying(event)
        } else {
            self.handle_editing(event)
        }
    }

    /// The `(name, value)` pair of every field, in the order the fields were
    /// added.
    pub open spec fn field_data(self) -> Seq<(Seq<char>, Seq<char>)> {
        self.inputs.map_values(|i: InputView| (i.name, i.value))
    }

    /// The first field called `name`.
    pub open spec fn named(self, name: Seq<char>) -> Option<int> {
        named_from(self.inputs, name, 0)
    }

    /// The field at `i` with the choice `(id, text)` added: a field without a
    /// selection mode becomes single-selection.
    pub open spec fn with_choice(self, i: int, id: Seq<char>, text: Seq<char>) -> FormView {
        let field = self.inputs[i];
        FormView {
            inputs: self.inputs.update(
                i,
                InputView {
                    select: if field.select == Select::NoSelect {
                        Select::Single
                    } else {
                        field.select
                    },
                    select_static: field.select_static.push((id, text)),
                    ..field
                },
            ),
            ..self
        }
    }
}

impl Form {
    /// An empty form on a canvas of `size.x` columns and `size.y` rows, the
    /// cursor in the top left corner.
    pub fn new(size: Pos) -> (r: Form)
        ensures
            r@ == FormView::empty(size),
    {
        let r = Form {
            labels: Vec::new(),
            inputs: Vec::new(),
            current_pos: Pos { x: 0, y: 0 },
            size,
            select_form: None,
        };
        assert(r@.labels =~= Seq::empty());
        assert(r@.inputs =~= Seq::empty());
        r
    }

    /// The form with a label showing `text` at `pos` added.
    pub fn add_text(self, pos: Pos, text: &str) -> (r: Form)
        ensures
            r@ == (FormView { labels: self@.labels.push(LabelView { pos, text: text@ }), ..self@ }),
    {
        let mut form = self;
        form.add_label(Label::new_label(pos, text));
        form
    }

    /// Adds a label.
    pub fn add_label(&mut self, label: Label)
        ensures
            final(self)@ == (FormView { labels: old(self)@.labels.push(label@), ..old(self)@ }),
    {
        self.labels.push(label);
        assert(self@.labels =~= old(self)@.labels.push(label@));
    }

    /// Adds a field after the fields already there.
    pub fn add_input(&mut self, input: Input)
        ensures
            final(self)@ == (FormView { inputs: old(self)@.inputs.push(input@), ..old(self)@ }),
    {
        self.inputs.push(input);
        assert(self@.inputs =~= old(self)@.inputs.push(input@));
    }

    /// Index of the first field called `name`.
    pub fn find_input(&self, name: &String) -> (r: Option<usize>)
        ensures
            r.is_some() == self@.named(name@).is_some(),
            r.is_some() ==> r.unwrap() == self@.named(name@).unwrap(),
            r.is_some() ==> r.unwrap() < self.inputs.len(),
    {
        let mut i: usize = 0;
        while i < self.inputs.len()
            invariant
                i <= self.inputs.len(),
                self@.named(name@) == named_from(self@.inputs, name@, i as int),
            decreases self.inputs.len() - i,
        {
            if self.inputs[i].name == *name {
                return Some(i);
            }
            i = i + 1;
        }
        None
    }

    /// Attaches the choice `(id, value)` to the first field called `input`.
    /// A field without a selection mode becomes single-selection with its
    /// first choice.
    pub fn add_select(&mut self, input: String, id: String, value: String)
        requires
            old(self)@.named(input@) is Some,
        ensures
            final(self)@ == old(self)@.with_choice(old(self)@.named(input@)->0, id@, value@),
    {
        let found = self.find_input(&input);
        let i: usize = found.unwrap();
        if self.inputs[i].select == Select::NoSelect {
            self.inputs[i].select = Select::Single;
        }
        self.inputs[i].select_static.push((id, value));
        assert(self@.inputs[i as int].select_static =~= old(self)@.inputs[i as int].select_static.push(
            (id@, value@),
        ));
        assert(self@.inputs =~= old(self)@.with_choice(i as int, id@, value@).inputs);
    }

    /// The form with the cursor on the anchor that follows the cursor on the
    /// ring, or at `(0, 0)` when there is no field. On a form whose cursor
    /// was never moved this is the first field, unless a field is anchored at
    /// `(0, 0)` itself.
    pub fn place_cursor(self) -> (r: Form)
        ensures
            r@ == self@.place_cursor(),
    {
        let mut form = self;
        form.current_pos = match form.find_next_input() {
            Some(p) => p,
            None => Pos { x: 0, y: 0 },
        };
        form
    }

    /// The value of the first field called `field_name`.
    pub fn get_input(&self, field_name: &str) -> (r: Option<String>)
        ensures
            r.is_some() == self@.named(field_name@).is_some(),
            r.is_some() ==> r.unwrap()@ == self@.inputs[self@.named(field_name@).unwrap()].value,
    {
        let name: String = field_name.to_owned();
        match self.find_input(&name) {
            Some(i) => Some(self.inputs[i].value.clone()),
            None => None,
        }
    }

    /// The name and the value of every field, in the order the fields were
    /// added, values as they stand.
    pub fn get_field_and_data(&self) -> (r: Vec<(&str, &str)>)
        ensures
            r@.map_values(|p: (&str, &str)| (p.0@, p.1@)) == self@.field_data(),
    {
        let mut output: Vec<(&str, &str)> = Vec::new();
        let mut i: usize = 0;
        while i < self.inputs.len()
            invariant
                i <= self.inputs.len(),
                output@.len() == i,
                forall|j: int|
                    0 <= j < i ==> (#[trigger] output@[j]).0@ == self.inputs@[j].name@
                        && output@[j].1@ == self.inputs@[j].value@,
            decreases self.inputs.len() - i,
        {
            output.push((self.inputs[i].name.as_str(), self.inputs[i].value.as_str()));
            i = i + 1;
        }
        assert(output@.map_values(|p: (&str, &str)| (p.0@, p.1@)) =~= self@.field_data());
        output
    }

    /// The anchors of the fields, in the order the fields were added.
    pub fn anchors(&self) -> (r: Vec<Pos>)
        ensures
            r@ == self@.anchors(),
    {
        let mut out: Vec<Pos> = Vec::new();
        let mut i: usize = 0;
        while i < self.inputs.len()
            invariant
                i <= self.inputs.len(),
                out@.len() == i,
                forall|j: int| 0 <= j < i ==> out@[j] == self.inputs@[j].pos,
            decreases self.inputs.len() - i,
        {
            out.push(self.inputs[i].pos);
            i = i + 1;
        }
        assert(out@ =~= self@.anchors());
        out
    }

    /// The anchor to jump forward to: with the fields sorted in row-major
    /// order, the first anchor after the cursor; from an anchor the cursor is
    /// on, the one that follows it; the first anchor where there is none
    /// further on. `None` when the form has no field.
    pub fn find_next_input(&self) -> (r: Option<Pos>)
        ensures
            r == self@.find_next(),
    {
        let anchors = self.anchors();
        let sorted = sort_anchors(&anchors);
        next_on_ring(&sorted, self.current_pos)
    }

    /// The anchor to jump backward to: the mirror image of
    /// [`Form::find_next_input`], wrapping to the last anchor.
    pub fn find_prev_input(&self) -> (r: Option<Pos>)
        ensures
            r == self@.find_prev(),
    {
        let anchors = self.anchors();
        let sorted = sort_anchors(&anchors);
        prev_on_ring(&sorted, self.current_pos)
    }

    /// Jumps to the next field; stays put when there is none.
    pub fn next_input(&mut self)
        ensures
            final(self)@ == old(self)@.next_input(),
    {
        if let Some(pos) = self.find_next_input() {
            self.current_pos = pos;
        }
    }

    /// Jumps to the previous field; stays put when there is none.
    pub fn prev_input(&mut self)
        ensures
            final(self)@ == old(self)@.prev_input(),
    {
        if let Some(pos) = self.find_prev_input() {
            self.current_pos = pos;
        }
    }

    /// Moves the cursor one cell for an arrow key, staying on the canvas.
    pub fn move_event(&mut self, code: KeyCode)
        ensures
            final(self)@ == old(self)@.move_event(code),
    {
        self.current_pos = moved(self.current_pos, code, self.size);
    }

    /// Index of the focused field: the first field the cursor is on.
    pub fn current_field(&self) -> (r: Option<usize>)
        ensures
            r.is_some() == self@.focus().is_some(),
            r.is_some() ==> r.unwrap() == self@.focus().unwrap(),
            r.is_some() ==> r.unwrap() < self.inputs.len(),
            r.is_some() ==> self@.inputs[r.unwrap() as int].has_focus(self.current_pos),
    {
        let mut i: usize = 0;
        while i < self.inputs.len()
            invariant
                i <= self.inputs.len(),
                self@.focus() == focus_from(self@.inputs, self.current_pos, i as int),
            decreases self.inputs.len() - i,
        {
            if self.inputs[i].has_focus(self.current_pos) {
                return Some(i);
            }
            i = i + 1;
        }
        None
    }
}

impl Form {
    /// Opens the picker over the focused field's choices, if that field
    /// offers one.
    fn open_picker(&mut self)
        requires
            old(self).select_form is None,
        ensures
            final(self)@ == (if old(self)@.offers_picker() {
                FormView { select_form: Some(old(self)@.picker()), ..old(self)@ }
            } else {
                old(self)@
            }),
    {
        if let Some(i) = self.current_field() {
            let field = &self.inputs[i];
            if field.select != Select::NoSelect && field.select_static.len() > 0 {
                let picker = SelectForm::new(
                    field.select_static.as_slice(),
                    Pos { x: PICKER_COLUMNS, y: PICKER_ROWS },
                    field.select,
                );
                self.select_form = Some(picker);
            }
        }
    }

    /// Closes a submitted picker: the focused field takes the first selected
    /// id and the cursor goes to that field's anchor.
    fn submit_picker(&mut self, selection: Vec<String>)
        ensures
            final(self)@ == old(self)@.submit_picker(
                selection@.map_values(|s: String| s@),
            ),
    {
        self.select_form = None;
        let value: String = if selection.len() > 0 {
            selection[0].clone()
        } else {
            String::new()
        };
        if let Some(i) = self.current_field() {
            self.inputs[i].value = value;
            self.current_pos = self.inputs[i].pos;
            assert(self@.inputs =~= old(self)@.inputs.update(
                i as int,
                old(self)@.inputs[i as int].with_value(value@),
            ));
        }
    }

    /// The form's own bindings: Escape aborts, Enter submits, arrows move the
    /// cursor, Tab and Shift-Tab jump between fields, F4 asks for the picker.
    fn handle_bindings(&mut self, event: &Event) -> (r: EventHandlerResult)
        requires
            old(self).select_form is None,
        ensures
            (final(self)@, r) == old(self)@.handle_bindings(*event),
    {
        match event {
            Event::Key(k) => match k.code {
                KeyCode::Esc => {
                    return EventHandlerResult::Handled(EventResult::Abort);
                },
                KeyCode::Enter => {
                    return EventHandlerResult::Handled(EventResult::Submit);
                },
                KeyCode::Left | KeyCode::Right | KeyCode::Up | KeyCode::Down => {
                    self.move_event(k.code);
                },
                KeyCode::Tab => {
                    self.next_input();
                },
                KeyCode::BackTab => {
                    self.prev_input();
                },
                KeyCode::F(n) => {
                    if n != PICKER_KEY {
                        return EventHandlerResult::NotHandled;
                    }
                    self.open_picker();
                },
                _ => {
                    return EventHandlerResult::NotHandled;
                },
            },
            Event::Other => {
                return EventHandlerResult::NotHandled;
            },
        }
        EventHandlerResult::Handled(EventResult::Nothing)
    }

    /// Feeds one event to the form.
    ///
    /// An open picker gets the event; its submission or abort closes it and
    /// is reported as handled with nothing to report. Otherwise the focused
    /// field is offered the event first, then the form's own bindings. An
    /// event nobody claims comes back as not handled.
    pub fn event_handler(&mut self, event: &Event) -> (r: EventHandlerResult)
        ensures
            (final(self)@, r) == old(self)@.handle(*event),
    {
        if let Some(select_form) = &mut self.select_form {
            let result = select_form.event_handler(event);
            match result {
                EventHandlerResult::Handled(EventResult::Submit) => {
                    let selected = select_form.get_selection();
                    self.submit_picker(selected);
                    return EventHandlerResult::Handled(EventResult::Nothing);
                },
                EventHandlerResult::Handled(EventResult::Abort) => {
                    self.select_form = None;
                    return EventHandlerResult::Handled(EventResult::Nothing);
                },
                _ => {
                    return result;
                },
            }
        }
        if let Some(i) = self.current_field() {
            let mut current_pos: Pos = self.current_pos;
            let result = self.inputs[i].event_handler(event, &mut current_pos);
            if let EventHandlerResult::Handled(_) = result {
                self.current_pos = current_pos;
                assert(self@.inputs =~= old(self)@.inputs.update(
                    i as int,
                    old(self)@.inputs[i as int].handle(*event, old(self).current_pos).0,
                ));
                return result;
            }
            assert(self@.inputs =~= old(self)@.inputs);
        }
        self.handle_bindings(event)
    }
}

} // verus!
