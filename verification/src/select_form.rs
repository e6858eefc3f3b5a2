//! The choice picker: a modal list of rows, each with a one-character
//! marker, laid out in bands of two rows below a fixed first row.

use crate::cursor::{moved, spec_moved};
use crate::event::{Event, EventHandlerResult, EventResult, KeyCode};
use crate::input::{choices_view, Select};
use crate::pos::Pos;
use crate::text::strings_view;
use vstd::prelude::*;

verus! {

/// Column of every row's marker.
pub const FIRST_FIELD_X: u16 = 20;

/// Row of the first choice.
pub const FIRST_FIELD_Y: u16 = 5;

/// Rows from one choice to the next.
pub const ROW_HEIGHT: u16 = 2;

/// The marker that makes a row part of the selection.
pub const SELECTED_MARK: char = 's';

/// The marker of a row that is not selected.
pub const BLANK_MARK: char = ' ';

/// The marker cell of the first choice.
pub open spec fn spec_first_field_pos() -> Pos {
    Pos { x: FIRST_FIELD_X, y: FIRST_FIELD_Y }
}

/// The marker cell of the first choice.
#[verifier::when_used_as_spec(spec_first_field_pos)]
pub fn first_field_pos() -> (r: Pos)
    ensures
        r == spec_first_field_pos(),
{
    Pos { x: FIRST_FIELD_X, y: FIRST_FIELD_Y }
}

/// One row of the picker.
#[derive(Debug, Clone)]
pub struct Item {
    pub choice: char,
    pub id: String,
    pub text: String,
}

/// What a row holds, as mathematical values.
pub struct ItemView {
    pub choice: char,
    pub id: Seq<char>,
    pub text: Seq<char>,
}

impl View for Item {
    type V = ItemView;

    open spec fn view(&self) -> ItemView {
        ItemView { choice: self.choice, id: self.id@, text: self.text@ }
    }
}

/// A choice becomes a row with a blank marker.
impl From<&(String, String)> for Item {
    fn from(value: &(String, String)) -> (r: Item) {
        Item { choice: BLANK_MARK, id: value.0.clone(), text: value.1.clone() }
    }
}

impl vstd::std_specs::convert::FromSpecImpl<&(String, String)> for Item {
    open spec fn obeys_from_spec() -> bool {
        true
    }

    open spec fn from_spec(value: &(String, String)) -> Item {
        Item { choice: BLANK_MARK, id: value.0, text: value.1 }
    }
}

/// The choice picker.
#[derive(Debug, Clone)]
pub struct SelectForm {
    pub items: Vec<Item>,
    pub current_pos: Pos,
    pub size: Pos,
    pub select_type: Select,
}

/// What the picker holds, as mathematical values.
pub struct SelectFormView {
    pub items: Seq<ItemView>,
    pub current_pos: Pos,
    pub size: Pos,
    pub select_type: Select,
}

impl View for SelectForm {
    type V = SelectFormView;

    open spec fn view(&self) -> SelectFormView {
        SelectFormView {
            items: self.items@.map_values(|i: Item| i@),
            current_pos: self.current_pos,
            size: self.size,
            select_type: self.select_type,
        }
    }
}

/// The rows a choice list starts as: every marker blank.
pub open spec fn blank_rows(choices: Seq<(Seq<char>, Seq<char>)>) -> Seq<ItemView> {
    choices.map_values(
        |c: (Seq<char>, Seq<char>)| ItemView { choice: BLANK_MARK, id: c.0, text: c.1 },
    )
}

/// The ordinal of a cell when the canvas is read row by row.
pub open spec fn flat(size: Pos, pos: Pos) -> int {
    size.x * pos.y + pos.x
}

/// The marker cell of row `k`.
pub open spec fn row_pos(k: int) -> Pos {
    Pos { x: FIRST_FIELD_X, y: (FIRST_FIELD_Y + ROW_HEIGHT * k) as u16 }
}

impl SelectFormView {
    /// The ids of the rows marked as selected, in row order.
    pub open spec fn selection(self) -> Seq<Seq<char>> {
        self.items.filter_map(
            |i: ItemView|
                if i.choice == SELECTED_MARK {
                    Some(i.id)
                } else {
                    None
                },
        )
    }

    /// The row whose marker cell the cursor is on, if it is on one.
    pub open spec fn row_under_cursor(self) -> Option<int> {
        let c = self.current_pos;
        if c.x == FIRST_FIELD_X && c.y >= FIRST_FIELD_Y && (c.y - FIRST_FIELD_Y) % (
        ROW_HEIGHT as int) == 0 && (c.y - FIRST_FIELD_Y) / (ROW_HEIGHT as int) < self.items.len() {
            Some((c.y - FIRST_FIELD_Y) / (ROW_HEIGHT as int))
        } else {
            None
        }
    }

    /// Typing `key`: on a marker cell it becomes that row's marker; anywhere
    /// else nothing changes.
    pub open spec fn key(self, key: char) -> SelectFormView {
        match self.row_under_cursor() {
            Some(k) => SelectFormView {
                items: self.items.update(k, ItemView { choice: key, ..self.items[k] }),
                ..self
            },
            None => self,
        }
    }

    /// The picker with its cursor at `pos`.
    pub open spec fn with_cursor(self, pos: Pos) -> SelectFormView {
        SelectFormView { current_pos: pos, ..self }
    }

    /// The marker cell of the last row (one band above the first row when
    /// there is no row); `None` when its row is off the coordinate grid.
    pub open spec fn last_row(self) -> Option<Pos> {
        if FIRST_FIELD_Y + ROW_HEIGHT * self.items.len() - ROW_HEIGHT <= u16::MAX {
            Some(row_pos(self.items.len() - 1))
        } else {
            None
        }
    }

    /// The marker cell to jump forward to. The cursor's ordinal, counted from
    /// the first marker cell and divided by the height of a band, gives the
    /// row it is in; the target is the row after it, and the first row when
    /// the cursor is above the first row or in the last band or below.
    /// `None` when the canvas has no columns to count by, or the target row
    /// is off the coordinate grid.
    pub open spec fn find_next(self) -> Option<Pos> {
        let w = self.size.x as int;
        let first = flat(self.size, first_field_pos());
        let cur = flat(self.size, self.current_pos);
        if cur < first {
            Some(first_field_pos())
        } else if w == 0 {
            None
        } else {
            let choice = (cur - first + w * ROW_HEIGHT) / w / (ROW_HEIGHT as int);
            if choice >= self.items.len() {
                Some(first_field_pos())
            } else if FIRST_FIELD_Y + ROW_HEIGHT * choice > u16::MAX {
                None
            } else {
                Some(row_pos(choice))
            }
        }
    }

    /// The marker cell to jump backward to: the row before the one the
    /// cursor is in, and the last row when the cursor is on the first marker
    /// cell, above it, or below the last band. `None` as for
    /// [`SelectFormView::find_next`].
    pub open spec fn find_prev(self) -> Option<Pos> {
        let w = self.size.x as int;
        let first = flat(self.size, first_field_pos());
        let cur = flat(self.size, self.current_pos);
        if cur <= first {
            self.last_row()
        } else if w == 0 {
            None
        } else {
            let choice = (cur - first - 1) / w / (ROW_HEIGHT as int);
            if choice >= self.items.len() {
                self.last_row()
            } else if FIRST_FIELD_Y + ROW_HEIGHT * choice > u16::MAX {
                None
            } else {
                Some(row_pos(choice))
            }
        }
    }

    /// After a jump forward: the cursor on the target, or left alone when
    /// there is none.
    pub open spec fn next_input(self) -> SelectFormView {
        match self.find_next() {
            Some(p) => self.with_cursor(p),
            None => self,
        }
    }

    /// After a jump backward.
    pub open spec fn prev_input(self) -> SelectFormView {
        match self.find_prev() {
            Some(p) => self.with_cursor(p),
            None => self,
        }
    }

    /// Submission is accepted in multi-selection mode always, and in
    /// single-selection mode when at most one row is marked as selected.
    pub open spec fn accepts_submit(self) -> bool {
        match self.select_type {
            Select::Single => self.selection().len() <= 1,
            Select::Multi => true,
            Select::NoSelect => false,
        }
    }

    /// What the picker makes of `event`: the picker after it and the outcome.
    pub open spec fn handle(self, event: Event) -> (SelectFormView, EventHandlerResult) {
        let handled = EventHandlerResult::Handled(EventResult::Nothing);
        match event {
            Event::Key(k) => match k.code {
                KeyCode::Esc => (self, EventHandlerResult::Handled(EventResult::Abort)),
                KeyCode::Enter => {
                    if self.accepts_submit() {
                        (self, EventHandlerResult::Handled(EventResult::Submit))
                    } else {
                        (self, handled)
                    }
                },
                KeyCode::Left | KeyCode::Right | KeyCode::Up | KeyCode::Down => (
                    self.with_cursor(spec_moved(self.current_pos, k.code, self.size)),
                    handled,
                ),
                KeyCode::Tab => (self.next_input(), handled),
                KeyCode::BackTab => (self.prev_input(), handled),
                KeyCode::Backspace | KeyCode::Delete => (self.key(BLANK_MARK), handled),
                KeyCode::Char(c) => {
                    if k.modifiers.is_empty() {
                        (self.key(c), handled)
                    } else {
                        (self, EventHandlerResult::NotHandled)
                    }
                },
                _ => (self, EventHandlerResult::NotHandled),
            },
            Event::Other => (self, EventHandlerResult::NotHandled),
        }
    }
}

impl SelectForm {
    /// A picker over `items`, each an `(id, text)` pair: every marker blank,
    /// the cursor on the first row's marker.
    pub fn new(items: &[(String, String)], size: Pos, select_type: Select) -> (r: SelectForm)
        ensures
            r@ == (SelectFormView {
                items: blank_rows(choices_view(items@)),
                current_pos: first_field_pos(),
                size,
                select_type,
            }),
    {
        let mut rows: Vec<Item> = Vec::new();
        let mut i: usize = 0;
        while i < items.len()
            invariant
                i <= items.len(),
                rows@.len() == i,
                forall|j: int|
                    0 <= j < i ==> (#[trigger] rows@[j])@ == (ItemView {
                        choice: BLANK_MARK,
                        id: items@[j].0@,
                        text: items@[j].1@,
                    }),
            decreases items.len() - i,
        {
            rows.push(Item::from(&items[i]));
            i = i + 1;
        }
        let r = SelectForm { items: rows, current_pos: first_field_pos(), size, select_type };
        assert(r@.items =~= blank_rows(choices_view(items@)));
        r
    }

    /// The ids of the rows marked as selected, in row order.
    pub fn get_selection(&self) -> (r: Vec<String>)
        ensures
            strings_view(r@) == self@.selection(),
    {
        let ghost pick = |i: ItemView|
            if i.choice == SELECTED_MARK {
                Some(i.id)
            } else {
                None
            };
        let mut out: Vec<String> = Vec::new();
        let mut i: usize = 0;
        assert(self@.items.take(0) =~= Seq::<ItemView>::empty());
        while i < self.items.len()
            invariant
                i <= self.items.len(),
                pick == |i: ItemView|
                    if i.choice == SELECTED_MARK {
                        Some(i.id)
                    } else {
                        None
                    },
                strings_view(out@) == self@.items.take(i as int).filter_map(pick),
            decreases self.items.len() - i,
        {
            proof {
                self@.items.lemma_filter_map_take_succ(pick, i as int);
            }
            if self.items[i].choice == SELECTED_MARK {
                let ghost before = out@;
                out.push(self.items[i].id.clone());
                assert(strings_view(out@) =~= strings_view(before).push(self@.items[i as int].id));
            }
            i = i + 1;
        }
        assert(self@.items.take(i as int) =~= self@.items);
        out
    }

    /// Moves the cursor one cell for an arrow key, staying on the canvas.
    pub fn move_event(&mut self, code: KeyCode)
        ensures
            final(self)@ == old(self)@.with_cursor(
                spec_moved(old(self).current_pos, code, old(self).size),
            ),
    {
        self.current_pos = moved(self.current_pos, code, self.size);
    }

    /// Writes `key` as the marker of the row whose marker cell the cursor is
    /// on; does nothing anywhere else.
    pub fn key(&mut self, key: char)
        ensures
            final(self)@ == old(self)@.key(key),
    {
        if self.current_pos.x != FIRST_FIELD_X || self.current_pos.y < FIRST_FIELD_Y {
            return ;
        }
        let i: u16 = self.current_pos.y - FIRST_FIELD_Y;
        if i % ROW_HEIGHT != 0 {
            return ;
        }
        let choice: usize = (i / ROW_HEIGHT) as usize;
        if choice >= self.items.len() {
            return ;
        }
        self.items[choice].choice = key;
        assert(self@.items =~= old(self)@.items.update(
            choice as int,
            ItemView { choice: key, ..old(self)@.items[choice as int] },
        ));
    }

    /// Backspace clears the marker under the cursor.
    pub fn key_backspace(&mut self)
        ensures
            final(self)@ == old(self)@.key(BLANK_MARK),
    {
        self.key(BLANK_MARK);
    }

    /// Delete clears the marker under the cursor.
    pub fn key_delete(&mut self)
        ensures
            final(self)@ == old(self)@.key(BLANK_MARK),
    {
        self.key(BLANK_MARK);
    }
}

/// The ordinal of `pos` on a canvas of `size.x` columns.
pub fn pos_to_flat(size: Pos, pos: Pos) -> (r: u64)
    ensures
        r == flat(size, pos),
        r <= 0xffff_ffff,
{
    assert(size.x * pos.y <= 0xffff * 0xffff) by (nonlinear_arith)
        requires
            0 <= size.x <= 0xffff,
            0 <= pos.y <= 0xffff,
    ;
    (size.x as u64) * (pos.y as u64) + (pos.x as u64)
}

impl SelectForm {
    /// The marker cell of row `choice`, if its row is on the coordinate grid.
    fn row_at(choice: u64) -> (r: Option<Pos>)
        ensures
            r == (if FIRST_FIELD_Y + ROW_HEIGHT * choice > u16::MAX {
                None
            } else {
                Some(row_pos(choice as int))
            }),
    {
        if choice > ((u16::MAX - FIRST_FIELD_Y) / ROW_HEIGHT) as u64 {
            None
        } else {
            Some(Pos { x: FIRST_FIELD_X, y: FIRST_FIELD_Y + ROW_HEIGHT * (choice as u16) })
        }
    }

    /// The marker cell of the last row.
    fn last_row(&self) -> (r: Option<Pos>)
        ensures
            r == self@.last_row(),
    {
        let n: usize = self.items.len();
        if n == 0 {
            Some(Pos { x: FIRST_FIELD_X, y: FIRST_FIELD_Y - ROW_HEIGHT })
        } else {
            Self::row_at((n - 1) as u64)
        }
    }

    /// The marker cell that Tab jumps to.
    pub fn find_next_input(&self) -> (r: Option<Pos>)
        ensures
            r == self@.find_next(),
    {
        let first: u64 = pos_to_flat(self.size, first_field_pos());
        let current: u64 = pos_to_flat(self.size, self.current_pos);
        if current < first {
            return Some(first_field_pos());
        }
        if self.size.x == 0 {
            return None;
        }
        let w: u64 = self.size.x as u64;
        assert(w * ROW_HEIGHT == w + w);
        let choice: u64 = (current - first + w * (ROW_HEIGHT as u64)) / w / (ROW_HEIGHT as u64);
        if choice >= self.items.len() as u64 {
            Some(first_field_pos())
        } else {
            Self::row_at(choice)
        }
    }

    /// The marker cell that Shift-Tab jumps to.
    pub fn find_prev_input(&self) -> (r: Option<Pos>)
        ensures
            r == self@.find_prev(),
    {
        let first: u64 = pos_to_flat(self.size, first_field_pos());
        let current: u64 = pos_to_flat(self.size, self.current_pos);
        if current <= first {
            return self.last_row();
        }
        if self.size.x == 0 {
            return None;
        }
        let w: u64 = self.size.x as u64;
        let choice: u64 = (current - first - 1) / w / (ROW_HEIGHT as u64);
        if choice >= self.items.len() as u64 {
            self.last_row()
        } else {
            Self::row_at(choice)
        }
    }

    /// Jumps to the next row's marker; stays put when there is no target.
    pub fn next_input(&mut self)
        ensures
            final(self)@ == old(self)@.next_input(),
    {
        if let Some(pos) = self.find_next_input() {
            self.current_pos = pos;
        }
    }

    /// Jumps to the previous row's marker; stays put when there is no target.
    pub fn prev_input(&mut self)
        ensures
            final(self)@ == old(self)@.prev_input(),
    {
        if let Some(pos) = self.find_prev_input() {
            self.current_pos = pos;
        }
    }

    /// True when Enter submits: always in multi-selection mode, with at most
    /// one row selected in single-selection mode.
    pub fn accepts_submit(&self) -> (r: bool)
        ensures
            r == self@.accepts_submit(),
    {
        match self.select_type {
            Select::Single => self.get_selection().len() <= 1,
            Select::Multi => true,
            Select::NoSelect => false,
        }
    }

    /// Feeds one event to the picker. Escape aborts; Enter submits when the
    /// selection is acceptable and is swallowed when it is not; arrows, Tab
    /// and Shift-Tab move; Backspace, Delete and unmodified characters write
    /// the marker under the cursor; everything else is declined.
    pub fn event_handler(&mut self, event: &Event) -> (r: EventHandlerResult)
        ensures
            (final(self)@, r) == old(self)@.handle(*event),
    {
        match event {
            Event::Key(k) => match k.code {
                KeyCode::Esc => {
                    return EventHandlerResult::Handled(EventResult::Abort);
                },
                KeyCode::Enter => {
                    if self.accepts_submit() {
                        return EventHandlerResult::Handled(EventResult::Submit);
                    }
                },
                KeyCode::Left | KeyCode::Right | KeyCode::Up | KeyCode::Down => {
                    self.move_event(k.code);
                },
                KeyCode::Tab => {
                    self.next_input();
                },
                KeyCode::BackTab => {
                    self.prev_input();
                },
                KeyCode::Backspace => {
                    self.key_backspace();
                },
                KeyCode::Delete => {
                    self.key_delete();
                },
                KeyCode::Char(c) => {
                    if k.modifiers.is_empty() {
                        self.key(c);
                    } else {
                        return EventHandlerResult::NotHandled;
                    }
                },
                _ => {
                    return EventHandlerResult::NotHandled;
                },
            },
            Event::Other => {
                return EventHandlerResult::NotHandled;
            },
        }
        EventHandlerResult::Handled(EventResult::Nothing)
    }
}

/// In single-selection mode a picker with two or more rows marked as
/// selected does not submit: Enter is swallowed and nothing changes.
pub proof fn lemma_single_rejects_many(form: SelectFormView, event: Event)
    requires
        form.select_type == Select::Single,
        form.selection().len() >= 2,
        event matches Event::Key(k) && k.code == KeyCode::Enter,
    ensures
        form.handle(event) == (form, EventHandlerResult::Handled(EventResult::Nothing)),
{
}

/// A picker submits only a selection its mode allows: whenever an event is
/// answered with a submission, the picker is unchanged, and in
/// single-selection mode at most one id is selected.
pub proof fn lemma_submit_is_acceptable(form: SelectFormView, event: Event)
    requires
        form.handle(event).1 == EventHandlerResult::Handled(EventResult::Submit),
    ensures
        form.handle(event).0 == form,
        form.select_type != Select::NoSelect,
        form.select_type == Select::Single ==> form.selection().len() <= 1,
{
}

/// The rows of a picker form a ring. With the cursor on the marker of row
/// `k` of `n` rows, on a canvas with at least one column, Tab goes to row
/// `k + 1` and from the last row to the first, Shift-Tab to row `k - 1` and
/// from the first row to the last.
pub proof fn lemma_rows_form_a_ring(form: SelectFormView, k: int)
    requires
        form.size.x >= 1,
        0 <= k < form.items.len(),
        FIRST_FIELD_Y + ROW_HEIGHT * form.items.len() <= u16::MAX,
        form.current_pos == row_pos(k),
    ensures
        form.find_next() == Some(
            row_pos(
                if k + 1 < form.items.len() {
                    k + 1
                } else {
                    0
                },
            ),
        ),
        form.find_prev() == Some(
            row_pos(
                if k >= 1 {
                    k - 1
                } else {
                    form.items.len() - 1
                },
            ),
        ),
{
    let w = form.size.x as int;
    let first = flat(form.size, first_field_pos());
    let cur = flat(form.size, form.current_pos);
    assert(cur - first == w * (2 * k)) by (nonlinear_arith)
        requires
            cur == w * (5 + 2 * k) + 20,
            first == w * 5 + 20,
    ;
    assert((cur - first + w * 2) / w == 2 * k + 2) by (nonlinear_arith)
        requires
            cur - first == w * (2 * k),
            w >= 1,
    ;
    if k >= 1 {
        assert(cur - first >= 1 && (cur - first - 1) / w == 2 * k - 1) by (nonlinear_arith)
            requires
                cur - first == w * (2 * k),
                w >= 1,
                k >= 1,
        ;
        assert((2 * k - 1) / 2 == k - 1);
    }
}

/// Walking the rows with Tab and back with Shift-Tab returns to the row the
/// cursor started on, and the other way round.
pub proof fn lemma_rows_round_trip(form: SelectFormView, k: int)
    requires
        form.size.x >= 1,
        0 <= k < form.items.len(),
        FIRST_FIELD_Y + ROW_HEIGHT * form.items.len() <= u16::MAX,
        form.current_pos == row_pos(k),
    ensures
        form.next_input().prev_input() == form,
        form.prev_input().next_input() == form,
{
    lemma_rows_form_a_ring(form, k);
    let up = if k + 1 < form.items.len() {
        k + 1
    } else {
        0
    };
    let down = if k >= 1 {
        k - 1
    } else {
        form.items.len() - 1
    };
    lemma_rows_form_a_ring(form.with_cursor(row_pos(up)), up);
    lemma_rows_form_a_ring(form.with_cursor(row_pos(down)), down);
}

} // verus!
