//! What holds of a form whatever it contains: who gets an event, what an
//! event can and cannot change, and how Tab walks the ring of fields.

use crate::event::{Event, EventHandlerResult, EventResult, KeyCode};
use crate::form::{focus_from, named_from, FormView};
use crate::ring_laws::{
    lemma_next_cycle_closes, lemma_next_then_prev_returns, lemma_target_is_anchor, walk_next,
};
use vstd::prelude::*;

verus! {

/// The form after Tab was pressed `k` times.
pub open spec fn tabbed(form: FormView, k: nat) -> FormView
    decreases k,
{
    if k == 0 {
        form
    } else {
        tabbed(form, (k - 1) as nat).next_input()
    }
}

/// Backspace with the cursor on the first cell of the focused field changes
/// nothing: not the value, not the cursor, nothing else of the form. The
/// event still counts as handled.
pub proof fn lemma_backspace_at_anchor_is_noop(form: FormView, event: Event)
    requires
        form.select_form is None,
        form.focus() is Some,
        form.current_pos.x == form.inputs[form.focus()->0].pos.x,
        event matches Event::Key(k) && k.code == KeyCode::Backspace,
    ensures
        form.handle(event) == (form, EventHandlerResult::Handled(EventResult::Nothing)),
{
    let i = form.focus()->0;
    lemma_focus_is_in_range(form);
    assert(form.inputs.update(i, form.inputs[i]) =~= form.inputs);
}

/// The focused field is a field of the form, the cursor is on it, and it is
/// the first such field in the order the fields were added.
pub proof fn lemma_focus_is_in_range(form: FormView)
    requires
        form.focus() is Some,
    ensures
        0 <= form.focus()->0 < form.inputs.len(),
        form.inputs[form.focus()->0].has_focus(form.current_pos),
        forall|j: int| 0 <= j < form.focus()->0 ==> !(#[trigger] form.inputs[j]).has_focus(form.current_pos),
{
    lemma_focus_from_is_first(form, 0);
}

/// No field is focused exactly when the cursor is on no field.
pub proof fn lemma_no_focus_off_every_field(form: FormView)
    ensures
        form.focus() is None <==> forall|j: int|
            0 <= j < form.inputs.len() ==> !(#[trigger] form.inputs[j]).has_focus(form.current_pos),
{
    lemma_focus_from_is_first(form, 0);
    if form.focus() is Some {
        assert(form.inputs[form.focus()->0].has_focus(form.current_pos));
    }
}

proof fn lemma_focus_from_is_first(form: FormView, i: int)
    requires
        0 <= i,
    ensures
        focus_from(form.inputs, form.current_pos, i) is Some ==> {
            &&& i <= focus_from(form.inputs, form.current_pos, i)->0 < form.inputs.len()
            &&& form.inputs[focus_from(form.inputs, form.current_pos, i)->0].has_focus(
                form.current_pos,
            )
            &&& forall|j: int|
                i <= j < focus_from(form.inputs, form.current_pos, i)->0 ==> !(
                #[trigger] form.inputs[j]).has_focus(form.current_pos)
        },
        focus_from(form.inputs, form.current_pos, i) is None ==> forall|j: int|
            i <= j < form.inputs.len() ==> !(#[trigger] form.inputs[j]).has_focus(form.current_pos),
    decreases form.inputs.len() - i,
{
    if i < form.inputs.len() && !form.inputs[i].has_focus(form.current_pos) {
        lemma_focus_from_is_first(form, i + 1);
    }
}

/// A name finds the first field so called, and nothing when no field is so
/// called.
pub proof fn lemma_named_is_first(form: FormView, name: Seq<char>)
    ensures
        form.named(name) is Some ==> {
            &&& 0 <= form.named(name)->0 < form.inputs.len()
            &&& form.inputs[form.named(name)->0].name == name
            &&& forall|j: int| 0 <= j < form.named(name)->0 ==> (#[trigger] form.inputs[j]).name != name
        },
        form.named(name) is None <==> forall|j: int|
            0 <= j < form.inputs.len() ==> (#[trigger] form.inputs[j]).name != name,
{
    lemma_named_from_is_first(form, name, 0);
    if form.named(name) is Some {
        assert(form.inputs[form.named(name)->0].name == name);
    }
}

proof fn lemma_named_from_is_first(form: FormView, name: Seq<char>, i: int)
    requires
        0 <= i,
    ensures
        named_from(form.inputs, name, i) is Some ==> {
            &&& i <= named_from(form.inputs, name, i)->0 < form.inputs.len()
            &&& form.inputs[named_from(form.inputs, name, i)->0].name == name
            &&& forall|j: int|
                i <= j < named_from(form.inputs, name, i)->0 ==> (#[trigger] form.inputs[j]).name
                    != name
        },
        named_from(form.inputs, name, i) is None ==> forall|j: int|
            i <= j < form.inputs.len() ==> (#[trigger] form.inputs[j]).name != name,
    decreases form.inputs.len() - i,
{
    if i < form.inputs.len() && form.inputs[i].name != name {
        lemma_named_from_is_first(form, name, i + 1);
    }
}

/// A character the focused field does not allow is swallowed: the event
/// counts as handled and nothing changes.
pub proof fn lemma_disallowed_character_is_swallowed(form: FormView, event: Event, c: char)
    requires
        form.select_form is None,
        form.focus() is Some,
        !form.inputs[form.focus()->0].accepts(c),
        event matches Event::Key(k) && k.code == KeyCode::Char(c) && k.modifiers.is_empty(),
    ensures
        form.handle(event) == (form, EventHandlerResult::Handled(EventResult::Nothing)),
{
    let i = form.focus()->0;
    lemma_focus_is_in_range(form);
    assert(form.inputs.update(i, form.inputs[i]) =~= form.inputs);
}

/// A full field takes no more: a character typed with the cursor on the
/// cell just past the focused field's end is swallowed. The event counts as
/// handled and nothing changes.
pub proof fn lemma_typing_past_the_end_is_swallowed(form: FormView, event: Event, c: char)
    requires
        form.select_form is None,
        form.focus() is Some,
        form.current_pos.x - form.inputs[form.focus()->0].pos.x == form.inputs[form.focus()->0].length,
        event matches Event::Key(k) && k.code == KeyCode::Char(c) && k.modifiers.is_empty(),
    ensures
        form.handle(event) == (form, EventHandlerResult::Handled(EventResult::Nothing)),
{
    let i = form.focus()->0;
    lemma_focus_is_in_range(form);
    assert(form.inputs.update(i, form.inputs[i]) =~= form.inputs);
}

/// The field comes first: whatever the focused field claims, the form's own
/// bindings never see, and the outcome is the field's.
pub proof fn lemma_field_has_first_refusal(form: FormView, event: Event)
    requires
        form.select_form is None,
        form.focus() is Some,
        form.inputs[form.focus()->0].handle(event, form.current_pos).2 is Handled,
    ensures
        form.handle(event).1 == form.inputs[form.focus()->0].handle(event, form.current_pos).2,
        form.handle(event).0.current_pos == form.inputs[form.focus()->0].handle(
            event,
            form.current_pos,
        ).1,
        form.handle(event).0.inputs == form.inputs.update(
            form.focus()->0,
            form.inputs[form.focus()->0].handle(event, form.current_pos).0,
        ),
{
}

/// An open picker owns the input. Whatever the event, the form reports
/// neither a submission nor an abort of its own; its labels and canvas stay;
/// and unless the picker was submitted, its fields and its cursor stay too.
pub proof fn lemma_picker_owns_input(form: FormView, event: Event)
    requires
        form.select_form is Some,
    ensures
        form.handle(event).1 != EventHandlerResult::Handled(EventResult::Submit),
        form.handle(event).1 != EventHandlerResult::Handled(EventResult::Abort),
        form.handle(event).0.labels == form.labels,
        form.handle(event).0.size == form.size,
        form.select_form->0.handle(event).1 != EventHandlerResult::Handled(EventResult::Submit) ==> {
            &&& form.handle(event).0.inputs == form.inputs
            &&& form.handle(event).0.current_pos == form.current_pos
        },
        form.handle(event).0.select_form is None <==> {
            ||| form.select_form->0.handle(event).1 == EventHandlerResult::Handled(
                EventResult::Submit,
            )
            ||| form.select_form->0.handle(event).1 == EventHandlerResult::Handled(EventResult::Abort)
        },
{
}

/// Aborting the picker discards it and nothing else: the form is what it
/// was before the picker opened.
pub proof fn lemma_picker_abort_discards(form: FormView, event: Event)
    requires
        form.select_form is Some,
        event matches Event::Key(k) && k.code == KeyCode::Esc,
    ensures
        form.handle(event) == (
            FormView { select_form: None, ..form },
            EventHandlerResult::Handled(EventResult::Nothing),
        ),
{
}

/// Escape and Enter end an editing form and leave it as it is: no field
/// claims them, so the form's own bindings answer.
pub proof fn lemma_escape_and_enter_end_the_form(form: FormView, event: Event)
    requires
        form.select_form is None,
        event matches Event::Key(k) && (k.code == KeyCode::Esc || k.code == KeyCode::Enter),
    ensures
        form.handle(event).0 == form,
        event->Key_0.code == KeyCode::Esc ==> form.handle(event).1 == EventHandlerResult::Handled(
            EventResult::Abort,
        ),
        event->Key_0.code == KeyCode::Enter ==> form.handle(event).1 == EventHandlerResult::Handled(
            EventResult::Submit,
        ),
{
}

/// The picker opens only over a field that offers one: after any event an
/// editing form is overlaying exactly when the event was the picker key, no
/// field claimed it, and the focused field has a selection mode and choices.
pub proof fn lemma_picker_opens_on_request_only(form: FormView, event: Event)
    requires
        form.select_form is None,
        form.handle(event).0.select_form is Some,
    ensures
        event matches Event::Key(k) && k.code == KeyCode::F(crate::form::PICKER_KEY),
        form.offers_picker(),
        form.handle(event).0 == (FormView { select_form: Some(form.picker()), ..form }),
{
    if form.focus() is Some {
        lemma_focus_is_in_range(form);
    }
}

/// Pressing Tab `k` times moves the cursor `k` steps along the ring and
/// changes nothing else.
pub proof fn lemma_tabbed_walks_the_ring(form: FormView, k: nat)
    ensures
        tabbed(form, k) == form.with_cursor(walk_next(form.anchors(), form.current_pos, k)),
    decreases k,
{
    if k > 0 {
        lemma_tabbed_walks_the_ring(form, (k - 1) as nat);
        let before = tabbed(form, (k - 1) as nat);
        assert(before.anchors() == form.anchors());
    }
}

/// Cyclic closure: in a form where no two fields share an anchor, with the
/// cursor on a field's anchor, pressing Tab once for every field brings the
/// form back to where it was.
pub proof fn lemma_tab_cycle_closes(form: FormView)
    requires
        form.anchors().no_duplicates(),
        form.anchors().contains(form.current_pos),
    ensures
        tabbed(form, form.inputs.len()) == form,
{
    lemma_tabbed_walks_the_ring(form, form.inputs.len());
    lemma_next_cycle_closes(form.anchors(), form.current_pos);
}

/// Cyclic closure from anywhere: in a form with fields, no two on the same
/// anchor, the first Tab lands on a field's anchor, and one more Tab for
/// every field brings the form back to that state, wherever the cursor was.
pub proof fn lemma_tab_cycle_closes_from_anywhere(form: FormView)
    requires
        form.anchors().no_duplicates(),
        form.inputs.len() > 0,
    ensures
        form.anchors().contains(form.next_input().current_pos),
        tabbed(form.next_input(), form.inputs.len()) == form.next_input(),
{
    lemma_target_is_anchor(form.anchors(), form.current_pos);
    let first = form.next_input();
    assert(first.anchors() == form.anchors());
    lemma_tab_cycle_closes(first);
}

/// Round trip: in a form where no two fields share an anchor, with the
/// cursor on a field's anchor, Tab followed by Shift-Tab brings the form
/// back to where it was, and so does Shift-Tab followed by Tab.
pub proof fn lemma_tab_then_backtab_returns(form: FormView)
    requires
        form.anchors().no_duplicates(),
        form.anchors().contains(form.current_pos),
    ensures
        form.next_input().prev_input() == form,
        form.prev_input().next_input() == form,
{
    lemma_next_then_prev_returns(form.anchors(), form.current_pos);
    assert(form.next_input().anchors() == form.anchors());
    assert(form.prev_input().anchors() == form.anchors());
}

/// Navigation never leaves the fields: in a form with fields, Tab and
/// Shift-Tab put the cursor on a field's anchor; in a form without fields
/// they change nothing.
pub proof fn lemma_tab_lands_on_a_field(form: FormView)
    ensures
        form.inputs.len() > 0 ==> form.anchors().contains(form.next_input().current_pos),
        form.inputs.len() > 0 ==> form.anchors().contains(form.prev_input().current_pos),
        form.inputs.len() == 0 ==> form.next_input() == form && form.prev_input() == form,
{
    lemma_target_is_anchor(form.anchors(), form.current_pos);
}

} // verus!
