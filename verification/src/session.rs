//! Routing of one event through a running form: the interrupt key, then the
//! form, then the bindings that hold whatever the form makes of the event.

use crate::event::{
    Event, EventHandlerResult, EventResult, KeyCode, KeyEvent, KeyEventKind, KeyEventState,
    KeyModifiers,
};
use crate::form::{Form, FormView};
use vstd::prelude::*;

verus! {

/// The key that interrupts a form whatever state it is in.
pub const INTERRUPT_KEY: char = 'c';

/// The key that, with Control, shows or hides the diagnostics pane.
pub const DEBUG_KEY: char = 'd';

/// `event` is the interrupt: a plain press of Control and `c`, nothing else
/// held or locked.
pub open spec fn spec_is_interrupt(event: Event) -> bool {
    event == Event::Key(
        KeyEvent {
            code: KeyCode::Char(INTERRUPT_KEY),
            modifiers: KeyModifiers::spec_control(),
            kind: KeyEventKind::Press,
            state: KeyEventState::spec_empty(),
        },
    )
}

/// What the outer bindings make of `event`: Escape aborts, Enter submits,
/// arrows move the form's cursor, Control with `d` asks for the diagnostics
/// pane; anything else is nothing to report.
pub open spec fn spec_keyboard_event(form: FormView, event: Event) -> (FormView, EventResult) {
    match event {
        Event::Key(k) => match k.code {
            KeyCode::Esc => (form, EventResult::Abort),
            KeyCode::Enter => (form, EventResult::Submit),
            KeyCode::Left | KeyCode::Right | KeyCode::Up | KeyCode::Down => (
                form.move_event(k.code),
                EventResult::Nothing,
            ),
            KeyCode::Char(c) => {
                if c == DEBUG_KEY && k.modifiers.control {
                    (form, EventResult::ToggleDebug)
                } else {
                    (form, EventResult::Nothing)
                }
            },
            _ => (form, EventResult::Nothing),
        },
        Event::Other => (form, EventResult::Nothing),
    }
}

/// One turn of a running form: the interrupt aborts and leaves the form as
/// it is; any other event goes to the form, and to the outer bindings when
/// the form declines it.
pub open spec fn spec_dispatch(form: FormView, event: Event) -> (FormView, EventResult) {
    if spec_is_interrupt(event) {
        (form, EventResult::Abort)
    } else {
        let (after, handled) = form.handle(event);
        match handled {
            EventHandlerResult::Handled(result) => (after, result),
            EventHandlerResult::NotHandled => spec_keyboard_event(after, event),
        }
    }
}

/// True for the interrupt key.
#[verifier::when_used_as_spec(spec_is_interrupt)]
pub fn is_interrupt(event: Event) -> (r: bool)
    ensures
        r == spec_is_interrupt(event),
{
    match event {
        Event::Key(k) => {
            k.code == KeyCode::Char(INTERRUPT_KEY) && k.modifiers == KeyModifiers::control()
                && k.kind == KeyEventKind::Press && k.state == KeyEventState::empty()
        },
        Event::Other => false,
    }
}

/// The bindings that apply to an event the form declined.
pub fn keyboard_event(form: &mut Form, ev: &Event) -> (r: EventResult)
    ensures
        (final(form)@, r) == spec_keyboard_event(old(form)@, *ev),
{
    match ev {
        Event::Key(k) => match k.code {
            KeyCode::Esc => EventResult::Abort,
            KeyCode::Enter => EventResult::Submit,
            KeyCode::Left | KeyCode::Right | KeyCode::Up | KeyCode::Down => {
                form.move_event(k.code);
                EventResult::Nothing
            },
            KeyCode::Char(c) => {
                if c == DEBUG_KEY && k.modifiers.control {
                    EventResult::ToggleDebug
                } else {
                    EventResult::Nothing
                }
            },
            _ => EventResult::Nothing,
        },
        Event::Other => EventResult::Nothing,
    }
}

/// Routes one event through the form and reports what the event loop has to
/// do next: stop with a submission or an abort, toggle the diagnostics
/// pane, or go on.
pub fn dispatch(form: &mut Form, ev: &Event) -> (r: EventResult)
    ensures
        (final(form)@, r) == spec_dispatch(old(form)@, *ev),
{
    if is_interrupt(*ev) {
        return EventResult::Abort;
    }
    match form.event_handler(ev) {
        EventHandlerResult::Handled(result) => result,
        EventHandlerResult::NotHandled => keyboard_event(form, ev),
    }
}

} // verus!
