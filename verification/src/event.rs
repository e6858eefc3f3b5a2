//! Input events as the engine sees them, and what handling one yields.

use vstd::prelude::*;

verus! {

/// Outcome of one handled event.
#[derive(Debug, Clone, Copy, PartialEq, Eq, Structural)]
pub enum EventResult {
    /// The user submitted; the data is in the fields.
    Submit,
    /// The user aborted; nothing is to be taken from the fields.
    Abort,
    /// The user asked for the diagnostics pane to be shown or hidden.
    ToggleDebug,
    /// Nothing to report yet: keep feeding events.
    Nothing,
}

/// Whether a handler claimed an event.
#[derive(Debug, Clone, Copy, PartialEq, Eq, Structural)]
pub enum EventHandlerResult {
    Handled(EventResult),
    NotHandled,
}

/// The key of a key event.
#[derive(Debug, Clone, Copy, PartialEq, Eq, Structural)]
pub enum KeyCode {
    Backspace,
    Enter,
    Left,
    Right,
    Up,
    Down,
    Tab,
    BackTab,
    Delete,
    Esc,
    /// A function key, by its number.
    F(u8),
    /// A key that produces a character.
    Char(char),
    /// Any key the engine has no binding for.
    Other,
}

/// The modifier keys held during a key event.
#[derive(Debug, Clone, Copy, PartialEq, Eq, Structural)]
pub struct KeyModifiers {
    pub shift: bool,
    pub control: bool,
    pub alt: bool,
    pub super_key: bool,
    pub hyper: bool,
    pub meta: bool,
}

/// Press, repeat or release.
#[derive(Debug, Clone, Copy, PartialEq, Eq, Structural)]
pub enum KeyEventKind {
    Press,
    Repeat,
    Release,
}

/// Lock and keypad state reported with a key event.
#[derive(Debug, Clone, Copy, PartialEq, Eq, Structural)]
pub struct KeyEventState {
    pub keypad: bool,
    pub caps_lock: bool,
    pub num_lock: bool,
}

/// One key event.
#[derive(Debug, Clone, Copy, PartialEq, Eq, Structural)]
pub struct KeyEvent {
    pub code: KeyCode,
    pub modifiers: KeyModifiers,
    pub kind: KeyEventKind,
    pub state: KeyEventState,
}

/// One input event.
#[derive(Debug, Clone, Copy, PartialEq, Eq, Structural)]
pub enum Event {
    Key(KeyEvent),
    /// Focus, mouse, paste and resize events: the engine binds none of them.
    Other,
}

impl KeyModifiers {
    /// No modifier held.
    pub open spec fn spec_empty() -> KeyModifiers {
        KeyModifiers {
            shift: false,
            control: false,
            alt: false,
            super_key: false,
            hyper: false,
            meta: false,
        }
    }

    /// Control alone.
    pub open spec fn spec_control() -> KeyModifiers {
        KeyModifiers {
            shift: false,
            control: true,
            alt: false,
            super_key: false,
            hyper: false,
            meta: false,
        }
    }

    #[verifier::when_used_as_spec(spec_empty)]
    pub fn empty() -> (r: KeyModifiers)
        ensures
            r == KeyModifiers::spec_empty(),
    {
        KeyModifiers {
            shift: false,
            control: false,
            alt: false,
            super_key: false,
            hyper: false,
            meta: false,
        }
    }

    #[verifier::when_used_as_spec(spec_control)]
    pub fn control() -> (r: KeyModifiers)
        ensures
            r == KeyModifiers::spec_control(),
    {
        KeyModifiers {
            shift: false,
            control: true,
            alt: false,
            super_key: false,
            hyper: false,
            meta: false,
        }
    }

    pub open spec fn spec_is_empty(self) -> bool {
        self == KeyModifiers::spec_empty()
    }

    /// True when no modifier is held.
    #[verifier::when_used_as_spec(spec_is_empty)]
    pub fn is_empty(self) -> (r: bool)
        ensures
            r == self.spec_is_empty(),
    {
        !self.shift && !self.control && !self.alt && !self.super_key && !self.hyper && !self.meta
    }
}

impl KeyEventState {
    pub open spec fn spec_empty() -> KeyEventState {
        KeyEventState { keypad: false, caps_lock: false, num_lock: false }
    }

    #[verifier::when_used_as_spec(spec_empty)]
    pub fn empty() -> (r: KeyEventState)
        ensures
            r == KeyEventState::spec_empty(),
    {
        KeyEventState { keypad: false, caps_lock: false, num_lock: false }
    }
}

impl KeyEvent {
    /// A plain press of `code` with `modifiers` held.
    pub open spec fn spec_new(code: KeyCode, modifiers: KeyModifiers) -> KeyEvent {
        KeyEvent { code, modifiers, kind: KeyEventKind::Press, state: KeyEventState::spec_empty() }
    }

    #[verifier::when_used_as_spec(spec_new)]
    pub fn new(code: KeyCode, modifiers: KeyModifiers) -> (r: KeyEvent)
        ensures
            r == KeyEvent::spec_new(code, modifiers),
    {
        KeyEvent { code, modifiers, kind: KeyEventKind::Press, state: KeyEventState::empty() }
    }
}

impl Event {
    /// The event of pressing `code` with no modifier held.
    pub open spec fn spec_press(code: KeyCode) -> Event {
        Event::Key(KeyEvent::spec_new(code, KeyModifiers::spec_empty()))
    }

    #[verifier::when_used_as_spec(spec_press)]
    pub fn press(code: KeyCode) -> (r: Event)
        ensures
            r == Event::spec_press(code),
    {
        Event::Key(KeyEvent::new(code, KeyModifiers::empty()))
    }
}

} // verus!
