use mfform_lib::event::{Event, EventHandlerResult, EventResult, KeyCode, KeyEvent, KeyModifiers};
use mfform_lib::input::{clone_choices, contains_char, Input, Select};
use mfform_lib::label::Label;
use mfform_lib::pos::Pos;

#[test]
fn set_char_in_string_plain() {
    let input = "1234567890";
    let pos = 2;
    let ch = 'a';
    let expected = "12a4567890";

    let output = Input::set_char_in_string(input, pos, ch);

    assert_eq!(output, expected);
}

#[test]
fn set_char_in_string_nls() {
    let input = "1æ34567890";
    let pos = 2;
    let ch = 'ö';
    let expected = "1æö4567890";

    let output = Input::set_char_in_string(input, pos, ch);

    assert_eq!(output, expected);
}

#[test]
fn delete() {
    let input = "12345678901";

    let output = Input::delete_in_string(input, 1);
    assert_eq!(output, "1345678901");

    let output = Input::delete_in_string(input, 0);
    assert_eq!(output, "2345678901");

    let output = Input::delete_in_string(input, 10);
    assert_eq!(output, "1234567890");

    let output = Input::delete_in_string(input, 11);
    assert_eq!(output, "12345678901", "Delete after input string");

    let output = Input::delete_in_string(input, 7);
    assert_eq!(output, "1234567901");
}

#[test]
fn tests_delete() {
    let input = "12345678901";

    let output = Input::delete_in_string(input, 1);
    assert_eq!(output, "1345678901");

    let output = Input::delete_in_string(input, 0);
    assert_eq!(output, "2345678901");

    let output = Input::delete_in_string(input, 10);
    assert_eq!(output, "1234567890");

    let output = Input::delete_in_string(input, 11);
    assert_eq!(output, "12345678901", "Delete after input string");

    let output = Input::delete_in_string(input, 7);
    assert_eq!(output, "1234567901");
}

#[test]
fn delete_past_the_end_changes_nothing() {
    let s = "héllo";
    assert_eq!(Input::delete_in_string(s, 5), s);
    assert_eq!(Input::delete_in_string(s, 6), s);
    assert_eq!(Input::delete_in_string(s, usize::MAX), s);
    assert_eq!(Input::delete_in_string("", 0), "");
}

#[test]
fn delete_counts_scalar_values() {
    assert_eq!(Input::delete_in_string("1æö4", 1), "1ö4");
    assert_eq!(Input::delete_in_string("1æö4", 3), "1æö");
}

#[test]
fn set_char_pads_with_spaces() {
    assert_eq!(Input::set_char_in_string("ab", 5, 'x'), "ab   x");
    assert_eq!(Input::set_char_in_string("ab", 2, 'x'), "abx");
    assert_eq!(Input::set_char_in_string("", 0, 'x'), "x");
    assert_eq!(Input::set_char_in_string("", 2, 'ö'), "  ö");
}

#[test]
fn set_char_replaces_the_last_scalar() {
    assert_eq!(Input::set_char_in_string("æøå", 2, 'a'), "æøa");
    assert_eq!(Input::set_char_in_string("æøå", 0, 'a'), "aøå");
}

fn field() -> Input {
    Input::builder((12, 0).into(), 10, "name").with_value("John").build()
}

fn press(code: KeyCode) -> Event {
    Event::press(code)
}

#[test]
fn builder_starts_empty() {
    let input = Input::builder((3, 4).into(), 7, "nafn").build();
    assert_eq!(input.pos, Pos { x: 3, y: 4 });
    assert_eq!(input.length, 7);
    assert_eq!(input.name, "nafn");
    assert_eq!(input.value, "");
    assert_eq!(input.default_value, "");
    assert_eq!(input.allowed_characters, None);
    assert_eq!(input.mask_char, None);
    assert_eq!(input.select, Select::NoSelect);
    assert!(input.select_static.is_empty());
}

#[test]
fn builder_sets_each_part() {
    let choices = vec![("1".to_string(), "one".to_string()), ("2".to_string(), "two".to_string())];
    let input = Input::builder((3, 4).into(), 7, "nafn")
        .with_value("v")
        .with_default_value("d")
        .with_allowed_characters(vec!['0', '1'])
        .with_mask_char('*')
        .with_select_static(&choices)
        .build();
    assert_eq!(input.value, "v");
    assert_eq!(input.default_value, "d");
    assert_eq!(input.allowed_characters, Some(vec!['0', '1']));
    assert_eq!(input.mask_char, Some('*'));
    assert_eq!(input.select_static, choices);
    assert_eq!(input.select, Select::NoSelect);
}

#[test]
fn new_generic_takes_every_part() {
    let input = Input::new_generic(
        (12, 2).into(),
        10,
        "hello2",
        "value",
        "default",
        Some(vec!['a']),
        Some('#'),
        Select::Multi,
    );
    assert_eq!(input.pos, Pos { x: 12, y: 2 });
    assert_eq!(input.length, 10);
    assert_eq!(input.name, "hello2");
    assert_eq!(input.value, "value");
    assert_eq!(input.default_value, "default");
    assert_eq!(input.allowed_characters, Some(vec!['a']));
    assert_eq!(input.mask_char, Some('#'));
    assert_eq!(input.select, Select::Multi);
    assert!(input.select_static.is_empty());
}

#[test]
fn clone_choices_copies_every_pair() {
    let choices = vec![("1".to_string(), "one".to_string()), ("2".to_string(), "two".to_string())];
    assert_eq!(clone_choices(&choices), choices);
    assert!(clone_choices(&[]).is_empty());
}

#[test]
fn contains_char_finds_members_only() {
    let digits = vec!['0', '1', '2'];
    assert!(contains_char(&digits, '1'));
    assert!(!contains_char(&digits, '3'));
    assert!(!contains_char(&Vec::new(), '0'));
}

#[test]
fn has_focus_includes_the_cell_past_the_end() {
    let input = field();
    assert!(input.has_focus(Pos { x: 12, y: 0 }));
    assert!(input.has_focus(Pos { x: 22, y: 0 }));
    assert!(!input.has_focus(Pos { x: 23, y: 0 }));
    assert!(!input.has_focus(Pos { x: 11, y: 0 }));
    assert!(!input.has_focus(Pos { x: 12, y: 1 }));
}

#[test]
fn end_x_is_kept_on_the_grid() {
    assert_eq!(field().end_x(), 22);
    let wide = Input::builder((65530, 0).into(), 10, "w").build();
    assert_eq!(wide.end_x(), 65535);
}

#[test]
fn key_writes_at_the_cursor_and_steps_right() {
    let mut input = field();
    let mut cursor = Pos { x: 13, y: 0 };
    input.key('a', &mut cursor);
    assert_eq!(input.value, "Jahn");
    assert_eq!(cursor, Pos { x: 14, y: 0 });
}

#[test]
fn key_past_the_value_pads_with_spaces() {
    let mut input = field();
    let mut cursor = Pos { x: 18, y: 0 };
    input.key('x', &mut cursor);
    assert_eq!(input.value, "John  x");
    assert_eq!(cursor, Pos { x: 19, y: 0 });
}

#[test]
fn key_at_the_last_cell_keeps_the_cursor_on_the_field() {
    let mut input = field();
    let mut cursor = Pos { x: 21, y: 0 };
    input.key('x', &mut cursor);
    assert_eq!(input.value, "John     x");
    assert_eq!(cursor, Pos { x: 21, y: 0 });
}

#[test]
fn key_past_the_last_cell_changes_nothing() {
    let mut input = field();
    let mut cursor = Pos { x: 22, y: 0 };
    input.key('x', &mut cursor);
    assert_eq!(input.value, "John");
    assert_eq!(cursor, Pos { x: 22, y: 0 });
    let handled = EventHandlerResult::Handled(EventResult::Nothing);
    assert_eq!(input.event_handler(&press(KeyCode::Char('x')), &mut cursor), handled);
    assert_eq!(input.value, "John");
    assert_eq!(cursor, Pos { x: 22, y: 0 });
}

#[test]
fn a_full_field_stays_within_its_width() {
    let mut input = Input::builder((12, 0).into(), 3, "n").build();
    let mut cursor = Pos { x: 12, y: 0 };
    for c in ['a', 'b', 'c', 'd', 'e'] {
        input.key(c, &mut cursor);
    }
    assert_eq!(input.value, "abe");
    assert_eq!(cursor, Pos { x: 14, y: 0 });
    let mut empty = Input::builder((12, 0).into(), 0, "n").build();
    let mut cursor = Pos { x: 12, y: 0 };
    empty.key('a', &mut cursor);
    assert_eq!(empty.value, "");
    assert_eq!(cursor, Pos { x: 12, y: 0 });
}

#[test]
fn backspace_at_the_first_cell_is_a_noop() {
    let mut input = field();
    let mut cursor = Pos { x: 12, y: 0 };
    input.key_backspace(&mut cursor);
    assert_eq!(input.value, "John");
    assert_eq!(cursor, Pos { x: 12, y: 0 });
}

#[test]
fn backspace_steps_left_and_deletes_there() {
    let mut input = field();
    let mut cursor = Pos { x: 14, y: 0 };
    input.key_backspace(&mut cursor);
    assert_eq!(input.value, "Jhn");
    assert_eq!(cursor, Pos { x: 13, y: 0 });
}

#[test]
fn backspace_past_the_value_only_moves() {
    let mut input = field();
    let mut cursor = Pos { x: 20, y: 0 };
    input.key_backspace(&mut cursor);
    assert_eq!(input.value, "John");
    assert_eq!(cursor, Pos { x: 19, y: 0 });
}

#[test]
fn delete_removes_under_the_cursor_and_does_not_refill() {
    let mut input = field();
    let cursor = Pos { x: 12, y: 0 };
    input.key_delete(&cursor);
    assert_eq!(input.value, "ohn");
    let cursor = Pos { x: 20, y: 0 };
    input.key_delete(&cursor);
    assert_eq!(input.value, "ohn");
}

#[test]
fn field_claims_backspace_delete_and_plain_characters() {
    let mut input = field();
    let mut cursor = Pos { x: 16, y: 0 };
    let handled = EventHandlerResult::Handled(EventResult::Nothing);
    assert_eq!(input.event_handler(&press(KeyCode::Char('!')), &mut cursor), handled);
    assert_eq!(input.value, "John!");
    assert_eq!(cursor, Pos { x: 17, y: 0 });
    assert_eq!(input.event_handler(&press(KeyCode::Backspace), &mut cursor), handled);
    assert_eq!(input.value, "John");
    assert_eq!(cursor, Pos { x: 16, y: 0 });
    cursor = Pos { x: 12, y: 0 };
    assert_eq!(input.event_handler(&press(KeyCode::Delete), &mut cursor), handled);
    assert_eq!(input.value, "ohn");
    assert_eq!(cursor, Pos { x: 12, y: 0 });
}

#[test]
fn field_declines_what_it_has_no_use_for() {
    let mut input = field();
    let mut cursor = Pos { x: 13, y: 0 };
    for code in [
        KeyCode::Enter,
        KeyCode::Esc,
        KeyCode::Tab,
        KeyCode::BackTab,
        KeyCode::Left,
        KeyCode::F(4),
        KeyCode::Other,
    ] {
        assert_eq!(input.event_handler(&press(code), &mut cursor), EventHandlerResult::NotHandled);
    }
    assert_eq!(input.event_handler(&Event::Other, &mut cursor), EventHandlerResult::NotHandled);
    let shifted = Event::Key(KeyEvent::new(
        KeyCode::Char('A'),
        KeyModifiers { shift: true, ..KeyModifiers::empty() },
    ));
    assert_eq!(input.event_handler(&shifted, &mut cursor), EventHandlerResult::NotHandled);
    assert_eq!(input.value, "John");
    assert_eq!(cursor, Pos { x: 13, y: 0 });
}

#[test]
fn disallowed_character_is_handled_and_dropped() {
    let mut input = Input::builder((0, 0).into(), 5, "n")
        .with_value("12")
        .with_allowed_characters(('0'..='9').collect())
        .build();
    let mut cursor = Pos { x: 2, y: 0 };
    let handled = EventHandlerResult::Handled(EventResult::Nothing);
    assert_eq!(input.event_handler(&press(KeyCode::Char('x')), &mut cursor), handled);
    assert_eq!(input.value, "12");
    assert_eq!(cursor, Pos { x: 2, y: 0 });
    assert_eq!(input.event_handler(&press(KeyCode::Char('3')), &mut cursor), handled);
    assert_eq!(input.value, "123");
    assert_eq!(cursor, Pos { x: 3, y: 0 });
}

#[test]
fn fields_and_labels_compare_by_position() {
    let a = Input::builder((1, 2).into(), 5, "a").with_value("x").build();
    let b = Input::builder((1, 2).into(), 9, "b").with_value("y").build();
    let c = Input::builder((2, 2).into(), 5, "a").with_value("x").build();
    assert!(a == b);
    assert!(a != c);
    assert!(Label::new_label((0, 0).into(), "one") == Label::new_label((0, 0).into(), "two"));
    assert!(Label::new_label((0, 0).into(), "one") != Label::new_label((0, 1).into(), "one"));
}

#[test]
fn label_keeps_position_and_text() {
    let label = Label::new_label((10, 5).into(), "YoYo");
    assert_eq!(label.pos, Pos { x: 10, y: 5 });
    assert_eq!(label.text, "YoYo");
}
