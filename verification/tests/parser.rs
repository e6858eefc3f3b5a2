use mfform_lib::event::{Event, EventResult, KeyCode};
use mfform_lib::form::Form;
use mfform_lib::input::Select;
use mfform_lib::number::{normalize_number, push_decimal};
use mfform_lib::output::output_lines;
use mfform_lib::parser::{parse_str, parse_widget, ParseError, Widget};
use mfform_lib::pos::Pos;
use mfform_lib::scan::{chars_of, identifier, matches_at, scan_u16, skip_spaces, string_of};
use mfform_lib::session::dispatch;

#[test]
fn test_parse_label() {
    let Widget::Label(label) = parse_widget("LABEL 1 2 texti hér").unwrap() else {
        panic!("Parsed value is not a label");
    };

    assert_eq!(label.pos, (1, 2).into());
    assert_eq!(label.text, "texti hér");
}

#[test]
fn test_parse_input() {
    let Widget::Input(input) = parse_widget("INPUT 5 111 10 nafn texti hér").unwrap() else {
        panic!("Parsed value is not an input");
    };

    assert_eq!(input.pos, (5, 111).into());
    assert_eq!(input.length, 10);
    assert_eq!(input.name, "nafn".to_string());
    assert_eq!(input.value, "texti hér".to_string());
    assert_eq!(input.default_value, "".to_string());
    assert_eq!(input.allowed_characters, None);
    assert_eq!(input.mask_char, None);
    assert_eq!(input.select, Select::NoSelect);
}

#[test]
fn test_parse_select() {
    let Widget::Select(input, id, value) = parse_widget("SELECT inp id langur texti").unwrap()
    else {
        panic!("Parsed value is not a select");
    };

    assert_eq!(input, "inp".to_string());
    assert_eq!(id, "id".to_string());
    assert_eq!(value, "langur texti".to_string());
}

fn is_syntax_error(line: &str) -> bool {
    matches!(parse_widget(line), Err(ParseError::Syntax))
}

#[test]
fn password_is_masked() {
    let Widget::Input(input) = parse_widget("PASSWORD 1 2 8 pw secret").unwrap() else {
        panic!("not a field");
    };
    assert_eq!(input.pos, Pos { x: 1, y: 2 });
    assert_eq!(input.length, 8);
    assert_eq!(input.name, "pw");
    assert_eq!(input.value, "secret");
    assert_eq!(input.default_value, "");
    assert_eq!(input.mask_char, Some('*'));
    assert_eq!(input.allowed_characters, None);
}

#[test]
fn number_takes_digits_and_keeps_its_default() {
    let Widget::Input(input) = parse_widget("NUMBER 3 4 6 age 42").unwrap() else {
        panic!("not a field");
    };
    assert_eq!(input.pos, Pos { x: 3, y: 4 });
    assert_eq!(input.length, 6);
    assert_eq!(input.name, "age");
    assert_eq!(input.value, "42");
    assert_eq!(input.default_value, "42");
    assert_eq!(input.allowed_characters, Some(('0'..='9').collect()));
    assert_eq!(input.mask_char, None);
}

#[test]
fn number_default_is_written_in_its_shortest_form() {
    for (line, expected) in [
        ("NUMBER 0 0 5 n 007", "7"),
        ("NUMBER 0 0 5 n +5", "5"),
        ("NUMBER 0 0 5 n -0", "0"),
        ("NUMBER 0 0 5 n -12", "-12"),
        ("NUMBER 0 0 5 n 0", "0"),
        ("NUMBER 0 0 5 n", ""),
        ("NUMBER 0 0 5 n   ", ""),
        ("NUMBER 0 0 5 n 9223372036854775807", "9223372036854775807"),
        ("NUMBER 0 0 5 n -9223372036854775808", "-9223372036854775808"),
    ] {
        let Widget::Input(input) = parse_widget(line).unwrap() else {
            panic!("not a field");
        };
        assert_eq!(input.value, expected, "{}", line);
        assert_eq!(input.default_value, expected, "{}", line);
    }
}

#[test]
fn number_rejects_what_is_no_number() {
    assert!(is_syntax_error("NUMBER 0 0 5 n twelve"));
    assert!(is_syntax_error("NUMBER 0 0 5 n 12 "));
    assert!(is_syntax_error("NUMBER 0 0 5 n 1 2"));
    assert!(is_syntax_error("NUMBER 0 0 5 n -"));
    assert!(is_syntax_error("NUMBER 0 0 5 n +"));
    assert!(is_syntax_error("NUMBER 0 0 5 n 1.5"));
    assert!(is_syntax_error("NUMBER 0 0 5 n 9223372036854775808"));
    assert!(is_syntax_error("NUMBER 0 0 5 n -9223372036854775809"));
}

#[test]
fn label_needs_exactly_one_blank_after_the_keyword() {
    assert!(is_syntax_error("LABEL  1 2 text"));
    assert!(is_syntax_error("LABEL\t1 2 text"));
    assert!(is_syntax_error("LABEL1 2 text"));
    assert!(is_syntax_error("label 1 2 text"));
}

#[test]
fn label_text_may_be_empty_but_not_its_separator() {
    let Widget::Label(label) = parse_widget("LABEL 1 2 ").unwrap() else {
        panic!("not a label");
    };
    assert_eq!(label.text, "");
    assert!(is_syntax_error("LABEL 1 2"));
    assert!(is_syntax_error("LABEL 1"));
    assert!(is_syntax_error("LABEL "));
}

#[test]
fn coordinates_are_decimal_and_fit_sixteen_bits() {
    let Widget::Label(label) = parse_widget("LABEL 65535 007 x").unwrap() else {
        panic!("not a label");
    };
    assert_eq!(label.pos, Pos { x: 65535, y: 7 });
    assert!(is_syntax_error("LABEL 65536 0 x"));
    assert!(is_syntax_error("LABEL 0 99999999999 x"));
    assert!(is_syntax_error("LABEL -1 0 x"));
    assert!(is_syntax_error("LABEL a 0 x"));
    assert!(is_syntax_error("INPUT 1 2 70000 name"));
}

#[test]
fn parts_may_be_separated_by_any_white_space() {
    let Widget::Input(input) = parse_widget("INPUT \t 5   6\t7 \t a_1  \t text ").unwrap() else {
        panic!("not a field");
    };
    assert_eq!(input.pos, Pos { x: 5, y: 6 });
    assert_eq!(input.length, 7);
    assert_eq!(input.name, "a_1");
    assert_eq!(input.value, "text ");
}

#[test]
fn name_is_an_identifier_and_the_rest_is_the_value() {
    let Widget::Input(input) = parse_widget("INPUT 1 2 3 _n9-x").unwrap() else {
        panic!("not a field");
    };
    assert_eq!(input.name, "_n9");
    assert_eq!(input.value, "-x");
    let Widget::Input(input) = parse_widget("INPUT 1 2 3 name").unwrap() else {
        panic!("not a field");
    };
    assert_eq!(input.name, "name");
    assert_eq!(input.value, "");
    assert!(is_syntax_error("INPUT 1 2 3 9name"));
    assert!(is_syntax_error("INPUT 1 2 3 ñame"));
    assert!(is_syntax_error("INPUT 1 2 3"));
    assert!(is_syntax_error("INPUT 1 2 3 "));
    assert!(is_syntax_error("INPUT1 2 3 name"));
}

#[test]
fn select_needs_two_identifiers_and_a_separator() {
    let Widget::Select(name, id, text) = parse_widget("SELECT f _1 ").unwrap() else {
        panic!("not a choice");
    };
    assert_eq!(name, "f");
    assert_eq!(id, "_1");
    assert_eq!(text, "");
    assert!(is_syntax_error("SELECT f id"));
    assert!(is_syntax_error("SELECT f 1 text"));
    assert!(is_syntax_error("SELECT f"));
    assert!(is_syntax_error("SELECTf id text"));
}

#[test]
fn what_is_no_widget_is_a_syntax_error() {
    assert!(is_syntax_error(""));
    assert!(is_syntax_error("BUTTON 1 2 ok"));
    assert!(is_syntax_error(" LABEL 1 2 text"));
    assert!(is_syntax_error("# comment"));
}

#[test]
fn parse_str_builds_the_form() {
    let mut form = Form::new((82, 24).into());
    assert_eq!(parse_str(&mut form, "LABEL 0 0 Hello world"), Ok(()));
    assert_eq!(parse_str(&mut form, "INPUT 12 0 10 name John"), Ok(()));
    assert_eq!(parse_str(&mut form, "SELECT name j Johnny"), Ok(()));
    assert_eq!(parse_str(&mut form, "SELECT name k Kate"), Ok(()));
    assert_eq!(form.labels.len(), 1);
    assert_eq!(form.labels[0].text, "Hello world");
    assert_eq!(form.inputs.len(), 1);
    assert_eq!(form.inputs[0].select, Select::Single);
    assert_eq!(
        form.inputs[0].select_static,
        vec![("j".to_string(), "Johnny".to_string()), ("k".to_string(), "Kate".to_string())]
    );
}

#[test]
fn choice_for_an_unknown_field_is_an_error_and_changes_nothing() {
    let mut form = Form::new((82, 24).into());
    parse_str(&mut form, "INPUT 12 0 10 name John").unwrap();
    assert_eq!(parse_str(&mut form, "SELECT other j Johnny"), Err(ParseError::UnknownField));
    assert_eq!(parse_str(&mut form, "nonsense"), Err(ParseError::Syntax));
    assert_eq!(form.inputs.len(), 1);
    assert_eq!(form.inputs[0].select, Select::NoSelect);
    assert!(form.inputs[0].select_static.is_empty());
    assert!(form.labels.is_empty());
}

#[test]
fn end_to_end_submit_yields_the_pairs() {
    let mut form = Form::new((82, 24).into());
    parse_str(&mut form, "LABEL 0 0 Hello world").unwrap();
    parse_str(&mut form, "INPUT 12 0 10 name John").unwrap();
    let mut form = form.place_cursor();
    assert_eq!(form.current_pos, Pos { x: 12, y: 0 });
    let result = dispatch(&mut form, &Event::press(KeyCode::Enter));
    assert_eq!(result, EventResult::Submit);
    assert_eq!(form.get_field_and_data(), vec![("name", "John")]);
    assert_eq!(output_lines(&form, result), vec!["name=John".to_string()]);
}

#[test]
fn end_to_end_abort_yields_nothing_whatever_was_edited() {
    let mut form = Form::new((82, 24).into());
    parse_str(&mut form, "LABEL 0 0 Hello world").unwrap();
    parse_str(&mut form, "INPUT 12 0 10 name John").unwrap();
    let mut form = form.place_cursor();
    for c in ['M', 'a', 'r', 'y'] {
        assert_eq!(dispatch(&mut form, &Event::press(KeyCode::Char(c))), EventResult::Nothing);
    }
    assert_eq!(form.inputs[0].value, "Mary");
    let result = dispatch(&mut form, &Event::press(KeyCode::Esc));
    assert_eq!(result, EventResult::Abort);
    assert!(output_lines(&form, result).is_empty());
}

#[test]
fn scanning_primitives() {
    let chars = chars_of("ab  12x_9 é");
    assert_eq!(chars.len(), 11);
    assert_eq!(skip_spaces(&chars, 2), 4);
    assert_eq!(skip_spaces(&chars, 4), 4);
    assert_eq!(skip_spaces(&chars, 11), 11);
    assert_eq!(scan_u16(&chars, 4), Some((12, 6)));
    assert_eq!(scan_u16(&chars, 0), None);
    assert_eq!(scan_u16(&chars, 11), None);
    assert_eq!(identifier(&chars, 0), Some(2));
    assert_eq!(identifier(&chars, 6), Some(9));
    assert_eq!(identifier(&chars, 4), None);
    assert_eq!(identifier(&chars, 10), None);
    assert!(matches_at(&chars, 0, "ab "));
    assert!(matches_at(&chars, 10, "é"));
    assert!(matches_at(&chars, 11, ""));
    assert!(!matches_at(&chars, 1, "ab"));
    assert!(!matches_at(&chars, 9, " é!"));
    assert_eq!(string_of(&chars, 4, 9), "12x_9");
    assert_eq!(string_of(&chars, 9, 11), " é");
    assert_eq!(string_of(&chars, 3, 3), "");
}

#[test]
fn scan_u16_stops_at_sixteen_bits() {
    assert_eq!(scan_u16(&chars_of("65535"), 0), Some((65535, 5)));
    assert_eq!(scan_u16(&chars_of("65536"), 0), None);
    assert_eq!(scan_u16(&chars_of("0000065535 "), 0), Some((65535, 10)));
    assert_eq!(scan_u16(&chars_of("٣"), 0), None);
}

#[test]
fn decimal_writing() {
    let mut s = String::from("n=");
    push_decimal(&mut s, 0);
    assert_eq!(s, "n=0");
    push_decimal(&mut s, 9070);
    assert_eq!(s, "n=09070");
    let mut s = String::new();
    push_decimal(&mut s, u64::MAX);
    assert_eq!(s, "18446744073709551615");
    assert_eq!(normalize_number(&chars_of("x=-0042"), 2), Some("-42".to_string()));
    assert_eq!(normalize_number(&chars_of("x="), 2), None);
    assert_eq!(normalize_number(&chars_of("--1"), 0), None);
}
