use mfform_lib::event::{
    Event, EventHandlerResult, EventResult, KeyCode, KeyEvent, KeyEventKind, KeyModifiers,
};
use mfform_lib::input::Select;
use mfform_lib::nav::{insert_sorted, next_on_ring, prev_on_ring, sort_anchors};
use mfform_lib::output::{format_line, output_lines};
use mfform_lib::pos::Pos;
use mfform_lib::session::{dispatch, is_interrupt, keyboard_event};
use mfform_lib::Form;
use mfform_lib::Input;
use mfform_lib::Label;

#[test]
fn find_next() {
    let mut form = Form::new((80, 24).into());
    form.add_label(Label::new_label((0, 0).into(), "Hello world"));
    form.add_label(Label::new_label((10, 5).into(), "YoYo"));

    form.add_input(
        Input::builder((12, 0).into(), 10, "hello")
            .with_value("hello")
            .build(),
    );
    form.add_input(
        Input::builder((12, 2).into(), 10, "hello2")
            .with_value("hello2")
            .build(),
    );
    form.add_input(
        Input::builder((25, 0).into(), 10, "hello3")
            .with_value("hello3")
            .build(),
    );

    // Before first field
    form.current_pos = (0, 0).into();
    assert_eq!(
        form.find_next_input().unwrap(),
        (12, 0).into(),
        "Before first field"
    );

    form.current_pos = (12, 0).into();
    assert_eq!(
        form.find_next_input().unwrap(),
        (25, 0).into(),
        "On first field"
    );

    form.current_pos = (25, 0).into();
    assert_eq!(
        form.find_next_input().unwrap(),
        (12, 2).into(),
        "On second field"
    );

    // Last field -> First field
    form.current_pos = (12, 2).into();
    assert_eq!(
        form.find_next_input().unwrap(),
        (12, 0).into(),
        "Last field -> First field"
    );

    // After last field
    form.current_pos = (25, 8).into();
    assert_eq!(
        form.find_next_input().unwrap(),
        (12, 0).into(),
        "After last field"
    );

    // Middle of fields
    form.current_pos = (25, 1).into();
    assert_eq!(
        form.find_next_input().unwrap(),
        (12, 2).into(),
        "Middle of fields"
    );
}

#[test]
fn tests_find_next() {
    let mut form = Form::new((80, 24).into());
    form.add_label(Label::new_label((0, 0).into(), "Hello world"));
    form.add_label(Label::new_label((10, 5).into(), "YoYo"));

    form.add_input(Input::new_generic(
        (12, 0).into(),
        10,
        "hello",
        "hello",
        "",
        None::<Vec<_>>,
        None,
        Select::NoSelect,
    ));
    form.add_input(Input::new_generic(
        (12, 2).into(),
        10,
        "hello2",
        "hello2",
        "",
        None::<Vec<_>>,
        None,
        Select::NoSelect,
    ));
    form.add_input(Input::new_generic(
        (25, 0).into(),
        10,
        "hello3",
        "hello3",
        "",
        None::<Vec<_>>,
        None,
        Select::NoSelect,
    ));

    // Before first field
    form.current_pos = (0, 0).into();
    assert_eq!(
        form.find_next_input().unwrap(),
        (12, 0).into(),
        "Before first field"
    );

    form.current_pos = (12, 0).into();
    assert_eq!(
        form.find_next_input().unwrap(),
        (25, 0).into(),
        "On first field"
    );

    form.current_pos = (25, 0).into();
    assert_eq!(
        form.find_next_input().unwrap(),
        (12, 2).into(),
        "On second field"
    );

    // Last field -> First field
    form.current_pos = (12, 2).into();
    assert_eq!(
        form.find_next_input().unwrap(),
        (12, 0).into(),
        "Last field -> First field"
    );

    // After last field
    form.current_pos = (25, 8).into();
    assert_eq!(
        form.find_next_input().unwrap(),
        (12, 0).into(),
        "After last field"
    );

    // Middle of fields
    form.current_pos = (25, 1).into();
    assert_eq!(
        form.find_next_input().unwrap(),
        (12, 2).into(),
        "Middle of fields"
    );
}

fn three_fields() -> Form {
    let mut form = Form::new((80, 24).into());
    form.add_input(Input::builder((12, 0).into(), 10, "hello").with_value("hello").build());
    form.add_input(Input::builder((12, 2).into(), 10, "hello2").with_value("hello2").build());
    form.add_input(Input::builder((25, 0).into(), 10, "hello3").with_value("hello3").build());
    form
}

fn press(code: KeyCode) -> Event {
    Event::press(code)
}

const HANDLED: EventHandlerResult = EventHandlerResult::Handled(EventResult::Nothing);

#[test]
fn find_prev_mirrors_find_next() {
    let mut form = three_fields();
    form.current_pos = (0, 0).into();
    assert_eq!(form.find_prev_input(), Some(Pos { x: 12, y: 2 }));
    form.current_pos = (12, 0).into();
    assert_eq!(form.find_prev_input(), Some(Pos { x: 12, y: 2 }));
    form.current_pos = (25, 0).into();
    assert_eq!(form.find_prev_input(), Some(Pos { x: 12, y: 0 }));
    form.current_pos = (12, 2).into();
    assert_eq!(form.find_prev_input(), Some(Pos { x: 25, y: 0 }));
    form.current_pos = (25, 8).into();
    assert_eq!(form.find_prev_input(), Some(Pos { x: 12, y: 2 }));
    form.current_pos = (25, 1).into();
    assert_eq!(form.find_prev_input(), Some(Pos { x: 25, y: 0 }));
}

#[test]
fn no_fields_no_target() {
    let mut form = Form::new((80, 24).into());
    form.current_pos = (3, 3).into();
    assert_eq!(form.find_next_input(), None);
    assert_eq!(form.find_prev_input(), None);
    form.next_input();
    assert_eq!(form.current_pos, Pos { x: 3, y: 3 });
    form.prev_input();
    assert_eq!(form.current_pos, Pos { x: 3, y: 3 });
}

#[test]
fn single_field_is_its_own_neighbour() {
    let mut form = Form::new((80, 24).into());
    form.add_input(Input::builder((5, 5).into(), 3, "only").build());
    for cursor in [(0, 0), (5, 5), (6, 5), (70, 20)] {
        form.current_pos = cursor.into();
        assert_eq!(form.find_next_input(), Some(Pos { x: 5, y: 5 }));
        assert_eq!(form.find_prev_input(), Some(Pos { x: 5, y: 5 }));
    }
}

#[test]
fn tab_once_per_field_closes_the_ring() {
    let mut form = three_fields();
    for start in [(12, 0), (25, 0), (12, 2)] {
        form.current_pos = start.into();
        for _ in 0..3 {
            form.next_input();
        }
        assert_eq!(form.current_pos, start.into());
    }
    // from off the ring: the first step lands on it, three more come back
    form.current_pos = (40, 1).into();
    form.next_input();
    let landed = form.current_pos;
    assert_eq!(landed, Pos { x: 12, y: 2 });
    for _ in 0..3 {
        form.next_input();
    }
    assert_eq!(form.current_pos, landed);
}

#[test]
fn tab_then_backtab_round_trips() {
    let mut form = three_fields();
    for start in [(12, 0), (25, 0), (12, 2)] {
        form.current_pos = start.into();
        form.next_input();
        form.prev_input();
        assert_eq!(form.current_pos, start.into());
        form.prev_input();
        form.next_input();
        assert_eq!(form.current_pos, start.into());
    }
}

#[test]
fn ring_exhaustive_on_a_small_canvas() {
    // every cursor cell of a 6 x 4 canvas against three anchors
    let anchors = [Pos { x: 4, y: 0 }, Pos { x: 1, y: 2 }, Pos { x: 1, y: 0 }];
    let sorted = [Pos { x: 1, y: 0 }, Pos { x: 4, y: 0 }, Pos { x: 1, y: 2 }];
    let mut form = Form::new((6, 4).into());
    for a in anchors {
        form.add_input(Input::builder(a, 2, "f").build());
    }
    for y in 0..4u16 {
        for x in 0..6u16 {
            let cursor = Pos { x, y };
            form.current_pos = cursor;
            let after: Vec<Pos> = sorted.iter().copied().filter(|p| cursor.is_before(*p)).collect();
            let before: Vec<Pos> = sorted.iter().copied().filter(|p| p.is_before(cursor)).collect();
            let next = after.first().copied().unwrap_or(sorted[0]);
            let prev = before.last().copied().unwrap_or(sorted[2]);
            assert_eq!(form.find_next_input(), Some(next));
            assert_eq!(form.find_prev_input(), Some(prev));
        }
    }
}

#[test]
fn sort_anchors_is_row_major_and_keeps_duplicates() {
    let anchors = vec![
        Pos { x: 12, y: 2 },
        Pos { x: 25, y: 0 },
        Pos { x: 12, y: 0 },
        Pos { x: 25, y: 0 },
    ];
    assert_eq!(
        sort_anchors(&anchors),
        vec![Pos { x: 12, y: 0 }, Pos { x: 25, y: 0 }, Pos { x: 25, y: 0 }, Pos { x: 12, y: 2 }]
    );
    assert!(sort_anchors(&Vec::new()).is_empty());
}

#[test]
fn insert_sorted_keeps_the_order() {
    let mut sorted = vec![Pos { x: 1, y: 0 }, Pos { x: 5, y: 0 }, Pos { x: 0, y: 3 }];
    insert_sorted(&mut sorted, Pos { x: 9, y: 0 });
    insert_sorted(&mut sorted, Pos { x: 0, y: 0 });
    insert_sorted(&mut sorted, Pos { x: 7, y: 7 });
    assert_eq!(
        sorted,
        vec![
            Pos { x: 0, y: 0 },
            Pos { x: 1, y: 0 },
            Pos { x: 5, y: 0 },
            Pos { x: 9, y: 0 },
            Pos { x: 0, y: 3 },
            Pos { x: 7, y: 7 }
        ]
    );
}

#[test]
fn ring_scans_on_sorted_anchors() {
    let ring = vec![Pos { x: 12, y: 0 }, Pos { x: 25, y: 0 }, Pos { x: 12, y: 2 }];
    assert_eq!(next_on_ring(&ring, Pos { x: 25, y: 0 }), Some(Pos { x: 12, y: 2 }));
    assert_eq!(next_on_ring(&ring, Pos { x: 12, y: 2 }), Some(Pos { x: 12, y: 0 }));
    assert_eq!(prev_on_ring(&ring, Pos { x: 12, y: 0 }), Some(Pos { x: 12, y: 2 }));
    assert_eq!(prev_on_ring(&ring, Pos { x: 13, y: 0 }), Some(Pos { x: 12, y: 0 }));
    assert_eq!(next_on_ring(&Vec::new(), Pos { x: 0, y: 0 }), None);
    assert_eq!(prev_on_ring(&Vec::new(), Pos { x: 0, y: 0 }), None);
}

#[test]
fn shared_anchor_is_its_own_successor() {
    let ring = vec![Pos { x: 1, y: 0 }, Pos { x: 1, y: 0 }, Pos { x: 5, y: 0 }];
    assert_eq!(next_on_ring(&ring, Pos { x: 1, y: 0 }), Some(Pos { x: 1, y: 0 }));
    assert_eq!(prev_on_ring(&ring, Pos { x: 1, y: 0 }), Some(Pos { x: 1, y: 0 }));
    assert_eq!(next_on_ring(&ring, Pos { x: 5, y: 0 }), Some(Pos { x: 1, y: 0 }));
}

#[test]
fn new_form_is_empty_with_the_cursor_at_the_origin() {
    let form = Form::new((82, 24).into());
    assert!(form.labels.is_empty());
    assert!(form.inputs.is_empty());
    assert_eq!(form.current_pos, Pos { x: 0, y: 0 });
    assert_eq!(form.size, Pos { x: 82, y: 24 });
    assert!(form.select_form.is_none());
}

#[test]
fn add_text_appends_a_label() {
    let form = Form::new((80, 24).into())
        .add_text((0, 0).into(), "Hello world")
        .add_text((10, 5).into(), "YoYo");
    assert_eq!(form.labels.len(), 2);
    assert_eq!(form.labels[0].text, "Hello world");
    assert_eq!(form.labels[1].pos, Pos { x: 10, y: 5 });
    assert_eq!(form.labels[1].text, "YoYo");
}

#[test]
fn place_cursor_goes_to_the_first_field() {
    let form = three_fields().place_cursor();
    assert_eq!(form.current_pos, Pos { x: 12, y: 0 });
    let empty = Form::new((80, 24).into()).place_cursor();
    assert_eq!(empty.current_pos, Pos { x: 0, y: 0 });
}

#[test]
fn place_cursor_skips_a_field_at_the_origin() {
    let mut form = Form::new((80, 24).into());
    form.add_input(Input::builder((0, 0).into(), 4, "a").build());
    form.add_input(Input::builder((0, 1).into(), 4, "b").build());
    assert_eq!(form.place_cursor().current_pos, Pos { x: 0, y: 1 });
}

#[test]
fn add_select_promotes_and_appends() {
    let mut form = three_fields();
    form.add_select("hello2".to_string(), "1".to_string(), "one".to_string());
    assert_eq!(form.inputs[1].select, Select::Single);
    assert_eq!(form.inputs[1].select_static, vec![("1".to_string(), "one".to_string())]);
    form.inputs[1].select = Select::Multi;
    form.add_select("hello2".to_string(), "2".to_string(), "two".to_string());
    assert_eq!(form.inputs[1].select, Select::Multi);
    assert_eq!(form.inputs[1].select_static.len(), 2);
    assert_eq!(form.inputs[0].select, Select::NoSelect);
    assert!(form.inputs[0].select_static.is_empty());
}

#[test]
fn find_input_prefers_the_first_of_a_name() {
    let mut form = three_fields();
    form.add_input(Input::builder((1, 9).into(), 4, "hello2").with_value("again").build());
    assert_eq!(form.find_input(&"hello2".to_string()), Some(1));
    assert_eq!(form.find_input(&"nobody".to_string()), None);
    assert_eq!(form.get_input("hello2"), Some("hello2".to_string()));
    assert_eq!(form.get_input("hello3"), Some("hello3".to_string()));
    assert_eq!(form.get_input("nobody"), None);
}

#[test]
fn field_data_is_in_declaration_order_and_verbatim() {
    let mut form = three_fields();
    form.inputs[2].value = "  spaced  ".to_string();
    assert_eq!(
        form.get_field_and_data(),
        vec![("hello", "hello"), ("hello2", "hello2"), ("hello3", "  spaced  ")]
    );
    assert_eq!(
        form.anchors(),
        vec![Pos { x: 12, y: 0 }, Pos { x: 12, y: 2 }, Pos { x: 25, y: 0 }]
    );
}

#[test]
fn current_field_is_the_first_under_the_cursor() {
    let mut form = three_fields();
    form.current_pos = (22, 0).into();
    assert_eq!(form.current_field(), Some(0));
    form.current_pos = (25, 0).into();
    assert_eq!(form.current_field(), Some(2));
    form.current_pos = (23, 0).into();
    assert_eq!(form.current_field(), None);
    form.current_pos = (12, 1).into();
    assert_eq!(form.current_field(), None);
}

#[test]
fn arrows_move_one_cell_and_stop_at_the_edges() {
    let mut form = Form::new((80, 24).into());
    form.move_event(KeyCode::Left);
    assert_eq!(form.current_pos, Pos { x: 0, y: 0 });
    form.move_event(KeyCode::Up);
    assert_eq!(form.current_pos, Pos { x: 0, y: 0 });
    form.move_event(KeyCode::Right);
    form.move_event(KeyCode::Down);
    assert_eq!(form.current_pos, Pos { x: 1, y: 1 });
    form.current_pos = (79, 23).into();
    form.move_event(KeyCode::Right);
    form.move_event(KeyCode::Down);
    assert_eq!(form.current_pos, Pos { x: 79, y: 23 });
    form.current_pos = (65535, 65535).into();
    form.move_event(KeyCode::Right);
    assert_eq!(form.current_pos, Pos { x: 79, y: 23 });
    form.current_pos = (65535, 65535).into();
    form.move_event(KeyCode::Down);
    assert_eq!(form.current_pos, Pos { x: 79, y: 23 });
    form.current_pos = (200, 5).into();
    form.move_event(KeyCode::Tab);
    assert_eq!(form.current_pos, Pos { x: 79, y: 5 });
}

#[test]
fn typing_goes_to_the_focused_field() {
    let mut form = three_fields().place_cursor();
    assert_eq!(form.event_handler(&press(KeyCode::Char('J'))), HANDLED);
    assert_eq!(form.inputs[0].value, "Jello");
    assert_eq!(form.current_pos, Pos { x: 13, y: 0 });
    assert_eq!(form.inputs[1].value, "hello2");
}

#[test]
fn typing_past_a_fields_last_cell_changes_nothing() {
    let mut form = three_fields().place_cursor();
    for _ in 0..10 {
        assert_eq!(form.event_handler(&press(KeyCode::Right)), HANDLED);
    }
    assert_eq!(form.current_pos, Pos { x: 22, y: 0 });
    assert_eq!(form.current_field(), Some(0));
    assert_eq!(form.event_handler(&press(KeyCode::Char('x'))), HANDLED);
    assert_eq!(form.inputs[0].value, "hello");
    assert_eq!(form.current_pos, Pos { x: 22, y: 0 });
}

#[test]
fn form_backspace_at_the_first_cell_changes_nothing() {
    let mut form = three_fields().place_cursor();
    assert_eq!(form.event_handler(&press(KeyCode::Backspace)), HANDLED);
    assert_eq!(form.inputs[0].value, "hello");
    assert_eq!(form.current_pos, Pos { x: 12, y: 0 });
}

#[test]
fn keys_off_every_field_fall_through_to_the_form() {
    let mut form = three_fields();
    form.current_pos = (0, 5).into();
    assert_eq!(form.event_handler(&press(KeyCode::Char('x'))), EventHandlerResult::NotHandled);
    assert_eq!(form.event_handler(&press(KeyCode::Backspace)), EventHandlerResult::NotHandled);
    assert_eq!(form.event_handler(&press(KeyCode::Delete)), EventHandlerResult::NotHandled);
    assert_eq!(form.event_handler(&press(KeyCode::F(5))), EventHandlerResult::NotHandled);
    assert_eq!(form.event_handler(&press(KeyCode::Other)), EventHandlerResult::NotHandled);
    assert_eq!(form.event_handler(&Event::Other), EventHandlerResult::NotHandled);
    assert_eq!(form.event_handler(&press(KeyCode::F(4))), HANDLED);
    assert!(form.select_form.is_none());
    assert_eq!(form.get_field_and_data()[0], ("hello", "hello"));
}

#[test]
fn form_bindings() {
    let mut form = three_fields().place_cursor();
    assert_eq!(form.event_handler(&press(KeyCode::Tab)), HANDLED);
    assert_eq!(form.current_pos, Pos { x: 25, y: 0 });
    assert_eq!(form.event_handler(&press(KeyCode::BackTab)), HANDLED);
    assert_eq!(form.current_pos, Pos { x: 12, y: 0 });
    assert_eq!(form.event_handler(&press(KeyCode::Down)), HANDLED);
    assert_eq!(form.current_pos, Pos { x: 12, y: 1 });
    assert_eq!(form.event_handler(&press(KeyCode::Right)), HANDLED);
    assert_eq!(form.current_pos, Pos { x: 13, y: 1 });
    assert_eq!(form.event_handler(&press(KeyCode::Up)), HANDLED);
    assert_eq!(form.event_handler(&press(KeyCode::Left)), HANDLED);
    assert_eq!(form.current_pos, Pos { x: 12, y: 0 });
    assert_eq!(
        form.event_handler(&press(KeyCode::Esc)),
        EventHandlerResult::Handled(EventResult::Abort)
    );
    assert_eq!(
        form.event_handler(&press(KeyCode::Enter)),
        EventHandlerResult::Handled(EventResult::Submit)
    );
}

fn with_choices(mode_multi: bool) -> Form {
    let mut form = three_fields();
    form.add_select("hello".to_string(), "a".to_string(), "first".to_string());
    form.add_select("hello".to_string(), "b".to_string(), "second".to_string());
    form.add_select("hello".to_string(), "c".to_string(), "third".to_string());
    if mode_multi {
        form.inputs[0].select = Select::Multi;
    }
    let mut form = form.place_cursor();
    form.current_pos = (14, 0).into();
    form
}

#[test]
fn picker_opens_only_where_a_field_offers_it() {
    let mut form = with_choices(false);
    form.current_pos = (25, 0).into();
    assert_eq!(form.event_handler(&press(KeyCode::F(4))), HANDLED);
    assert!(form.select_form.is_none());
    form.current_pos = (14, 0).into();
    assert_eq!(form.event_handler(&press(KeyCode::F(4))), HANDLED);
    let picker = form.select_form.as_ref().unwrap();
    assert_eq!(picker.items.len(), 3);
    assert_eq!(picker.items[1].id, "b");
    assert_eq!(picker.items[1].text, "second");
    assert_eq!(picker.items[1].choice, ' ');
    assert_eq!(picker.current_pos, Pos { x: 20, y: 5 });
    assert_eq!(picker.size, Pos { x: 80, y: 24 });
    assert_eq!(picker.select_type, Select::Single);
}

#[test]
fn picker_does_not_open_without_choices_or_mode() {
    let mut form = three_fields().place_cursor();
    form.inputs[0].select = Select::Single;
    assert_eq!(form.event_handler(&press(KeyCode::F(4))), HANDLED);
    assert!(form.select_form.is_none());
    form.inputs[0].select = Select::NoSelect;
    form.inputs[0].select_static.push(("a".to_string(), "first".to_string()));
    assert_eq!(form.event_handler(&press(KeyCode::F(4))), HANDLED);
    assert!(form.select_form.is_none());
}

#[test]
fn picker_owns_the_input_and_freezes_the_cursor() {
    let mut form = with_choices(false);
    form.event_handler(&press(KeyCode::F(4)));
    assert_eq!(form.event_handler(&press(KeyCode::Char('x'))), HANDLED);
    assert_eq!(form.event_handler(&press(KeyCode::Tab)), HANDLED);
    assert_eq!(form.event_handler(&press(KeyCode::Down)), HANDLED);
    assert_eq!(form.event_handler(&press(KeyCode::F(4))), EventHandlerResult::NotHandled);
    assert_eq!(form.current_pos, Pos { x: 14, y: 0 });
    assert_eq!(form.inputs[0].value, "hello");
    let picker = form.select_form.as_ref().unwrap();
    assert_eq!(picker.items[0].choice, 'x');
    assert_eq!(picker.current_pos, Pos { x: 20, y: 8 });
}

#[test]
fn picker_submit_copies_the_id_and_restores_the_cursor() {
    let mut form = with_choices(false);
    form.event_handler(&press(KeyCode::F(4)));
    form.event_handler(&press(KeyCode::Tab));
    form.event_handler(&press(KeyCode::Char('s')));
    assert_eq!(form.event_handler(&press(KeyCode::Enter)), HANDLED);
    assert!(form.select_form.is_none());
    assert_eq!(form.inputs[0].value, "b");
    assert_eq!(form.current_pos, Pos { x: 12, y: 0 });
}

#[test]
fn picker_submit_with_nothing_selected_clears_the_field() {
    let mut form = with_choices(false);
    form.event_handler(&press(KeyCode::F(4)));
    assert_eq!(form.event_handler(&press(KeyCode::Enter)), HANDLED);
    assert!(form.select_form.is_none());
    assert_eq!(form.inputs[0].value, "");
    assert_eq!(form.current_pos, Pos { x: 12, y: 0 });
}

#[test]
fn single_picker_with_two_marks_does_not_submit() {
    let mut form = with_choices(false);
    form.event_handler(&press(KeyCode::F(4)));
    form.event_handler(&press(KeyCode::Char('s')));
    form.event_handler(&press(KeyCode::Tab));
    form.event_handler(&press(KeyCode::Char('s')));
    assert_eq!(form.event_handler(&press(KeyCode::Enter)), HANDLED);
    assert!(form.select_form.is_some());
    assert_eq!(form.inputs[0].value, "hello");
    assert_eq!(form.current_pos, Pos { x: 14, y: 0 });
    // clearing one mark makes the submission acceptable
    form.event_handler(&press(KeyCode::Backspace));
    assert_eq!(form.event_handler(&press(KeyCode::Enter)), HANDLED);
    assert!(form.select_form.is_none());
    assert_eq!(form.inputs[0].value, "a");
}

#[test]
fn multi_picker_submits_any_number_and_the_field_takes_the_first() {
    let mut form = with_choices(true);
    form.event_handler(&press(KeyCode::F(4)));
    assert_eq!(form.select_form.as_ref().unwrap().select_type, Select::Multi);
    form.event_handler(&press(KeyCode::Tab));
    form.event_handler(&press(KeyCode::Char('s')));
    form.event_handler(&press(KeyCode::Tab));
    form.event_handler(&press(KeyCode::Char('s')));
    assert_eq!(form.event_handler(&press(KeyCode::Enter)), HANDLED);
    assert!(form.select_form.is_none());
    assert_eq!(form.inputs[0].value, "b");
}

#[test]
fn picker_abort_leaves_the_field_alone() {
    let mut form = with_choices(false);
    form.event_handler(&press(KeyCode::F(4)));
    form.event_handler(&press(KeyCode::Char('s')));
    assert_eq!(form.event_handler(&press(KeyCode::Esc)), HANDLED);
    assert!(form.select_form.is_none());
    assert_eq!(form.inputs[0].value, "hello");
    assert_eq!(form.current_pos, Pos { x: 14, y: 0 });
}

#[test]
fn interrupt_is_control_c_pressed_and_nothing_else() {
    let ctrl_c = Event::Key(KeyEvent::new(KeyCode::Char('c'), KeyModifiers::control()));
    assert!(is_interrupt(ctrl_c));
    assert!(!is_interrupt(press(KeyCode::Char('c'))));
    assert!(!is_interrupt(Event::Key(KeyEvent::new(
        KeyCode::Char('C'),
        KeyModifiers::control()
    ))));
    assert!(!is_interrupt(Event::Key(KeyEvent::new(
        KeyCode::Char('c'),
        KeyModifiers { alt: true, ..KeyModifiers::control() }
    ))));
    assert!(!is_interrupt(Event::Key(KeyEvent {
        kind: KeyEventKind::Release,
        ..KeyEvent::new(KeyCode::Char('c'), KeyModifiers::control())
    })));
    assert!(!is_interrupt(Event::Other));
}

#[test]
fn outer_bindings() {
    let mut form = three_fields();
    form.current_pos = (3, 3).into();
    assert_eq!(keyboard_event(&mut form, &press(KeyCode::Esc)), EventResult::Abort);
    assert_eq!(keyboard_event(&mut form, &press(KeyCode::Enter)), EventResult::Submit);
    assert_eq!(keyboard_event(&mut form, &press(KeyCode::Right)), EventResult::Nothing);
    assert_eq!(form.current_pos, Pos { x: 4, y: 3 });
    let ctrl_d = Event::Key(KeyEvent::new(KeyCode::Char('d'), KeyModifiers::control()));
    assert_eq!(keyboard_event(&mut form, &ctrl_d), EventResult::ToggleDebug);
    let ctrl_shift_d = Event::Key(KeyEvent::new(
        KeyCode::Char('d'),
        KeyModifiers { shift: true, ..KeyModifiers::control() },
    ));
    assert_eq!(keyboard_event(&mut form, &ctrl_shift_d), EventResult::ToggleDebug);
    assert_eq!(keyboard_event(&mut form, &press(KeyCode::Char('d'))), EventResult::Nothing);
    assert_eq!(keyboard_event(&mut form, &press(KeyCode::Tab)), EventResult::Nothing);
    assert_eq!(keyboard_event(&mut form, &Event::Other), EventResult::Nothing);
    assert_eq!(form.current_pos, Pos { x: 4, y: 3 });
}

#[test]
fn dispatch_routes_interrupt_form_then_outer_bindings() {
    let mut form = three_fields().place_cursor();
    let ctrl_c = Event::Key(KeyEvent::new(KeyCode::Char('c'), KeyModifiers::control()));
    let ctrl_d = Event::Key(KeyEvent::new(KeyCode::Char('d'), KeyModifiers::control()));
    assert_eq!(dispatch(&mut form, &press(KeyCode::Char('x'))), EventResult::Nothing);
    assert_eq!(form.inputs[0].value, "xello");
    assert_eq!(dispatch(&mut form, &ctrl_d), EventResult::ToggleDebug);
    assert_eq!(dispatch(&mut form, &Event::Other), EventResult::Nothing);
    assert_eq!(dispatch(&mut form, &press(KeyCode::Enter)), EventResult::Submit);
    assert_eq!(dispatch(&mut form, &press(KeyCode::Esc)), EventResult::Abort);
    assert_eq!(dispatch(&mut form, &ctrl_c), EventResult::Abort);
    assert_eq!(form.inputs[0].value, "xello");
}

#[test]
fn interrupt_aborts_even_with_the_picker_open() {
    let mut form = with_choices(false);
    form.event_handler(&press(KeyCode::F(4)));
    let ctrl_c = Event::Key(KeyEvent::new(KeyCode::Char('c'), KeyModifiers::control()));
    assert_eq!(dispatch(&mut form, &ctrl_c), EventResult::Abort);
    assert!(form.select_form.is_some());
}

#[test]
fn format_line_joins_with_an_equals_sign() {
    assert_eq!(format_line("name", "John"), "name=John");
    assert_eq!(format_line("", ""), "=");
    assert_eq!(format_line("n", "'a b'"), "n='a b'");
}

#[test]
fn submitted_form_yields_a_quoted_line_per_field() {
    let mut form = three_fields();
    form.inputs[1].value = "String with spaces".to_string();
    form.inputs[2].value = "\"new\nline\"".to_string();
    assert_eq!(
        output_lines(&form, EventResult::Submit),
        vec![
            "hello=hello".to_string(),
            "hello2='String with spaces'".to_string(),
            "hello3=\"\\\"new\\nline\\\"\"".to_string()
        ]
    );
}

#[test]
fn aborted_form_yields_nothing() {
    let mut form = three_fields().place_cursor();
    dispatch(&mut form, &press(KeyCode::Char('x')));
    dispatch(&mut form, &press(KeyCode::Delete));
    let result = dispatch(&mut form, &press(KeyCode::Esc));
    assert_eq!(result, EventResult::Abort);
    assert!(output_lines(&form, result).is_empty());
    assert!(output_lines(&form, EventResult::Nothing).is_empty());
    assert!(output_lines(&form, EventResult::ToggleDebug).is_empty());
}
