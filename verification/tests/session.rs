use uxterm::{
    run, Action, Button, Checkbox, Event, Input, KeyCode, KeyEvent, Label, Session, Slider, View,
    WidgetType, WidgetValue,
};

fn flavours() -> View {
    let mut view = View::new("Ice Cream Selector");
    view.add(Checkbox::new("Vanilla"));
    view.add(Checkbox::new("Chocolate"));
    view.add(Checkbox::new("Strawberry"));
    view
}

fn nested() -> View {
    let mut outer = View::new("Outer");
    outer.add(Checkbox::new("Option1"));
    let mut inner = View::new("Inner");
    inner.add(Checkbox::new("Option2"));
    inner.add(Slider::new("S", 0, 100, 50));
    outer.add(inner);
    outer
}

fn press(code: KeyCode) -> KeyEvent {
    KeyEvent::press(code)
}

#[test]
fn a_session_starts_on_the_first_leaf_and_owes_a_drawing() {
    let session = Session::new(flavours());
    assert_eq!(session.focus_index, 0);
    assert!(session.needs_redraw);
    assert!(!session.terminated);
    assert!(session.output().is_empty());
}

#[test]
fn toggling_two_of_three_flavours() {
    let mut session = Session::new(flavours());
    let events = [
        Event::Toggle,
        Event::AdvanceFocus,
        Event::Toggle,
        Event::AdvanceFocus,
        Event::Terminate,
    ];
    for event in events {
        session.dispatch(event);
    }
    assert!(session.terminated);
    assert_eq!(session.output(), vec!["Vanilla".to_string(), "Chocolate".to_string()]);
}

#[test]
fn output_is_in_insertion_order_whatever_the_toggle_order() {
    let mut session = Session::new(flavours());
    let events = [
        Event::RetreatFocus,
        Event::Toggle,
        Event::RetreatFocus,
        Event::RetreatFocus,
        Event::Toggle,
        Event::Terminate,
    ];
    for event in events {
        session.dispatch(event);
    }
    assert_eq!(session.output(), vec!["Vanilla".to_string(), "Strawberry".to_string()]);
}

#[test]
fn focus_moves_through_nested_views_and_wraps() {
    let mut session = Session::new(nested());
    assert_eq!(session.focus_index, 0);
    session.dispatch(Event::AdvanceFocus);
    assert_eq!(session.focus_index, 1);
    session.dispatch(Event::Toggle);
    session.dispatch(Event::AdvanceFocus);
    assert_eq!(session.focus_index, 2);
    session.dispatch(Event::Increment);
    session.dispatch(Event::AdvanceFocus);
    assert_eq!(session.focus_index, 0);
    assert_eq!(
        session.view.get_values(),
        vec![
            ("Option1".to_string(), WidgetValue::Bool(false)),
            ("Option2".to_string(), WidgetValue::Bool(true)),
            ("Slider(S)".to_string(), WidgetValue::Int(51)),
        ]
    );
    assert_eq!(session.output(), vec!["Option2".to_string()]);
}

#[test]
fn a_slider_in_a_session_saturates() {
    let mut view = View::new("v");
    view.add(Slider::new("S", 0, 5, 5));
    let mut session = Session::new(view);
    for _ in 0..6 {
        session.dispatch(Event::Decrement);
    }
    assert_eq!(session.view.get_values(), vec![("Slider(S)".to_string(), WidgetValue::Int(0))]);
    for _ in 0..10 {
        session.dispatch(Event::Increment);
    }
    assert_eq!(session.view.get_values(), vec![("Slider(S)".to_string(), WidgetValue::Int(5))]);
    assert!(session.output().is_empty());
}

#[test]
fn focus_events_are_no_ops_without_focusable_leaves() {
    let mut view = View::new("Nothing to focus");
    view.add(Label::new("one"));
    view.add(View::new("empty"));
    let mut session = Session::new(view);
    assert!(matches!(session.next_action(), Action::Draw(_)));
    for event in [Event::AdvanceFocus, Event::RetreatFocus, Event::Toggle, Event::Increment] {
        session.dispatch(event);
        assert_eq!(session.focus_index, 0);
        assert!(!session.needs_redraw);
        assert!(!session.terminated);
    }
    assert!(matches!(session.next_action(), Action::ReadKey));
    session.dispatch(Event::Terminate);
    assert!(matches!(session.next_action(), Action::Finish(labels) if labels.is_empty()));
}

#[test]
fn a_full_cycle_of_focus_events_returns_to_the_start() {
    let mut session = Session::new(nested());
    session.dispatch(Event::AdvanceFocus);
    let start = session.focus_index;
    for _ in 0..3 {
        session.dispatch(Event::AdvanceFocus);
    }
    assert_eq!(session.focus_index, start);
    for _ in 0..3 {
        session.dispatch(Event::RetreatFocus);
    }
    assert_eq!(session.focus_index, start);
}

#[test]
fn the_redraw_flag_follows_what_changed() {
    let mut view = View::new("v");
    view.add(Slider::new("S", 0, 1, 1));
    view.add(Button::new("B"));
    let mut session = Session::new(view);
    assert!(matches!(session.next_action(), Action::Draw(_)));
    assert!(!session.needs_redraw);
    session.dispatch(Event::Increment);
    assert!(!session.needs_redraw);
    session.dispatch(Event::Toggle);
    assert!(!session.needs_redraw);
    session.dispatch(Event::Decrement);
    assert!(session.needs_redraw);
    assert!(matches!(session.next_action(), Action::Draw(_)));
    session.dispatch(Event::AdvanceFocus);
    assert!(session.needs_redraw);
    assert!(matches!(session.next_action(), Action::Draw(_)));
    session.dispatch(Event::Toggle);
    assert!(!session.needs_redraw);
    let mut single = View::new("one");
    single.add(Button::new("only"));
    let mut alone = Session::new(single);
    assert!(matches!(alone.next_action(), Action::Draw(_)));
    alone.dispatch(Event::AdvanceFocus);
    assert_eq!(alone.focus_index, 0);
    assert!(!alone.needs_redraw);
}

#[test]
fn actions_follow_the_state() {
    let mut session = Session::new(flavours());
    match session.next_action() {
        Action::Draw(lines) => assert_eq!(
            lines,
            vec![
                "=== Ice Cream Selector ===".to_string(),
                ">[ ] Vanilla".to_string(),
                " [ ] Chocolate".to_string(),
                " [ ] Strawberry".to_string(),
            ]
        ),
        _ => panic!("a new session draws first"),
    }
    assert!(matches!(session.next_action(), Action::ReadKey));
    assert!(matches!(session.next_action(), Action::ReadKey));
    session.handle_key(press(KeyCode::Char(' ')));
    match session.next_action() {
        Action::Draw(lines) => assert_eq!(lines[1], ">[x] Vanilla"),
        _ => panic!("a change is drawn"),
    }
    session.handle_key(press(KeyCode::Char('q')));
    assert!(matches!(session.next_action(), Action::ReadKey));
    session.handle_key(press(KeyCode::Tab));
    session.handle_key(press(KeyCode::Esc));
    match session.next_action() {
        Action::Finish(labels) => assert_eq!(labels, vec!["Vanilla".to_string()]),
        _ => panic!("escape ends the session without another drawing"),
    }
    assert!(session.needs_redraw);
    assert!(matches!(session.next_action(), Action::Finish(_)));
}

#[test]
fn a_terminated_session_takes_no_event() {
    let mut session = Session::new(flavours());
    session.dispatch(Event::Terminate);
    session.dispatch(Event::Toggle);
    session.dispatch(Event::AdvanceFocus);
    session.handle_key(press(KeyCode::Char(' ')));
    assert_eq!(session.focus_index, 0);
    assert!(session.output().is_empty());
    assert!(session.terminated);
}

#[test]
fn the_frame_has_one_line_per_line_of_text() {
    let mut view = View::new("Form");
    view.add(Button::new("Go"));
    view.add(Input::new("Name", "?"));
    let session = Session::new(view);
    let lines = session.frame();
    let strokes = "\u{e2}\u{201d}\u{20ac}".repeat(10);
    assert_eq!(
        lines,
        vec![
            "=== Form ===".to_string(),
            ">\u{256d}\u{2500}\u{2500}\u{2500}\u{2500}\u{256e}".to_string(),
            " \u{2502} Go \u{2502} ".to_string(),
            " \u{2570}\u{2500}\u{2500}\u{2500}\u{2500}\u{256f}".to_string(),
            " Name".to_string(),
            "\u{1b}[2m?\u{1b}[0m".to_string(),
            format!("\u{1b}[38;5;205m{}\u{1b}[0m", strokes),
        ]
    );
    let mut counter = 0;
    assert_eq!(lines.join("\n"), session.view.render(0, 0, &mut counter));
    assert!(lines.iter().all(|line| !line.contains('\n')));
}

#[test]
fn keys_mean_events_by_what_has_the_focus() {
    let mut view = View::new("v");
    view.add(Checkbox::new("c"));
    view.add(Input::new("n", "p"));
    let mut session = Session::new(view);
    assert!(!session.on_text());
    assert!(matches!(session.event_for(press(KeyCode::Char(' '))), Some(Event::Toggle)));
    assert!(matches!(session.event_for(press(KeyCode::Char('+'))), Some(Event::Increment)));
    assert!(matches!(session.event_for(press(KeyCode::Char('-'))), Some(Event::Decrement)));
    assert!(matches!(session.event_for(press(KeyCode::Char('a'))), None));
    assert!(matches!(session.event_for(press(KeyCode::Backspace)), None));
    assert!(matches!(session.event_for(press(KeyCode::Left)), None));
    assert!(matches!(session.event_for(press(KeyCode::Right)), None));
    assert!(matches!(session.event_for(press(KeyCode::Other)), None));
    assert!(matches!(session.event_for(press(KeyCode::Tab)), Some(Event::AdvanceFocus)));
    assert!(matches!(session.event_for(press(KeyCode::BackTab)), Some(Event::RetreatFocus)));
    assert!(matches!(session.event_for(press(KeyCode::Esc)), Some(Event::Terminate)));
    session.handle_key(press(KeyCode::Tab));
    assert!(session.on_text());
    assert!(matches!(session.event_for(press(KeyCode::Char(' '))), Some(Event::InsertChar(' '))));
    assert!(matches!(session.event_for(press(KeyCode::Char('+'))), Some(Event::InsertChar('+'))));
    assert!(matches!(session.event_for(press(KeyCode::Char('\u{e9}'))), Some(Event::InsertChar('\u{e9}'))));
    assert!(matches!(session.event_for(press(KeyCode::Char('\x07'))), None));
    assert!(matches!(session.event_for(press(KeyCode::Char('\x7f'))), None));
    assert!(matches!(session.event_for(press(KeyCode::Char('\u{9f}'))), None));
    assert!(matches!(session.event_for(press(KeyCode::Char('\u{a0}'))), Some(Event::InsertChar('\u{a0}'))));
    assert!(matches!(session.event_for(press(KeyCode::Backspace)), Some(Event::DeleteBack)));
    assert!(matches!(session.event_for(press(KeyCode::Left)), Some(Event::CursorLeft)));
    assert!(matches!(session.event_for(press(KeyCode::Right)), Some(Event::CursorRight)));
    assert!(matches!(session.event_for(press(KeyCode::Tab)), Some(Event::AdvanceFocus)));
}

#[test]
fn only_presses_count() {
    let mut session = Session::new(flavours());
    for code in [KeyCode::Char(' '), KeyCode::Tab, KeyCode::Esc, KeyCode::BackTab] {
        let released = KeyEvent { code, pressed: false };
        assert!(session.event_for(released).is_none());
        session.handle_key(released);
    }
    assert_eq!(session.focus_index, 0);
    assert!(!session.terminated);
    assert!(session.output().is_empty());
}

#[test]
fn typing_into_a_focused_text_field() {
    let mut view = View::new("User Information");
    view.add(Input::new("Username", "Enter your name"));
    view.add(Input::new("Email", "you@example.com"));
    let mut session = Session::new(view);
    for c in "a b".chars() {
        session.handle_key(press(KeyCode::Char(c)));
    }
    session.handle_key(press(KeyCode::Left));
    session.handle_key(press(KeyCode::Backspace));
    session.handle_key(press(KeyCode::Tab));
    session.handle_key(press(KeyCode::Char('-')));
    session.handle_key(press(KeyCode::Right));
    session.handle_key(press(KeyCode::Esc));
    let texts: Vec<(String, usize)> = session
        .view
        .flatten_focusable()
        .into_iter()
        .map(|leaf| match leaf {
            WidgetType::Input(input) => (input.get_value().to_string(), input.cursor_pos),
            _ => panic!("only text fields"),
        })
        .collect();
    assert_eq!(texts, vec![("ab".to_string(), 1), ("-".to_string(), 1)]);
    assert!(session.output().is_empty());
}

#[test]
fn run_plays_recorded_keys() {
    let keys = vec![
        press(KeyCode::Char(' ')),
        press(KeyCode::Tab),
        press(KeyCode::Char(' ')),
        press(KeyCode::Tab),
        press(KeyCode::Esc),
    ];
    assert_eq!(run(flavours(), &keys), vec!["Vanilla".to_string(), "Chocolate".to_string()]);
}

#[test]
fn run_stops_at_escape_and_ends_with_the_keys() {
    let keys = vec![
        press(KeyCode::BackTab),
        press(KeyCode::Char(' ')),
        press(KeyCode::Esc),
        press(KeyCode::Tab),
        press(KeyCode::Char(' ')),
    ];
    assert_eq!(run(flavours(), &keys), vec!["Strawberry".to_string()]);
    assert_eq!(run(flavours(), &vec![press(KeyCode::Char(' '))]), vec!["Vanilla".to_string()]);
    assert!(run(flavours(), &Vec::new()).is_empty());
    assert!(run(View::new("empty"), &vec![press(KeyCode::Tab), press(KeyCode::Char(' '))]).is_empty());
}
