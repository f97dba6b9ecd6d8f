use uxterm::widget::focus::{advance, retreat};
use uxterm::widget::view::{count_focusables, selected_labels};
use uxterm::{Button, Checkbox, Event, Input, Label, Slider, View, WidgetType, WidgetValue};

fn bars(n: usize) -> String {
    "\u{2500}".repeat(n)
}

fn nested() -> View {
    let mut outer = View::new("Outer");
    outer.add(Checkbox::new("Option1"));
    let mut inner = View::new("Inner");
    inner.add(Checkbox::new("Option2"));
    inner.add(Slider::new("S", 0, 100, 50));
    outer.add(inner);
    outer
}

fn name(widget: &WidgetType) -> String {
    match widget {
        WidgetType::Button(b) => format!("Button({})", b.label),
        WidgetType::Checkbox(c) => format!("Checkbox({})", c.label),
        WidgetType::Slider(s) => format!("Slider({})", s.label),
        WidgetType::Label(l) => format!("Label({})", l.text),
        WidgetType::Input(i) => format!("Input({})", i.label),
        WidgetType::View(v) => format!("View({})", v.label),
    }
}

fn order(view: &View) -> Vec<String> {
    view.flatten_focusable().into_iter().map(name).collect()
}

#[test]
fn new_view_is_empty() {
    let view = View::new("Demo UI");
    assert_eq!(view.label, "Demo UI");
    assert!(view.widgets.is_empty());
    assert!(view.flatten_focusable().is_empty());
    assert!(view.get_values().is_empty());
}

#[test]
fn add_appends_in_order() {
    let mut view = View::new("v");
    view.add(Label::new("l"));
    view.add(Button::new("b"));
    view.add(Checkbox::new("c"));
    view.add(Slider::new("s", 0, 1, 0));
    view.add(Input::new("i", "p"));
    view.add(View::new("n"));
    view.add(WidgetType::Label(Label::new("m")));
    let names: Vec<String> = view.widgets.iter().map(name).collect();
    assert_eq!(
        names,
        vec!["Label(l)", "Button(b)", "Checkbox(c)", "Slider(s)", "Input(i)", "View(n)", "Label(m)"]
    );
}

#[test]
fn labels_are_not_focusable_and_other_leaves_are() {
    assert!(!WidgetType::from(Label::new("l")).is_focusable());
    assert!(WidgetType::from(Button::new("b")).is_focusable());
    assert!(WidgetType::from(Checkbox::new("c")).is_focusable());
    assert!(WidgetType::from(Slider::new("s", 0, 1, 0)).is_focusable());
    assert!(WidgetType::from(Input::new("i", "p")).is_focusable());
}

#[test]
fn a_view_is_focusable_if_a_leaf_below_it_is() {
    assert!(!WidgetType::from(View::new("empty")).is_focusable());
    let mut labels = View::new("labels");
    labels.add(Label::new("a"));
    let mut deep = View::new("deep");
    deep.add(labels);
    assert!(!WidgetType::from(deep).is_focusable());
    assert!(WidgetType::from(nested()).is_focusable());
}

#[test]
fn flattening_is_depth_first_and_skips_labels() {
    let mut main = View::new("Level 1");
    main.add(Checkbox::new("Option 1"));
    main.add(Checkbox::new("Action 1"));
    let mut second = View::new("Level 2");
    second.add(Checkbox::new("Option 2"));
    second.add(Slider::new("Slider", 0, 100, 50));
    let mut third = View::new("Level 3");
    third.add(Label::new("Label"));
    third.add(Button::new("Deep"));
    second.add(third);
    second.add(Input::new("Name", ""));
    main.add(second);
    main.add(Label::new("end"));
    main.add(Button::new("Submit"));
    assert_eq!(
        order(&main),
        vec![
            "Checkbox(Option 1)",
            "Checkbox(Action 1)",
            "Checkbox(Option 2)",
            "Slider(Slider)",
            "Button(Deep)",
            "Input(Name)",
            "Button(Submit)"
        ]
    );
}

#[test]
fn flattening_is_the_concatenation_of_the_children() {
    let view = nested();
    let mut expected = Vec::new();
    for child in &view.widgets {
        match child {
            WidgetType::View(v) => expected.extend(order(v)),
            WidgetType::Label(_) => {}
            leaf => expected.push(name(leaf)),
        }
    }
    assert_eq!(order(&view), expected);
    assert_eq!(order(&view), vec!["Checkbox(Option1)", "Checkbox(Option2)", "Slider(S)"]);
}

#[test]
fn flattening_twice_gives_the_same_order() {
    let view = nested();
    assert_eq!(order(&view), order(&view));
}

#[test]
fn nested_focus_order_and_wrap() {
    let view = nested();
    assert_eq!(order(&view), vec!["Checkbox(Option1)", "Checkbox(Option2)", "Slider(S)"]);
    let total = view.flatten_focusable().len();
    let mut focus = 0;
    focus = advance(focus, total);
    assert_eq!(name(view.flatten_focusable()[focus]), "Checkbox(Option2)");
    focus = advance(focus, total);
    assert_eq!(name(view.flatten_focusable()[focus]), "Slider(S)");
    focus = advance(focus, total);
    assert_eq!(focus, 0);
    assert_eq!(name(view.flatten_focusable()[focus]), "Checkbox(Option1)");
}

#[test]
fn focus_arithmetic_is_exact() {
    assert_eq!(advance(0, 3), 1);
    assert_eq!(advance(2, 3), 0);
    assert_eq!(retreat(0, 3), 2);
    assert_eq!(retreat(2, 3), 1);
    assert_eq!(advance(0, 1), 0);
    assert_eq!(retreat(0, 1), 0);
    assert_eq!(advance(7, 3), 2);
    assert_eq!(retreat(7, 3), 0);
    assert_eq!(advance(usize::MAX, usize::MAX), 1);
    assert_eq!(retreat(0, usize::MAX), usize::MAX - 1);
}

#[test]
fn focus_does_not_move_without_focusable_leaves() {
    assert_eq!(advance(0, 0), 0);
    assert_eq!(retreat(0, 0), 0);
    assert_eq!(advance(5, 0), 5);
    assert_eq!(retreat(5, 0), 5);
}

#[test]
fn focus_returns_after_a_full_cycle() {
    for total in 1..7usize {
        for start in 0..total {
            let mut forwards = start;
            let mut backwards = start;
            for _ in 0..total {
                forwards = advance(forwards, total);
                backwards = retreat(backwards, total);
            }
            assert_eq!(forwards, start);
            assert_eq!(backwards, start);
            assert_eq!(retreat(advance(start, total), total), start);
        }
    }
}

#[test]
fn an_event_reaches_exactly_the_focused_leaf() {
    let mut view = nested();
    view.handle_event(&Event::Toggle, 1);
    assert_eq!(
        view.get_values(),
        vec![
            ("Option1".to_string(), WidgetValue::Bool(false)),
            ("Option2".to_string(), WidgetValue::Bool(true)),
            ("Slider(S)".to_string(), WidgetValue::Int(50)),
        ]
    );
    view.handle_event(&Event::Increment, 2);
    view.handle_event(&Event::Increment, 2);
    view.handle_event(&Event::Decrement, 2);
    view.handle_event(&Event::Toggle, 0);
    assert_eq!(
        view.get_values(),
        vec![
            ("Option1".to_string(), WidgetValue::Bool(true)),
            ("Option2".to_string(), WidgetValue::Bool(true)),
            ("Slider(S)".to_string(), WidgetValue::Int(51)),
        ]
    );
}

#[test]
fn an_event_of_another_kind_is_ignored() {
    let mut view = nested();
    view.handle_event(&Event::Increment, 0);
    view.handle_event(&Event::InsertChar('x'), 0);
    view.handle_event(&Event::Toggle, 2);
    view.handle_event(&Event::DeleteBack, 2);
    view.handle_event(&Event::AdvanceFocus, 1);
    view.handle_event(&Event::Terminate, 1);
    assert_eq!(
        view.get_values(),
        vec![
            ("Option1".to_string(), WidgetValue::Bool(false)),
            ("Option2".to_string(), WidgetValue::Bool(false)),
            ("Slider(S)".to_string(), WidgetValue::Int(50)),
        ]
    );
}

#[test]
fn an_index_that_names_no_leaf_changes_nothing() {
    let mut view = nested();
    view.handle_event(&Event::Toggle, 3);
    view.handle_event(&Event::Toggle, usize::MAX);
    assert!(view.get_values().iter().all(|(_, v)| *v != WidgetValue::Bool(true)));
    let mut empty = View::new("labels only");
    empty.add(Label::new("a"));
    empty.handle_event(&Event::Toggle, 0);
    assert!(empty.get_values().is_empty());
    assert!(empty.flatten_focusable().is_empty());
}

#[test]
fn text_events_reach_a_nested_text_field() {
    let mut form = View::new("Form");
    form.add(Label::new("About you"));
    let mut inner = View::new("Details");
    inner.add(Input::new("Username", "Enter your name"));
    form.add(inner);
    form.add(Checkbox::new("Agree"));
    for c in "bob".chars() {
        form.handle_event(&Event::InsertChar(c), 0);
    }
    form.handle_event(&Event::CursorLeft, 0);
    form.handle_event(&Event::DeleteBack, 0);
    form.handle_event(&Event::CursorRight, 0);
    form.handle_event(&Event::CursorRight, 0);
    form.handle_event(&Event::InsertChar('!'), 1);
    form.handle_event(&Event::Toggle, 0);
    match form.flatten_focusable()[0] {
        WidgetType::Input(input) => {
            assert_eq!(input.get_value(), "bb");
            assert_eq!(input.cursor_pos, 2);
        }
        _ => panic!("the first focusable leaf is the text field"),
    }
    assert_eq!(form.get_values(), vec![("Agree".to_string(), WidgetValue::Bool(false))]);
}

#[test]
fn a_leaf_takes_an_event_whatever_the_index() {
    let mut checkbox = WidgetType::from(Checkbox::new("c"));
    checkbox.handle_event(&Event::Toggle, 17);
    assert_eq!(checkbox.value(), Some(("c".to_string(), WidgetValue::Bool(true))));
    let mut view = WidgetType::from(nested());
    view.handle_event(&Event::Toggle, 1);
    match &view {
        WidgetType::View(v) => assert_eq!(v.get_values()[1].1, WidgetValue::Bool(true)),
        _ => panic!("still a view"),
    }
}

#[test]
fn a_slider_saturates_both_ways() {
    let mut slider = WidgetType::from(Slider::new("S", 0, 5, 5));
    for step in 0..6 {
        slider.handle_event(&Event::Decrement, 0);
        let expected = if step < 5 { 4 - step } else { 0 };
        assert_eq!(slider.value(), Some(("Slider(S)".to_string(), WidgetValue::Int(expected))));
    }
    for _ in 0..10 {
        slider.handle_event(&Event::Increment, 0);
        match &slider {
            WidgetType::Slider(s) => assert!(s.min <= s.value && s.value <= s.max),
            _ => panic!("still a slider"),
        }
    }
    assert_eq!(slider.value(), Some(("Slider(S)".to_string(), WidgetValue::Int(5))));
}

#[test]
fn reacts_to_tells_whether_an_event_changes_a_leaf() {
    let checkbox = WidgetType::from(Checkbox::new("c"));
    assert!(checkbox.reacts_to(&Event::Toggle));
    assert!(!checkbox.reacts_to(&Event::Increment));
    let top = WidgetType::from(Slider::new("s", 0, 5, 5));
    assert!(!top.reacts_to(&Event::Increment));
    assert!(top.reacts_to(&Event::Decrement));
    let mut input = Input::new("i", "p");
    assert!(WidgetType::from(Input::new("i", "p")).reacts_to(&Event::InsertChar('a')));
    assert!(!WidgetType::from(Input::new("i", "p")).reacts_to(&Event::DeleteBack));
    assert!(!WidgetType::from(Input::new("i", "p")).reacts_to(&Event::CursorRight));
    input.handle_char('a');
    let typed = WidgetType::from(input);
    assert!(typed.reacts_to(&Event::DeleteBack));
    assert!(typed.reacts_to(&Event::CursorLeft));
    assert!(!typed.reacts_to(&Event::CursorRight));
    assert!(!WidgetType::from(Button::new("b")).reacts_to(&Event::Toggle));
    assert!(!WidgetType::from(Label::new("l")).reacts_to(&Event::Toggle));
    assert!(!WidgetType::from(nested()).reacts_to(&Event::Toggle));
}

#[test]
fn values_come_from_checkboxes_and_sliders_only() {
    assert_eq!(WidgetType::from(Label::new("l")).value(), None);
    assert_eq!(WidgetType::from(Button::new("b")).value(), None);
    assert_eq!(WidgetType::from(Input::new("i", "p")).value(), None);
    assert_eq!(WidgetType::from(nested()).value(), None);
    assert_eq!(
        WidgetType::from(Slider::new("Vol", -3, 3, -2)).value(),
        Some(("Slider(Vol)".to_string(), WidgetValue::Int(-2)))
    );
    let mut checked = Checkbox::new("c");
    checked.toggle();
    assert_eq!(
        WidgetType::from(checked).value(),
        Some(("c".to_string(), WidgetValue::Bool(true)))
    );
}

#[test]
fn values_follow_the_document_order_across_levels() {
    let mut main = View::new("m");
    main.add(Slider::new("a", 0, 9, 1));
    let mut inner = View::new("i");
    inner.add(Checkbox::new("b"));
    inner.add(Input::new("n", ""));
    main.add(inner);
    main.add(Button::new("go"));
    main.add(Checkbox::new("c"));
    assert_eq!(
        main.get_values(),
        vec![
            ("Slider(a)".to_string(), WidgetValue::Int(1)),
            ("b".to_string(), WidgetValue::Bool(false)),
            ("c".to_string(), WidgetValue::Bool(false)),
        ]
    );
}

#[test]
fn a_view_renders_header_and_children() {
    let mut view = View::new("Demo UI");
    view.add(Label::new("Text Label"));
    view.add(Slider::new("Slider", 0, 100, 50));
    view.add(Checkbox::new("Checkbox 1"));
    view.add(Label::new(""));
    let mut counter = 0;
    let text = view.render(0, 1, &mut counter);
    let expected = format!(
        "=== Demo UI ===\n Text Label\n  Slider [0 {} 100]: 50\n>[ ] Checkbox 1\n ",
        bars(16)
    );
    assert_eq!(text, expected);
    assert_eq!(counter, 2);
}

#[test]
fn a_view_without_children_renders_its_header() {
    let mut counter = 4;
    assert_eq!(View::new("").render(0, 0, &mut counter), "===  ===");
    assert_eq!(counter, 4);
    assert_eq!(View::new("x").render(3, 0, &mut counter), "   === x ===");
}

#[test]
fn nested_views_render_two_columns_deeper() {
    let view = nested();
    let mut counter = 0;
    let text = view.render(0, 2, &mut counter);
    let expected = format!(
        "=== Outer ===\n [ ] Option1\n  === Inner ===\n   [ ] Option2\n  > S [0 {} 100]: 50",
        bars(16)
    );
    assert_eq!(text, expected);
    assert_eq!(counter, 3);
    let mut counter = 0;
    let indented = view.render(1, 1, &mut counter);
    let expected = format!(
        " === Outer ===\n  [ ] Option1\n   === Inner ===\n   >[ ] Option2\n     S [0 {} 100]: 50",
        bars(16)
    );
    assert_eq!(indented, expected);
}

#[test]
fn the_counter_numbers_the_leaves_from_where_it_starts() {
    let view = nested();
    let mut counter = 10;
    let text = view.render(0, 11, &mut counter);
    assert!(text.contains("\n  >[ ] Option2\n"));
    assert!(!text.contains("\n>[ ] Option1"));
    assert_eq!(counter, 13);
    let mut counter = 0;
    let none = view.render(0, 3, &mut counter);
    assert!(!none.contains('>'));
}

#[test]
fn a_widget_renders_behind_its_marker() {
    let mut counter = 7;
    let checkbox = WidgetType::from(Checkbox::new("c"));
    assert_eq!(checkbox.render(true, 2, 0, &mut counter), "  >[ ] c");
    assert_eq!(checkbox.render(false, 0, 0, &mut counter), " [ ] c");
    let label = WidgetType::from(Label::new("text"));
    assert_eq!(label.render(true, 1, 0, &mut counter), "  text");
    let button = WidgetType::from(Button::new("ok"));
    assert_eq!(
        button.render(true, 1, 0, &mut counter),
        format!(" >\u{256d}{}\u{256e}\n \u{2502} ok \u{2502} \n \u{2570}{}\u{256f}", bars(4), bars(4))
    );
    let input = WidgetType::from(Input::new("n", "p"));
    assert!(input.render(true, 0, 0, &mut counter).starts_with(">n\n|\x1b[2mp\x1b[0m\n"));
    assert!(input.render(false, 0, 0, &mut counter).starts_with(" n\n\x1b[2mp\x1b[0m\n"));
    assert_eq!(counter, 7);
    let view = WidgetType::from(nested());
    let text = view.render(false, 1, 8, &mut counter);
    assert!(text.starts_with("   === Outer ===\n    [ ] Option1\n     === Inner ===\n     >[ ] Option2\n"));
    assert_eq!(counter, 10);
}

#[test]
fn counting_matches_flattening() {
    assert_eq!(count_focusables(&View::new("empty")), 0);
    assert_eq!(count_focusables(&nested()), 3);
    let mut labels = View::new("labels");
    labels.add(Label::new("a"));
    labels.add(View::new("inner"));
    assert_eq!(count_focusables(&labels), 0);
}

#[test]
fn only_true_flags_are_selected() {
    let values = vec![
        ("a".to_string(), WidgetValue::Bool(true)),
        ("b".to_string(), WidgetValue::Int(1)),
        ("c".to_string(), WidgetValue::Bool(false)),
        ("d".to_string(), WidgetValue::Bool(true)),
    ];
    assert_eq!(selected_labels(&values), vec!["a".to_string(), "d".to_string()]);
    assert!(selected_labels(&Vec::new()).is_empty());
}

#[test]
fn toggling_twice_through_the_view_restores_it() {
    let mut view = nested();
    view.handle_event(&Event::Toggle, 1);
    let once = view.get_values();
    view.handle_event(&Event::Toggle, 1);
    view.handle_event(&Event::Toggle, 2);
    view.handle_event(&Event::Toggle, 2);
    assert_eq!(once[1], ("Option2".to_string(), WidgetValue::Bool(true)));
    assert_eq!(view.get_values(), nested().get_values());
}
