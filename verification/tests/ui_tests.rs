use path_genie::ui::{SelectorEvent, SelectorOutcome, UI};

#[test]
fn cursor_starts_on_first_item() {
    let ui = UI::new(vec!["a", "b", "c"]);
    assert_eq!(ui.list_view().selected, Some(0));
}

#[test]
fn cursor_wraps_down_from_last_to_first() {
    let mut ui = UI::new(vec!["a", "b", "c"]);
    ui.handle_event(SelectorEvent::Down);
    ui.handle_event(SelectorEvent::Down);
    assert_eq!(ui.list_view().selected, Some(2));
    ui.handle_event(SelectorEvent::Down);
    assert_eq!(ui.list_view().selected, Some(0));
}

#[test]
fn cursor_wraps_up_from_first_to_last() {
    let mut ui = UI::new(vec!["a", "b", "c"]);
    assert_eq!(ui.list_view().selected, Some(0));
    ui.handle_event(SelectorEvent::Up);
    assert_eq!(ui.list_view().selected, Some(2));
}

#[test]
fn confirm_yields_highlighted_item() {
    let mut ui = UI::new(vec!["a", "b", "c"]);
    ui.handle_event(SelectorEvent::Down);
    assert_eq!(ui.list_view().selected, Some(1));
    let outcome = ui.handle_event(SelectorEvent::Confirm);
    match outcome {
        SelectorOutcome::Confirmed(path) => assert_eq!(path, "b"),
        _ => panic!("expected the highlighted path to be confirmed"),
    }
}

#[test]
fn cancel_yields_nothing_at_any_cursor() {
    let mut first = UI::new(vec!["a", "b", "c"]);
    assert!(matches!(
        first.handle_event(SelectorEvent::Cancel),
        SelectorOutcome::Cancelled
    ));

    let mut second = UI::new(vec!["a", "b", "c"]);
    second.handle_event(SelectorEvent::Down);
    assert!(matches!(
        second.handle_event(SelectorEvent::Cancel),
        SelectorOutcome::Cancelled
    ));

    let mut third = UI::new(vec!["a", "b", "c"]);
    third.handle_event(SelectorEvent::Up);
    assert!(matches!(
        third.handle_event(SelectorEvent::Cancel),
        SelectorOutcome::Cancelled
    ));
}

#[test]
fn empty_selector_is_safe() {
    let mut ui = UI::new(Vec::new());
    assert_eq!(ui.list_view().selected, None);
    assert!(matches!(
        ui.handle_event(SelectorEvent::Down),
        SelectorOutcome::Running
    ));
    assert!(matches!(
        ui.handle_event(SelectorEvent::Up),
        SelectorOutcome::Running
    ));
    assert!(matches!(
        ui.handle_event(SelectorEvent::Tick),
        SelectorOutcome::Running
    ));
    assert_eq!(ui.list_view().selected, None);
    assert!(matches!(
        ui.handle_event(SelectorEvent::Confirm),
        SelectorOutcome::Cancelled
    ));
}

#[test]
fn tick_changes_nothing() {
    let mut ui = UI::new(vec!["a", "b"]);
    ui.handle_event(SelectorEvent::Down);
    let outcome = ui.handle_event(SelectorEvent::Tick);
    assert!(matches!(outcome, SelectorOutcome::Running));
    assert_eq!(ui.list_view().selected, Some(1));
}

#[test]
fn list_view_describes_items_and_title() {
    let ui = UI::new(vec!["x", "y"]);
    let view = ui.list_view();
    assert_eq!(view.title, " Select path ");
    assert_eq!(view.highlight_marker, ">> ");
    assert_eq!(view.entries, vec!["x".to_owned(), "y".to_owned()]);
    assert_eq!(view.selected, Some(0));
}
