use hyprtuird::model::Monitor;
use hyprtuird::selection::{
    select_by_name, select_monitor, select_next, select_previous, ListState,
};

fn after_next(selected: Option<usize>, len: usize) -> Option<usize> {
    let mut state = ListState { selected };
    select_next(&mut state, len);
    state.selected()
}

fn after_previous(selected: Option<usize>, len: usize) -> Option<usize> {
    let mut state = ListState { selected };
    select_previous(&mut state, len);
    state.selected()
}

fn monitor(name: &str, focused: bool) -> Monitor {
    Monitor {
        id: 0,
        name: name.to_string(),
        focused,
    }
}

#[test]
fn starts_without_selection() {
    assert_eq!(ListState::default().selected(), None);
}

#[test]
fn next_wraps_round() {
    assert_eq!(after_next(None, 3), Some(0));
    assert_eq!(after_next(Some(0), 3), Some(1));
    assert_eq!(after_next(Some(2), 3), Some(0));
    assert_eq!(after_next(Some(7), 3), Some(0));
    assert_eq!(after_next(Some(1), 0), None);
    assert_eq!(after_next(Some(0), 1), Some(0));
}

#[test]
fn previous_wraps_round() {
    assert_eq!(after_previous(None, 3), Some(2));
    assert_eq!(after_previous(Some(0), 3), Some(2));
    assert_eq!(after_previous(Some(2), 3), Some(1));
    assert_eq!(after_previous(Some(7), 3), Some(6));
    assert_eq!(after_previous(Some(1), 0), None);
}

#[test]
fn steps_undo_each_other_in_a_list() {
    for index in 0..4 {
        assert_eq!(after_previous(after_next(Some(index), 4), 4), Some(index));
        assert_eq!(after_next(after_previous(Some(index), 4), 4), Some(index));
    }
}

#[test]
fn steps_down_return_to_the_start() {
    let mut state = ListState { selected: Some(1) };
    for _ in 0..10 {
        select_next(&mut state, 5);
    }
    assert_eq!(state.selected(), Some(1));
}

#[test]
fn selects_the_first_of_a_name() {
    let items = vec!["a", "b", "b", "c"];
    for (previous, expected) in [
        (Some("b"), Some(1)),
        (Some("c"), Some(3)),
        (Some("x"), Some(0)),
        (None, Some(0)),
    ] {
        let mut state = ListState { selected: Some(9) };
        select_by_name(&mut state, &items, previous, |item| item);
        assert_eq!(state.selected(), expected);
    }
    let mut state = ListState { selected: Some(9) };
    let none: Vec<&str> = Vec::new();
    select_by_name(&mut state, &none, Some("a"), |item| item);
    assert_eq!(state.selected(), None);
}

#[test]
fn selects_a_monitor_by_name_then_focus() {
    let monitors = vec![monitor("A", false), monitor("B", true), monitor("C", true)];
    for (previous, expected) in [
        (Some("C"), Some(2)),
        (Some("A"), Some(0)),
        (Some("X"), Some(1)),
        (None, Some(1)),
    ] {
        let mut state = ListState::default();
        select_monitor(&mut state, &monitors, previous);
        assert_eq!(state.selected(), expected);
    }
    let unfocused = vec![monitor("A", false), monitor("B", false)];
    let mut state = ListState::default();
    select_monitor(&mut state, &unfocused, Some("X"));
    assert_eq!(state.selected(), Some(0));
    select_monitor(&mut state, &[], Some("A"));
    assert_eq!(state.selected(), None);
}
