use term_menu::menu::{
    finalize, handle_key, is_selected, select_item, start, Action, Key, MenuState, SelectionType,
};

fn abcd() -> Vec<String> {
    vec![String::from("A"), String::from("B"), String::from("C"), String::from("D")]
}

fn press(state: &mut MenuState, options: &Vec<String>, mode: SelectionType, key: Key) -> Action {
    handle_key(state, options, &mode, key)
}

fn confirmed(action: Action) -> Vec<(usize, String)> {
    match action {
        Action::Confirm(result) => result.selected_items,
        _ => panic!("menu was not confirmed"),
    }
}

#[test]
fn empty_options_do_not_start() {
    assert!(start(&Vec::new()).is_none());
}

#[test]
fn start_highlights_first_row() {
    let state = start(&abcd()).unwrap();
    assert_eq!(state.cursor, 0);
    assert!(state.selected_items.is_empty());
}

#[test]
fn q_cancels_in_every_mode() {
    let options = abcd();
    for mode in [SelectionType::Simple, SelectionType::Radio, SelectionType::Check] {
        let mut state = start(&options).unwrap();
        assert!(matches!(press(&mut state, &options, mode, Key::Char('q')), Action::Cancel));
    }
}

#[test]
fn radio_second_mark_replaces_first() {
    let options = abcd();
    let mut state = start(&options).unwrap();
    press(&mut state, &options, SelectionType::Radio, Key::Char(' '));
    press(&mut state, &options, SelectionType::Radio, Key::Down);
    press(&mut state, &options, SelectionType::Radio, Key::Char(' '));
    assert_eq!(state.selected_items, vec![1]);
    let result = confirmed(press(&mut state, &options, SelectionType::Radio, Key::Char('\n')));
    assert_eq!(result, vec![(1, String::from("B"))]);
}

#[test]
fn check_toggle_twice_restores() {
    let options = abcd();
    let mut state = start(&options).unwrap();
    press(&mut state, &options, SelectionType::Check, Key::Down);
    press(&mut state, &options, SelectionType::Check, Key::Char(' '));
    assert_eq!(state.selected_items, vec![1]);
    press(&mut state, &options, SelectionType::Check, Key::Char(' '));
    assert!(state.selected_items.is_empty());
}

#[test]
fn check_confirm_sorts_by_index() {
    let options = abcd();
    let mode = SelectionType::Check;
    let mut state = start(&options).unwrap();
    for _ in 0..3 {
        press(&mut state, &options, mode, Key::Down);
    }
    press(&mut state, &options, mode, Key::Char(' '));
    for _ in 0..3 {
        press(&mut state, &options, mode, Key::Up);
    }
    press(&mut state, &options, mode, Key::Char(' '));
    press(&mut state, &options, mode, Key::Down);
    press(&mut state, &options, mode, Key::Down);
    press(&mut state, &options, mode, Key::Char(' '));
    assert_eq!(state.selected_items, vec![3, 0, 2]);
    let result = confirmed(press(&mut state, &options, mode, Key::Char('\n')));
    assert_eq!(result, vec![
        (0, String::from("A")),
        (2, String::from("C")),
        (3, String::from("D")),
    ]);
}

#[test]
fn simple_space_is_ignored_and_enter_picks_cursor() {
    let options = abcd();
    let mode = SelectionType::Simple;
    let mut state = start(&options).unwrap();
    press(&mut state, &options, mode, Key::Down);
    press(&mut state, &options, mode, Key::Down);
    assert!(matches!(press(&mut state, &options, mode, Key::Char(' ')), Action::Redraw));
    assert!(state.selected_items.is_empty());
    assert_eq!(state.cursor, 2);
    let result = confirmed(press(&mut state, &options, mode, Key::Char('\n')));
    assert_eq!(result, vec![(2, String::from("C"))]);
}

#[test]
fn navigation_stops_at_edges() {
    let options = abcd();
    let mode = SelectionType::Check;
    let mut state = start(&options).unwrap();
    assert!(matches!(press(&mut state, &options, mode, Key::Up), Action::Redraw));
    assert_eq!(state.cursor, 0);
    for _ in 0..3 {
        press(&mut state, &options, mode, Key::Down);
    }
    assert_eq!(state.cursor, 3);
    press(&mut state, &options, mode, Key::Down);
    assert_eq!(state.cursor, 3);
}

#[test]
fn other_keys_wait_without_change() {
    let options = abcd();
    let mut state = start(&options).unwrap();
    assert!(matches!(press(&mut state, &options, SelectionType::Check, Key::Char('x')), Action::Wait));
    assert!(matches!(press(&mut state, &options, SelectionType::Check, Key::Other), Action::Wait));
    assert_eq!(state.cursor, 0);
    assert!(state.selected_items.is_empty());
}

#[test]
fn check_confirm_with_nothing_marked_is_empty() {
    let options = abcd();
    let mut state = start(&options).unwrap();
    let result = confirmed(press(&mut state, &options, SelectionType::Check, Key::Char('\n')));
    assert!(result.is_empty());
}

#[test]
fn select_item_rules() {
    assert_eq!(select_item(&vec![1, 2], &SelectionType::Radio, &3), vec![3]);
    assert_eq!(select_item(&vec![1, 2], &SelectionType::Simple, &0), vec![0]);
    assert_eq!(select_item(&vec![1, 2], &SelectionType::Check, &1), vec![2]);
    assert_eq!(select_item(&vec![1, 2], &SelectionType::Check, &0), vec![1, 2, 0]);
}

#[test]
fn is_selected_finds_marks() {
    assert!(is_selected(&vec![4, 7], &7));
    assert!(!is_selected(&vec![4, 7], &5));
    assert!(!is_selected(&Vec::new(), &0));
}

#[test]
fn finalize_orders_by_index() {
    let result = finalize(&abcd(), &vec![3, 1]);
    assert_eq!(result.selected_items, vec![(1, String::from("B")), (3, String::from("D"))]);
}
