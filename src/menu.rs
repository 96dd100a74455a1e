//! The menu engine: selection modes, the mark rules, the key transitions,
//! the result built on confirmation and the rendered rows.

use vstd::prelude::*;
use vstd::string::StringExecFns;
use crate::escape::{highlight_code, highlight_escape, reset_code, reset_escape};

verus! {

/// How marks behave in a menu.
#[derive(Clone, Copy, Debug, PartialEq, Eq, Structural)]
pub enum SelectionType {
    /// No persistent mark: confirming picks the highlighted row.
    Simple,
    /// At most one row is marked; marking a row replaces the previous mark.
    Radio,
    /// Any subset of rows is marked; marking toggles a row.
    Check,
}

/// The rows that a confirmed menu returns, as (index, text) pairs.
pub struct ExecutionResult {
    pub selected_items: Vec<(usize, String)>,
}

/// The set of indices that a list of marks stands for.
pub open spec fn marks(v: Seq<usize>) -> Set<usize> {
    v.to_set()
}

/// The marks after marking row `i`: the singleton `{i}` in `Simple` and
/// `Radio` mode, membership of `i` toggled in `Check` mode.
pub open spec fn select_spec(mode: SelectionType, sel: Set<usize>, i: usize) -> Set<usize> {
    match mode {
        SelectionType::Simple => set![i],
        SelectionType::Radio => set![i],
        SelectionType::Check => if sel.contains(i) {
            sel.remove(i)
        } else {
            sel.insert(i)
        },
    }
}

/// Whether `index` is among the marks.
pub fn is_selected(selected_items: &Vec<usize>, index: &usize) -> (r: bool)
    ensures
        r == selected_items@.contains(*index),
{
    let mut k: usize = 0;
    while k < selected_items.len()
        invariant
            k <= selected_items@.len(),
            forall|j: int| 0 <= j < k ==> selected_items@[j] != *index,
        decreases selected_items@.len() - k,
    {
        if selected_items[k] == *index {
            return true;
        }
        k = k + 1;
    }
    false
}

/// The marks after marking row `index` (see `select_spec`). A list without
/// repeated entries stays without them.
pub fn select_item(selected_items: &Vec<usize>, selection_type: &SelectionType, index: &usize) -> (r: Vec<usize>)
    ensures
        marks(r@) == select_spec(*selection_type, marks(selected_items@), *index),
        *selection_type != SelectionType::Check ==> r@ == seq![*index],
        selected_items@.no_duplicates() ==> r@.no_duplicates(),
{
    match selection_type {
        SelectionType::Simple => {
            let r = vec![*index];
            proof {
                assert(r@ =~= seq![*index]);
                lemma_marks_single(r@, *index);
            }
            r
        },
        SelectionType::Check => {
            if is_selected(selected_items, index) {
                let mut kept: Vec<usize> = Vec::new();
                let mut k: usize = 0;
                while k < selected_items.len()
                    invariant
                        k <= selected_items@.len(),
                        forall|x: usize| kept@.contains(x) <==> (x != *index && exists|j: int| 0 <= j < k && selected_items@[j] == x),
                        selected_items@.no_duplicates() ==> kept@.no_duplicates(),
                    decreases selected_items@.len() - k,
                {
                    let item = selected_items[k];
                    if item != *index {
                        proof {
                            if selected_items@.no_duplicates() && kept@.contains(item) {
                                let j = choose|j: int| 0 <= j < k && selected_items@[j] == item;
                                assert(selected_items@[j] == selected_items@[k as int]);
                            }
                        }
                        let ghost before = kept@;
                        kept.push(item);
                        proof {
                            assert(kept@ == before.push(item));
                            assert forall|x: usize| kept@.contains(x) <==> (x != *index && exists|j: int| 0 <= j < k + 1 && selected_items@[j] == x) by {
                                if kept@.contains(x) {
                                    let m = choose|m: int| 0 <= m < kept@.len() && kept@[m] == x;
                                    if m < kept@.len() - 1 {
                                        assert(before[m] == x);
                                        assert(before.contains(x));
                                    } else {
                                        assert(selected_items@[k as int] == x);
                                    }
                                }
                                if x != *index && exists|j: int| 0 <= j < k + 1 && selected_items@[j] == x {
                                    let j = choose|j: int| 0 <= j < k + 1 && selected_items@[j] == x;
                                    if j < k {
                                        assert(before.contains(x));
                                        let m = choose|m: int| 0 <= m < before.len() && before[m] == x;
                                        assert(kept@[m] == x);
                                    } else {
                                        assert(kept@[kept@.len() - 1] == x);
                                    }
                                }
                            }

                        }
                    }
                    k = k + 1;
                }
                proof {
                    assert forall|x: usize| #![auto] marks(kept@).contains(x) == marks(selected_items@).remove(*index).contains(x) by {
                        if x != *index && selected_items@.contains(x) {
                            let j = choose|j: int| 0 <= j < selected_items@.len() && selected_items@[j] == x;
                        }
                    }
                    assert(marks(kept@) =~= marks(selected_items@).remove(*index));
                }
                kept
            } else {
                let mut grown = selected_items.clone();
                grown.push(*index);
                proof {
                    assert(grown@ == selected_items@.push(*index));
                    assert forall|x: usize| #![auto] marks(grown@).contains(x) == marks(selected_items@).insert(*index).contains(x) by {
                        if selected_items@.contains(x) {
                            let j = choose|j: int| 0 <= j < selected_items@.len() && selected_items@[j] == x;
                            assert(grown@[j] == x);
                        }
                        if grown@.contains(x) && x != *index {
                            let j = choose|j: int| 0 <= j < grown@.len() && grown@[j] == x;
                            assert(selected_items@[j] == x);
                        }
                        if x == *index {
                            assert(grown@[grown@.len() - 1] == x);
                        }
                    }
                    assert(marks(grown@) =~= marks(selected_items@).insert(*index));
                }
                grown
            }
        },
        SelectionType::Radio => {
            let r = vec![*index];
            proof {
                assert(r@ =~= seq![*index]);
                lemma_marks_single(r@, *index);
            }
            r
        },
    }
}

proof fn lemma_marks_single(s: Seq<usize>, i: usize)
    requires
        s == seq![i],
    ensures
        marks(s) == set![i],
        s.no_duplicates(),
{
    assert forall|x: usize| marks(s).contains(x) == set![i].contains(x) by {
        if x == i {
            assert(s[0] == x);
        }
    }
    assert(marks(s) =~= set![i]);
}

/// The three-character mark shown in front of a row.
pub open spec fn icon(mode: SelectionType, selected: bool) -> Seq<char> {
    match mode {
        SelectionType::Simple => seq![' ', ' ', ' '],
        SelectionType::Check => if selected {
            seq!['[', '*', ']']
        } else {
            seq!['[', ' ', ']']
        },
        SelectionType::Radio => if selected {
            seq!['(', '*', ')']
        } else {
            seq!['(', ' ', ')']
        },
    }
}

/// A rendered row: the highlight escape when the row is highlighted, the
/// icon, a space, the text, and the colour reset.
pub open spec fn rendered_line(mode: SelectionType, text: Seq<char>, selected: bool, highlighted: bool) -> Seq<char> {
    (if highlighted { highlight_code() } else { Seq::empty() }) + icon(mode, selected) + seq![' '] + text + reset_code()
}

/// Renders one row of the menu (see `rendered_line`).
pub fn render_item(selection_type: &SelectionType, text: &String, selected: bool, highlighted: bool) -> (r: String)
    ensures
        r@ == rendered_line(*selection_type, text@, selected, highlighted),
{
    let mut line = if highlighted {
        highlight_escape()
    } else {
        String::new()
    };
    let icon_text: &str = match selection_type {
        SelectionType::Simple => "   ",
        SelectionType::Check => if selected {
            "[*]"
        } else {
            "[ ]"
        },
        SelectionType::Radio => if selected {
            "(*)"
        } else {
            "( )"
        },
    };
    proof {
        reveal_strlit("   ");
        reveal_strlit("[*]");
        reveal_strlit("[ ]");
        reveal_strlit("(*)");
        reveal_strlit("( )");
        reveal_strlit(" ");
        assert(icon_text@ =~= icon(*selection_type, selected));
    }
    line.append(icon_text);
    line.append(" ");
    line.append(text.as_str());
    let end = reset_escape();
    line.append(end.as_str());
    proof {
        assert(line@ =~= rendered_line(*selection_type, text@, selected, highlighted));
    }
    line
}

/// The (index, text) pairs of the marked rows among the first `n`, in
/// ascending order of index.
pub open spec fn picked(options: Seq<String>, sel: Set<usize>, n: nat) -> Seq<(usize, String)>
    decreases n,
{
    if n == 0 {
        Seq::empty()
    } else {
        let i = (n - 1) as usize;
        picked(options, sel, (n - 1) as nat) + if sel.contains(i) {
            seq![(i, options[n - 1])]
        } else {
            Seq::empty()
        }
    }
}

/// The result of confirming with the given marks: every marked row, paired
/// with its text, in ascending order of index.
pub fn finalize(options: &Vec<String>, selected_items: &Vec<usize>) -> (r: ExecutionResult)
    ensures
        r.selected_items@ == picked(options@, marks(selected_items@), options@.len()),
{
    let mut items: Vec<(usize, String)> = Vec::new();
    let mut i: usize = 0;
    while i < options.len()
        invariant
            i <= options@.len(),
            items@ == picked(options@, marks(selected_items@), i as nat),
        decreases options@.len() - i,
    {
        if is_selected(selected_items, &i) {
            items.push((i, options[i].clone()));
        }
        proof {
            assert(picked(options@, marks(selected_items@), (i + 1) as nat) =~= items@);
        }
        i = i + 1;
    }
    ExecutionResult { selected_items: items }
}

/// A key press, as far as the menu tells keys apart.
#[derive(Clone, Copy, Debug, PartialEq, Eq, Structural)]
pub enum Key {
    Up,
    Down,
    Char(char),
    Other,
}

/// What the caller does after a key has been handled.
pub enum Action {
    /// Repaint the menu, then read the next key.
    Redraw,
    /// Read the next key without repainting.
    Wait,
    /// The menu is confirmed with this result.
    Confirm(ExecutionResult),
    /// The menu is cancelled.
    Cancel,
}

/// The state of a running menu: the highlighted row and the marked rows.
pub struct MenuState {
    pub cursor: usize,
    pub selected_items: Vec<usize>,
}

impl MenuState {
    /// The state fits a menu of `n` rows in mode `mode`: the cursor is on a
    /// row, each marked row exists and is marked once, `Radio` marks at most
    /// one row and `Simple` none.
    pub open spec fn wf(&self, n: nat, mode: SelectionType) -> bool {
        &&& self.cursor < n
        &&& self.selected_items@.no_duplicates()
        &&& forall|j: int| 0 <= j < self.selected_items@.len() ==> self.selected_items@[j] < n
        &&& (mode == SelectionType::Radio ==> self.selected_items@.len() <= 1)
        &&& (mode == SelectionType::Simple ==> self.selected_items@.len() == 0)
    }

    /// The marked rows as a set.
    pub open spec fn selection(&self) -> Set<usize> {
        marks(self.selected_items@)
    }
}

/// The keys that the menu acts on: Up, Down, Space, Enter and `q`.
pub open spec fn is_recognized(key: Key) -> bool {
    key == Key::Up || key == Key::Down || key == Key::Char(' ') || key == Key::Char('\n') || key == Key::Char('q')
}

/// The cursor after `key` in a menu of `n` rows: Up and Down move it by one
/// row and stop at the first and last rows; other keys leave it.
pub open spec fn next_cursor(key: Key, cursor: usize, n: nat) -> usize {
    match key {
        Key::Up => if cursor > 0 {
            (cursor - 1) as usize
        } else {
            cursor
        },
        Key::Down => if cursor + 1 < n {
            (cursor + 1) as usize
        } else {
            cursor
        },
        _ => cursor,
    }
}

/// The marks after `key`: Space marks the highlighted row in `Radio` and
/// `Check` mode; nothing else changes them.
pub open spec fn next_selection(mode: SelectionType, key: Key, sel: Set<usize>, cursor: usize) -> Set<usize> {
    if key == Key::Char(' ') && mode != SelectionType::Simple {
        select_spec(mode, sel, cursor)
    } else {
        sel
    }
}

/// The marks that a confirmation returns: the highlighted row in `Simple`
/// mode, the current marks otherwise.
pub open spec fn confirmed_selection(mode: SelectionType, sel: Set<usize>, cursor: usize) -> Set<usize> {
    if mode == SelectionType::Simple {
        select_spec(mode, sel, cursor)
    } else {
        sel
    }
}

/// The state a menu starts in: the first row highlighted, nothing marked;
/// `None` for a menu without rows.
pub fn start(options: &Vec<String>) -> (r: Option<MenuState>)
    ensures
        r is None <==> options@.len() == 0,
        r matches Some(s) ==> s.cursor == 0 && s.selected_items@.len() == 0,
{
    if options.len() == 0 {
        None
    } else {
        Some(MenuState { cursor: 0, selected_items: Vec::new() })
    }
}

/// Handles one key press: moves the cursor, changes the marks, or ends the
/// menu with a confirmation or a cancellation.
pub fn handle_key(state: &mut MenuState, options: &Vec<String>, mode: &SelectionType, key: Key) -> (r: Action)
    requires
        old(state).wf(options@.len(), *mode),
    ensures
        final(state).wf(options@.len(), *mode),
        final(state).cursor == next_cursor(key, old(state).cursor, options@.len()),
        final(state).selection() == next_selection(*mode, key, old(state).selection(), old(state).cursor),
        (key == Key::Up || key == Key::Down || key == Key::Char(' ')) ==> r is Redraw,
        key == Key::Char('\n') ==> r is Confirm && r->0.selected_items@ == picked(
            options@,
            confirmed_selection(*mode, old(state).selection(), old(state).cursor),
            options@.len(),
        ),
        key == Key::Char('q') ==> r is Cancel,
        !is_recognized(key) ==> r is Wait,
{
    match key {
        Key::Up => {
            if state.cursor > 0 {
                state.cursor = state.cursor - 1;
            }
            Action::Redraw
        },
        Key::Down => {
            if state.cursor < options.len() - 1 {
                state.cursor = state.cursor + 1;
            }
            Action::Redraw
        },
        Key::Char(' ') => {
            match mode {
                SelectionType::Simple => {},
                _ => {
                    let ghost before = state.selected_items@;
                    let next = select_item(&state.selected_items, mode, &state.cursor);
                    proof {
                        assert forall|j: int| 0 <= j < next@.len() implies next@[j] < options@.len() by {
                            assert(marks(next@).contains(next@[j]));
                            if next@[j] != state.cursor {
                                assert(marks(before).contains(next@[j]));
                                let m = choose|m: int| 0 <= m < before.len() && before[m] == next@[j];
                            }
                        }
                    }
                    state.selected_items = next;
                },
            }
            Action::Redraw
        },
        Key::Char('\n') => {
            let result = match mode {
                SelectionType::Simple => {
                    let chosen = select_item(&state.selected_items, mode, &state.cursor);
                    finalize(options, &chosen)
                },
                _ => finalize(options, &state.selected_items),
            };
            Action::Confirm(result)
        },
        Key::Char('q') => Action::Cancel,
        _ => Action::Wait,
    }
}

/// Renders every row of the menu in index order: row `i` is marked when it
/// is in the selection and highlighted when the cursor is on it.
pub fn render_rows(options: &Vec<String>, selection_type: &SelectionType, state: &MenuState) -> (r: Vec<String>)
    ensures
        r@.len() == options@.len(),
        forall|i: int| #![auto] 0 <= i < options@.len() ==> r@[i]@ == rendered_line(
            *selection_type,
            options@[i]@,
            state.selection().contains(i as usize),
            i == state.cursor,
        ),
{
    let mut rows: Vec<String> = Vec::new();
    let mut i: usize = 0;
    while i < options.len()
        invariant
            i <= options@.len(),
            rows@.len() == i,
            forall|j: int| #![auto] 0 <= j < i ==> rows@[j]@ == rendered_line(
                *selection_type,
                options@[j]@,
                state.selection().contains(j as usize),
                j == state.cursor,
            ),
        decreases options@.len() - i,
    {
        let selected = is_selected(&state.selected_items, &i);
        let row = render_item(selection_type, &options[i], selected, state.cursor == i);
        rows.push(row);
        i = i + 1;
    }
    rows
}

} // verus!
