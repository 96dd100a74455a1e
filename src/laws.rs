//! Laws that relate the menu's operations.

use vstd::prelude::*;
use crate::escape::{highlight_code, reset_code};
use crate::menu::{
    confirmed_selection, next_cursor, next_selection, picked, rendered_line, select_spec, Key,
    SelectionType,
};

verus! {

/// In `Radio` mode, marking row `i` and then another row `j` leaves exactly
/// `{j}` marked, never both.
pub proof fn lemma_radio_mark_replaces(sel: Set<usize>, i: usize, j: usize)
    requires
        i != j,
    ensures
        select_spec(SelectionType::Radio, select_spec(SelectionType::Radio, sel, i), j) == set![j],
        !select_spec(SelectionType::Radio, select_spec(SelectionType::Radio, sel, i), j).contains(i),
{
}

/// In `Check` mode, marking the same row twice in a row gives back the marks
/// from before the first.
pub proof fn lemma_check_toggle_twice(sel: Set<usize>, i: usize)
    ensures
        select_spec(SelectionType::Check, select_spec(SelectionType::Check, sel, i), i) == sel,
{
    let once = select_spec(SelectionType::Check, sel, i);
    if sel.contains(i) {
        assert(once.insert(i) =~= sel);
    } else {
        assert(once.remove(i) =~= sel);
    }
}

/// In `Simple` mode, Space leaves the marks as they are, and confirming
/// returns the highlighted row alone.
pub proof fn lemma_simple_marks(sel: Set<usize>, cursor: usize)
    ensures
        next_selection(SelectionType::Simple, Key::Char(' '), sel, cursor) == sel,
        confirmed_selection(SelectionType::Simple, sel, cursor) == set![cursor],
{
}

/// Up on the first row and Down on the last row leave the cursor where it
/// is, and no key takes the cursor off the rows.
pub proof fn lemma_navigation_bounds(key: Key, cursor: usize, n: nat)
    requires
        cursor < n,
    ensures
        cursor == 0 ==> next_cursor(Key::Up, cursor, n) == 0,
        cursor == n - 1 ==> next_cursor(Key::Down, cursor, n) == cursor,
        next_cursor(key, cursor, n) < n,
{
}

/// A confirmed result lists each marked row once, with its own text, in
/// strictly ascending order of index, whatever order the rows were marked in.
pub proof fn lemma_result_ascending(options: Seq<String>, sel: Set<usize>, n: nat)
    requires
        n <= options.len(),
        n <= usize::MAX + 1,
    ensures
        forall|a: int, b: int| 0 <= a < b < picked(options, sel, n).len()
            ==> picked(options, sel, n)[a].0 < picked(options, sel, n)[b].0,
        forall|k: int| #![auto] 0 <= k < picked(options, sel, n).len() ==> {
            &&& picked(options, sel, n)[k].0 < n
            &&& sel.contains(picked(options, sel, n)[k].0)
            &&& picked(options, sel, n)[k].1 == options[picked(options, sel, n)[k].0 as int]
        },
        forall|i: usize| #![auto] i < n && sel.contains(i) ==> exists|k: int|
            0 <= k < picked(options, sel, n).len() && picked(options, sel, n)[k].0 == i,
    decreases n,
{
    if n > 0 {
        lemma_result_ascending(options, sel, (n - 1) as nat);
        let prev = picked(options, sel, (n - 1) as nat);
        let cur = picked(options, sel, n);
        let last = (n - 1) as usize;
        assert forall|i: usize| #![auto] i < n && sel.contains(i) implies exists|k: int|
            0 <= k < cur.len() && cur[k].0 == i by {
            if i < n - 1 {
                let k = choose|k: int| 0 <= k < prev.len() && prev[k].0 == i;
                assert(cur[k] == prev[k]);
            } else {
                assert(cur[cur.len() - 1].0 == i);
            }
        }
    }
}

/// A row that is marked and highlighted in `Check` mode starts with the
/// highlight escape, then shows `[*] ` and its text, and ends with the
/// colour reset; marked but not highlighted, it has no leading escape and
/// still ends with the reset.
pub proof fn lemma_check_row_shape(text: Seq<char>)
    ensures
        rendered_line(SelectionType::Check, text, true, true) == highlight_code() + seq!['[', '*', ']', ' '] + text + reset_code(),
        rendered_line(SelectionType::Check, text, true, true).subrange(0, 9) == highlight_code(),
        rendered_line(SelectionType::Check, text, true, false) == seq!['[', '*', ']', ' '] + text + reset_code(),
        rendered_line(SelectionType::Check, text, true, false)[0] == '[',
{
    let hl = rendered_line(SelectionType::Check, text, true, true);
    let plain = rendered_line(SelectionType::Check, text, true, false);
    assert(hl =~= highlight_code() + seq!['[', '*', ']', ' '] + text + reset_code());
    assert(hl.subrange(0, 9) =~= highlight_code());
    assert(plain =~= seq!['[', '*', ']', ' '] + text + reset_code());
}

} // verus!
