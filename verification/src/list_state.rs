//! The selection of a scrolling list, kept as plain values; ratatui's
//! `ListState` computes how it moves.
use vstd::prelude::*;

verus! {

/// The selected row of a list (if any) and the first row shown.
#[derive(Clone, Copy, PartialEq, Eq, Structural, Debug)]
pub struct ListSelection {
    pub selected: Option<usize>,
    pub offset: usize,
}

/// Selecting `index`; clearing the selection also scrolls back to the top.
pub open spec fn selection_after_select(s: ListSelection, index: Option<usize>) -> ListSelection {
    ListSelection {
        selected: index,
        offset: if index is None {
            0
        } else {
            s.offset
        },
    }
}

/// `a + b`, or the largest `usize` when that overflows.
pub open spec fn usize_sat_add(a: int, b: int) -> usize {
    if a + b > usize::MAX {
        usize::MAX
    } else {
        (a + b) as usize
    }
}

/// `a - b`, or 0 when `b` is larger.
pub open spec fn usize_sat_sub(a: int, b: int) -> usize {
    if a - b < 0 {
        0
    } else {
        (a - b) as usize
    }
}

/// ratatui's `ListState::select`: selects `index`, and scrolls back to the
/// top when the selection is cleared.
#[verifier::external_body]
pub(crate) fn list_select(s: ListSelection, index: Option<usize>) -> (r: ListSelection)
    ensures
        r == selection_after_select(s, index),
{
    let mut st = ratatui::widgets::ListState::default().with_offset(s.offset).with_selected(
        s.selected,
    );
    st.select(index);
    ListSelection { selected: st.selected(), offset: st.offset() }
}

/// ratatui's `ListState::select_first`: selects the first row.
#[verifier::external_body]
pub(crate) fn list_select_first(s: ListSelection) -> (r: ListSelection)
    ensures
        r == selection_after_select(s, Some(0)),
{
    let mut st = ratatui::widgets::ListState::default().with_offset(s.offset).with_selected(
        s.selected,
    );
    st.select_first();
    ListSelection { selected: st.selected(), offset: st.offset() }
}

/// ratatui's `ListState::select_last`: selects the largest index, which
/// rendering later clamps to the last row.
#[verifier::external_body]
pub(crate) fn list_select_last(s: ListSelection) -> (r: ListSelection)
    ensures
        r == selection_after_select(s, Some(usize::MAX)),
{
    let mut st = ratatui::widgets::ListState::default().with_offset(s.offset).with_selected(
        s.selected,
    );
    st.select_last();
    ListSelection { selected: st.selected(), offset: st.offset() }
}

/// ratatui's `ListState::select_next`: the row after the selected one (not
/// past the largest index), or the first row when none is selected.
#[verifier::external_body]
pub(crate) fn list_select_next(s: ListSelection) -> (r: ListSelection)
    ensures
        r == selection_after_select(
            s,
            Some(
                match s.selected {
                    Some(i) => usize_sat_add(i as int, 1),
                    None => 0,
                },
            ),
        ),
{
    let mut st = ratatui::widgets::ListState::default().with_offset(s.offset).with_selected(
        s.selected,
    );
    st.select_next();
    ListSelection { selected: st.selected(), offset: st.offset() }
}

/// ratatui's `ListState::select_previous`: the row before the selected one
/// (not before the first), or the largest index when none is selected.
#[verifier::external_body]
pub(crate) fn list_select_previous(s: ListSelection) -> (r: ListSelection)
    ensures
        r == selection_after_select(
            s,
            Some(
                match s.selected {
                    Some(i) => usize_sat_sub(i as int, 1),
                    None => usize::MAX,
                },
            ),
        ),
{
    let mut st = ratatui::widgets::ListState::default().with_offset(s.offset).with_selected(
        s.selected,
    );
    st.select_previous();
    ListSelection { selected: st.selected(), offset: st.offset() }
}

/// ratatui's `ListState::scroll_down_by`: moves the selection (the first
/// row when none) `amount` rows down, not past the largest index.
#[verifier::external_body]
pub(crate) fn list_scroll_down_by(s: ListSelection, amount: u16) -> (r: ListSelection)
    ensures
        r == selection_after_select(
            s,
            Some(
                usize_sat_add(
                    match s.selected {
                        Some(i) => i as int,
                        None => 0,
                    },
                    amount as int,
                ),
            ),
        ),
{
    let mut st = ratatui::widgets::ListState::default().with_offset(s.offset).with_selected(
        s.selected,
    );
    st.scroll_down_by(amount);
    ListSelection { selected: st.selected(), offset: st.offset() }
}

/// ratatui's `ListState::scroll_up_by`: moves the selection (the first row
/// when none) `amount` rows up, not before the first row.
#[verifier::external_body]
pub(crate) fn list_scroll_up_by(s: ListSelection, amount: u16) -> (r: ListSelection)
    ensures
        r == selection_after_select(
            s,
            Some(
                usize_sat_sub(
                    match s.selected {
                        Some(i) => i as int,
                        None => 0,
                    },
                    amount as int,
                ),
            ),
        ),
{
    let mut st = ratatui::widgets::ListState::default().with_offset(s.offset).with_selected(
        s.selected,
    );
    st.scroll_up_by(amount);
    ListSelection { selected: st.selected(), offset: st.offset() }
}

} // verus!
