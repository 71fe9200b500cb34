//! Moving the selected row of a table up and down, with wraparound.
//!
//! A selection is `None` or the index of a row. Moving down from the last row
//! leads to the first, moving up from the first leads to the last, and the
//! first move in a table with nothing selected leads to the first row. In a
//! table without rows no move does anything.

use vstd::prelude::*;

verus! {

/// A selection names a row of a table with `len` rows, or nothing.
pub open spec fn selection_fits(selected: Option<usize>, len: nat) -> bool {
    match selected {
        Some(i) => i < len,
        None => true,
    }
}

/// The selection after a move to the next row.
pub open spec fn next_row(selected: Option<usize>, len: nat) -> Option<usize> {
    if len == 0 {
        selected
    } else {
        match selected {
            Some(i) => if i + 1 >= len {
                Some(0usize)
            } else {
                Some((i + 1) as usize)
            },
            None => Some(0usize),
        }
    }
}

/// The selection after a move to the previous row.
pub open spec fn previous_row(selected: Option<usize>, len: nat) -> Option<usize> {
    if len == 0 {
        selected
    } else {
        match selected {
            Some(i) => if i == 0 || i >= len {
                Some((len - 1) as usize)
            } else {
                Some((i - 1) as usize)
            },
            None => Some(0usize),
        }
    }
}

/// The selection after a row was taken out of a table that now has `len`
/// rows: it stays on its index where that still names a row, moves to the
/// last row where it does not, and is dropped where no row is left.
pub open spec fn row_after_delete(selected: Option<usize>, len: nat) -> Option<usize> {
    match selected {
        Some(i) => if len == 0 {
            None
        } else if i >= len {
            Some((len - 1) as usize)
        } else {
            Some(i)
        },
        None => None,
    }
}

/// Moves a selection to the next row of a table with `len` rows.
pub fn select_next_row(selected: Option<usize>, len: usize) -> (r: Option<usize>)
    ensures
        r == next_row(selected, len as nat),
        selection_fits(selected, len as nat) ==> selection_fits(r, len as nat),
{
    if len == 0 {
        return selected;
    }
    match selected {
        Some(i) => if i >= len - 1 {
            Some(0)
        } else {
            Some(i + 1)
        },
        None => Some(0),
    }
}

/// Moves a selection to the previous row of a table with `len` rows.
pub fn select_previous_row(selected: Option<usize>, len: usize) -> (r: Option<usize>)
    ensures
        r == previous_row(selected, len as nat),
        len > 0 ==> selection_fits(r, len as nat),
        selection_fits(selected, len as nat) ==> selection_fits(r, len as nat),
{
    if len == 0 {
        return selected;
    }
    match selected {
        Some(i) => if i == 0 || i >= len {
            Some(len - 1)
        } else {
            Some(i - 1)
        },
        None => Some(0),
    }
}

/// Fits a selection to a table that lost a row and now has `len` rows.
pub fn clamp_row(selected: Option<usize>, len: usize) -> (r: Option<usize>)
    ensures
        r == row_after_delete(selected, len as nat),
        selection_fits(r, len as nat),
{
    match selected {
        Some(i) => if len == 0 {
            None
        } else if i >= len {
            Some(len - 1)
        } else {
            Some(i)
        },
        None => None,
    }
}

/// In a table with rows, `len` moves to the next row lead from any row back
/// to it, and so do `len` moves to the previous row.
pub proof fn lemma_moves_wrap(start: usize, len: nat)
    requires
        start < len,
        len <= usize::MAX,
    ensures
        next_row_times(Some(start), len, len) == Some(start),
        previous_row_times(Some(start), len, len) == Some(start),
{
    lemma_next_row_times(start, len, len);
    lemma_previous_row_times(start, len, len);
}

/// The selection after `times` moves to the next row.
pub open spec fn next_row_times(selected: Option<usize>, len: nat, times: nat) -> Option<usize>
    decreases times,
{
    if times == 0 {
        selected
    } else {
        next_row(next_row_times(selected, len, (times - 1) as nat), len)
    }
}

/// The selection after `times` moves to the previous row.
pub open spec fn previous_row_times(selected: Option<usize>, len: nat, times: nat) -> Option<
    usize,
>
    decreases times,
{
    if times == 0 {
        selected
    } else {
        previous_row(previous_row_times(selected, len, (times - 1) as nat), len)
    }
}

proof fn lemma_next_row_times(start: usize, len: nat, times: nat)
    requires
        start < len,
        len <= usize::MAX,
        times <= len,
    ensures
        next_row_times(Some(start), len, times) == Some(
            (if start + times >= len {
                start + times - len
            } else {
                start + times
            }) as usize,
        ),
    decreases times,
{
    if times > 0 {
        lemma_next_row_times(start, len, (times - 1) as nat);
    }
}

proof fn lemma_previous_row_times(start: usize, len: nat, times: nat)
    requires
        start < len,
        len <= usize::MAX,
        times <= len,
    ensures
        previous_row_times(Some(start), len, times) == Some(
            (if start >= times {
                start - times
            } else {
                start + len - times
            }) as usize,
        ),
    decreases times,
{
    if times > 0 {
        lemma_previous_row_times(start, len, (times - 1) as nat);
    }
}

} // verus!
