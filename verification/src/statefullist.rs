//! A clamped, single-selection cursor over an ordered list of items,
//! used for the template picker.
//!
//! The cursor always points into the list when the list is non-empty
//! and is absent when the list is empty.  Movement clamps at both ends:
//! it never wraps around.

use vstd::prelude::*;

verus! {

/// An operation that needs a current selection was invoked on an empty
/// collection (or on a navigator with no addressable line).
#[derive(Clone, Copy, Debug, PartialEq, Eq, Structural)]
pub struct NoSelection;

/// An ordered list of items with one selected index.
pub struct StatefulList<T> {
    pub items: Vec<T>,
    pub cursor: Option<usize>,
}

/// Where a downward move from index `i` lands: one step forward,
/// clamped at the last index.
pub open spec fn clamped_next(len: int, i: int) -> int {
    if i + 1 < len {
        i + 1
    } else {
        i
    }
}

/// Where an upward move from index `i` lands: one step back, clamped
/// at index zero.
pub open spec fn clamped_previous(i: int) -> int {
    if i > 0 {
        i - 1
    } else {
        i
    }
}

/// The cursor after a whole run of moves from index `i`: `true` steps
/// forward, `false` steps back, each clamped.
pub open spec fn apply_moves(len: int, i: int, moves: Seq<bool>) -> int
    decreases moves.len(),
{
    if moves.len() == 0 {
        i
    } else {
        apply_moves(
            len,
            if moves[0] {
                clamped_next(len, i)
            } else {
                clamped_previous(i)
            },
            moves.drop_first(),
        )
    }
}

/// On a non-empty list, no run of moves, however long and however
/// mixed, ever takes the cursor past the last index or before index
/// zero.
pub proof fn lemma_moves_stay_in_bounds(len: int, i: int, moves: Seq<bool>)
    requires
        0 <= i < len,
    ensures
        0 <= apply_moves(len, i, moves) < len,
    decreases moves.len(),
{
    if moves.len() > 0 {
        if moves[0] {
            lemma_moves_stay_in_bounds(len, clamped_next(len, i), moves.drop_first());
        } else {
            lemma_moves_stay_in_bounds(len, clamped_previous(i), moves.drop_first());
        }
    }
}

/// However often the cursor moves forward, it never leaves the valid
/// range nor passes the last index.
pub proof fn lemma_next_stays_clamped(len: int, i: int)
    requires
        0 <= i < len,
    ensures
        0 <= clamped_next(len, i) < len,
        i <= clamped_next(len, i),
{
}

/// However often the cursor moves back, it never leaves the valid
/// range nor retreats past index zero.
pub proof fn lemma_previous_stays_clamped(len: int, i: int)
    requires
        0 <= i < len,
    ensures
        0 <= clamped_previous(i) < len,
        clamped_previous(i) <= i,
{
}

impl<T> StatefulList<T> {
    /// The cursor as a mathematical index.
    pub open spec fn cursor_view(&self) -> Option<int> {
        match self.cursor {
            Some(i) => Some(i as int),
            None => None,
        }
    }

    /// The cursor points into the list exactly when the list is
    /// non-empty.
    pub open spec fn wf(&self) -> bool {
        match self.cursor {
            Some(i) => i < self.items.len(),
            None => self.items.len() == 0,
        }
    }

    /// A list over `items`, with the first one selected when there is
    /// one.
    pub fn with_items(items: Vec<T>) -> (r: Self)
        ensures
            r.wf(),
            r.items == items,
            items.len() > 0 ==> r.cursor == Some(0usize),
            items.len() == 0 ==> r.cursor is None,
    {
        let cursor = if items.len() > 0 {
            Some(0)
        } else {
            None
        };
        StatefulList { items, cursor }
    }

    /// Select the next item; a no-op on the last item or on an empty
    /// list.
    pub fn next(&mut self)
        requires
            old(self).wf(),
        ensures
            final(self).wf(),
            final(self).items == old(self).items,
            match (old(self).cursor, final(self).cursor) {
                (Some(i), Some(j)) => j as int == clamped_next(old(self).items.len() as int, i as int),
                (None, None) => true,
                _ => false,
            },
    {
        match self.cursor {
            Some(i) => {
                if i + 1 < self.items.len() {
                    self.cursor = Some(i + 1);
                }
            },
            None => {},
        }
    }

    /// Select the previous item; a no-op on the first item or on an
    /// empty list.
    pub fn previous(&mut self)
        requires
            old(self).wf(),
        ensures
            final(self).wf(),
            final(self).items == old(self).items,
            match (old(self).cursor, final(self).cursor) {
                (Some(i), Some(j)) => j as int == clamped_previous(i as int),
                (None, None) => true,
                _ => false,
            },
    {
        match self.cursor {
            Some(i) => {
                if i > 0 {
                    self.cursor = Some(i - 1);
                }
            },
            None => {},
        }
    }

    /// The selected item, or `NoSelection` when the list is empty.
    pub fn selected(&self) -> (r: Result<&T, NoSelection>)
        requires
            self.wf(),
        ensures
            match (self.cursor, r) {
                (Some(i), Ok(t)) => *t == self.items@[i as int],
                (None, Err(e)) => e == NoSelection && self.items.len() == 0,
                _ => false,
            },
    {
        match self.cursor {
            Some(i) => Ok(&self.items[i]),
            None => Err(NoSelection),
        }
    }
}

} // verus!
