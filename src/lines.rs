//! The eight winning lines of a three-by-three grid, shared by both board levels.
use vstd::prelude::*;

use crate::square::{line_owner, Mark};

verus! {

/// Number of positions in a three-by-three grid.
pub const GRID: usize = 9;

/// Number of winning lines in a three-by-three grid.
pub const N_LINES: usize = 8;

/// The positions of line `k`: rows, then columns, then the two diagonals.
pub open spec fn line_at(k: int) -> (int, int, int) {
    if k == 0 {
        (0, 1, 2)
    } else if k == 1 {
        (3, 4, 5)
    } else if k == 2 {
        (6, 7, 8)
    } else if k == 3 {
        (0, 3, 6)
    } else if k == 4 {
        (1, 4, 7)
    } else if k == 5 {
        (2, 5, 8)
    } else if k == 6 {
        (0, 4, 8)
    } else {
        (2, 4, 6)
    }
}

/// The owner of line `k` over a grid of owners.
pub open spec fn owner_of_line(owners: Seq<Option<Mark>>, k: int) -> Option<Mark> {
    let (a, b, c) = line_at(k);
    line_owner(owners[a], owners[b], owners[c])
}

/// The owner of the first line, from line `k` on, that one mark holds
/// entirely; nothing when no such line remains.
pub open spec fn first_winner_from(owners: Seq<Option<Mark>>, k: int) -> Option<Mark>
    decreases N_LINES - k,
{
    if k >= N_LINES {
        None
    } else {
        match owner_of_line(owners, k) {
            Some(m) => Some(m),
            None => first_winner_from(owners, k + 1),
        }
    }
}

/// The owner of the first winning line of a grid, in the fixed line order.
pub open spec fn first_winner(owners: Seq<Option<Mark>>) -> Option<Mark> {
    first_winner_from(owners, 0)
}

/// A grid where no position has an owner has no winning line.
pub proof fn lemma_blank_grid_has_no_winner(owners: Seq<Option<Mark>>, k: int)
    requires
        owners.len() == GRID,
        forall|i: int| 0 <= i < GRID ==> #[trigger] owners[i] is None,
    ensures
        first_winner_from(owners, k) is None,
    decreases N_LINES - k,
{
    if k < N_LINES {
        lemma_blank_grid_has_no_winner(owners, k + 1);
    }
}

/// The positions of line `k`.
pub fn line(k: usize) -> (r: (usize, usize, usize))
    requires
        k < N_LINES,
    ensures
        (r.0 as int, r.1 as int, r.2 as int) == line_at(k as int),
        r.0 < GRID && r.1 < GRID && r.2 < GRID,
{
    match k {
        0 => (0, 1, 2),
        1 => (3, 4, 5),
        2 => (6, 7, 8),
        3 => (0, 3, 6),
        4 => (1, 4, 7),
        5 => (2, 5, 8),
        6 => (0, 4, 8),
        _ => (2, 4, 6),
    }
}

} // verus!
