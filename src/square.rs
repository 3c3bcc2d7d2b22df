//! Marks, single cells, and the three-in-a-row matcher.
use vstd::prelude::*;

verus! {

/// One of the two player symbols.
#[derive(Clone, Copy, Debug, PartialEq, Eq, Structural)]
pub enum Mark {
    X,
    O,
}

/// The other player's mark.
pub open spec fn flipped(m: Mark) -> Mark {
    match m {
        Mark::X => Mark::O,
        Mark::O => Mark::X,
    }
}

/// The single-character text a mark is shown as.
pub open spec fn mark_symbol(m: Mark) -> Seq<char> {
    match m {
        Mark::X => seq!['X'],
        Mark::O => seq!['O'],
    }
}

impl Mark {
    /// Hands the turn to the other player.
    pub fn flip(&self) -> (r: Mark)
        ensures
            r == flipped(*self),
            r != *self,
    {
        match self {
            Mark::X => Mark::O,
            Mark::O => Mark::X,
        }
    }

    /// The mark as a one-character string.
    pub fn symbol(&self) -> (r: &'static str)
        ensures
            r@ == mark_symbol(*self),
    {
        match self {
            Mark::X => {
                proof {
                    reveal_strlit("X");
                }
                "X"
            },
            Mark::O => {
                proof {
                    reveal_strlit("O");
                }
                "O"
            },
        }
    }
}

/// Flipping a mark twice gives it back, and flipping always changes it.
pub proof fn lemma_flip_involution(m: Mark)
    ensures
        flipped(flipped(m)) == m,
        flipped(m) != m,
{
}

/// A single board position: empty, or holding one mark.
#[derive(Clone, Copy, Debug, PartialEq, Eq, Structural)]
pub struct Square(pub Option<Mark>);

/// The owner of a line of three positions: the common mark when all three
/// hold the same mark, and nothing otherwise (an empty position never matches).
pub open spec fn line_owner(a: Option<Mark>, b: Option<Mark>, c: Option<Mark>) -> Option<Mark> {
    if a == b && b == c {
        a
    } else {
        None
    }
}

/// The text a position is shown as: its mark, or a blank.
pub open spec fn square_symbol(s: Option<Mark>) -> Seq<char> {
    match s {
        Some(m) => mark_symbol(m),
        None => seq![' '],
    }
}

impl Square {
    /// The mark that occupies all three squares, if one does.
    pub fn check_match(a: &Square, b: &Square, c: &Square) -> (r: Option<Mark>)
        ensures
            r == line_owner(a.0, b.0, c.0),
            forall|m: Mark|
                r == Some(m) <==> (a.0 == Some(m) && b.0 == Some(m) && c.0 == Some(m)),
    {
        match a.0 {
            Some(m) if *a == *b && *b == *c => Some(m),
            _ => None,
        }
    }

    /// The square as a one-character string.
    pub fn symbol(&self) -> (r: &'static str)
        ensures
            r@ == square_symbol(self.0),
    {
        match &self.0 {
            Some(m) => m.symbol(),
            None => {
                proof {
                    reveal_strlit(" ");
                }
                " "
            },
        }
    }
}

} // verus!
