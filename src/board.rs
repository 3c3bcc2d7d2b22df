//! The two board levels: a tic-tac-toe board of squares, and the game board
//! of nine such boards with the rule on where the next move goes.
use vstd::prelude::*;

use crate::lines::{lemma_blank_grid_has_no_winner, first_winner, first_winner_from, line, owner_of_line, GRID, N_LINES};
use crate::square::{line_owner, square_symbol, Mark, Square};

verus! {

/// Where a board stands: won by a mark, drawn, or still open.
#[derive(Clone, Copy, Debug, PartialEq, Eq, Structural)]
pub enum BoardState {
    Winner(Mark),
    Draw,
    InProgress,
}

/// The mark that owns a decided board, if it was won.
pub open spec fn state_owner(s: BoardState) -> Option<Mark> {
    match s {
        BoardState::Winner(m) => Some(m),
        _ => None,
    }
}

/// The state of a grid from the owner of each of its positions and from
/// whether every position is taken: the first complete line wins; with no
/// line and no free position the grid is drawn.
pub open spec fn grid_state(owners: Seq<Option<Mark>>, full: bool) -> BoardState {
    match first_winner(owners) {
        Some(m) => BoardState::Winner(m),
        None => if full {
            BoardState::Draw
        } else {
            BoardState::InProgress
        },
    }
}

/// A position on a three-by-three grid, in `0..9`, row by row.
#[derive(Clone, Copy, Debug, PartialEq, Eq, Structural)]
pub struct Index(usize);

/// Why a raw number is no position.
#[derive(Clone, Copy, Debug, PartialEq, Eq, Structural)]
pub enum IndexError {
    /// The number is 9 or more.
    OutOfRange(usize),
}

impl View for Index {
    type V = nat;

    closed spec fn view(&self) -> nat {
        self.0 as nat
    }
}

impl Index {
    #[verifier::type_invariant]
    spec fn in_range(self) -> bool {
        self.0 < GRID
    }

    /// Two positions are the same exactly when their numbers are.
    pub proof fn lemma_view_injective(a: Index, b: Index)
        ensures
            a@ == b@ <==> a == b,
    {
    }

    /// The position numbered `i`, or `OutOfRange` when `i` is 9 or more.
    pub fn new(i: &usize) -> (r: Result<Index, IndexError>)
        ensures
            match r {
                Ok(ix) => *i < GRID && ix@ == *i,
                Err(e) => *i >= GRID && e == IndexError::OutOfRange(*i),
            },
    {
        if *i < GRID {
            Ok(Index(*i))
        } else {
            Err(IndexError::OutOfRange(*i))
        }
    }

    /// The number of the position.
    pub fn get(&self) -> (r: usize)
        ensures
            r == self@,
            r < GRID,
    {
        proof {
            use_type_invariant(self);
        }
        self.0
    }
}

/// Why a move on a single board is refused.
#[derive(Clone, Copy, Debug, PartialEq, Eq, Structural)]
pub enum InnerError {
    /// The square already holds a mark.
    CellOccupied(Index),
    /// The board is already won or drawn.
    BoardFinished,
}

/// The contents of a single board: the mark at each square, and its state.
pub struct InnerView {
    pub cells: Seq<Option<Mark>>,
    pub state: BoardState,
}

/// Every square holds a mark.
pub open spec fn cells_full(cells: Seq<Option<Mark>>) -> bool {
    forall|i: int| 0 <= i < cells.len() ==> #[trigger] cells[i] is Some
}

/// The state a single board is in, computed from its squares alone.
pub open spec fn cells_state(cells: Seq<Option<Mark>>) -> BoardState {
    grid_state(cells, cells_full(cells))
}

impl InnerView {
    /// Nine squares, and a state that is exactly what the squares give.
    pub open spec fn wf(self) -> bool {
        &&& self.cells.len() == GRID
        &&& self.state == cells_state(self.cells)
    }
}

/// The outcome of playing `mark` at square `i` of a single board: refused
/// when the square is taken or the board is decided; otherwise the square
/// gets the mark and the state is computed again.
pub open spec fn inner_move(v: InnerView, mark: Mark, i: Index) -> Result<InnerView, InnerError> {
    if v.cells[i@ as int] is Some {
        Err(InnerError::CellOccupied(i))
    } else if v.state != BoardState::InProgress {
        Err(InnerError::BoardFinished)
    } else {
        let cells = v.cells.update(i@ as int, Some(mark));
        Ok(InnerView { cells, state: cells_state(cells) })
    }
}


/// A square as shown on screen: its symbol in brackets.
pub open spec fn bracketed(s: Option<Mark>) -> Seq<char> {
    seq!['['] + square_symbol(s) + seq![']']
}

/// Row `r` of a single board as text: its three squares, left to right.
pub open spec fn row_text(cells: Seq<Option<Mark>>, r: int) -> Seq<char> {
    bracketed(cells[3 * r]) + bracketed(cells[3 * r + 1]) + bracketed(cells[3 * r + 2])
}

/// What stands between two boards on one line of text.
pub open spec fn separator() -> Seq<char> {
    seq![' ', '|', ' ']
}

/// The line of text that follows each band of three boards.
pub open spec fn divider() -> Seq<char> {
    Seq::new(33, |i: int| '-') + seq!['\n']
}

/// Line `r` of band `band`: row `r` of each of the band's three boards.
pub open spec fn band_line(boards: Seq<InnerView>, band: int, r: int) -> Seq<char> {
    row_text(boards[3 * band].cells, r) + separator() + row_text(boards[3 * band + 1].cells, r)
        + separator() + row_text(boards[3 * band + 2].cells, r) + seq!['\n']
}

/// The first `n` lines of band `band`.
pub open spec fn band_lines(boards: Seq<InnerView>, band: int, n: int) -> Seq<char>
    decreases n,
{
    if n <= 0 {
        Seq::empty()
    } else {
        band_lines(boards, band, n - 1) + band_line(boards, band, n - 1)
    }
}

/// The first `n` bands of the game board, each of three lines and a divider.
pub open spec fn bands_text(boards: Seq<InnerView>, n: int) -> Seq<char>
    decreases n,
{
    if n <= 0 {
        Seq::empty()
    } else {
        bands_text(boards, n - 1) + band_lines(boards, n - 1, 3) + divider()
    }
}

/// Appends one square, in brackets.
fn push_square(s: &mut String, sq: &Square)
    ensures
        final(s)@ == old(s)@ + bracketed(sq.0),
{
    proof {
        reveal_strlit("[");
        reveal_strlit("]");
    }
    s.append("[");
    s.append(sq.symbol());
    s.append("]");
    assert(final(s)@ =~= old(s)@ + bracketed(sq.0));
}

/// Appends one line of text made of three board rows.
fn push_line(s: &mut String, a: &String, b: &String, c: &String)
    ensures
        final(s)@ == old(s)@ + (a@ + separator() + b@ + separator() + c@ + seq!['\n']),
{
    proof {
        reveal_strlit(" | ");
        reveal_strlit("\n");
    }
    s.append(a.as_str());
    s.append(" | ");
    s.append(b.as_str());
    s.append(" | ");
    s.append(c.as_str());
    s.append("\n");
    assert(final(s)@ =~= old(s)@ + (a@ + separator() + b@ + separator() + c@ + seq!['\n']));
}

/// A single tic-tac-toe board.
#[derive(Clone, Copy)]
pub struct InnerBoard {
    squares: [Square; GRID],
    state: BoardState,
}

impl View for InnerBoard {
    type V = InnerView;

    closed spec fn view(&self) -> InnerView {
        InnerView { cells: self.squares@.map_values(|s: Square| s.0), state: self.state }
    }
}

impl InnerBoard {
    /// The contents of an empty board.
    pub open spec fn new_spec() -> InnerView {
        InnerView { cells: Seq::new(GRID as nat, |i: int| None::<Mark>), state: BoardState::InProgress }
    }

    /// An empty board.
    pub fn new() -> (r: InnerBoard)
        ensures
            r@.wf(),
            r@ == InnerBoard::new_spec(),
    {
        let r = InnerBoard { squares: [Square(None);GRID], state: BoardState::InProgress };
        assert(r@.cells =~= Seq::new(GRID as nat, |i: int| None::<Mark>));
        proof {
            lemma_blank_grid_has_no_winner(r@.cells, 0);
        }
        assert(!cells_full(r@.cells) ) by {
            assert(r@.cells[0] is None);
        }
        r
    }

    /// The board's state.
    pub fn get_state(&self) -> (r: BoardState)
        ensures
            r == self@.state,
    {
        self.state
    }

    /// Plays `mark` at square `index`; a refused move changes nothing.
    pub fn do_move(&mut self, mark: &Mark, index: &Index) -> (r: Result<(), InnerError>)
        requires
            old(self)@.wf(),
        ensures
            final(self)@.wf(),
            match inner_move(old(self)@, *mark, *index) {
                Ok(v) => r == Ok::<(), InnerError>(()) && final(self)@ == v,
                Err(e) => r == Err::<(), InnerError>(e) && *final(self) == *old(self),
            },
    {
        let i = index.get();
        match self.squares[i].0 {
            Some(_) => Err(InnerError::CellOccupied(*index)),
            None => {
                if self.state != BoardState::InProgress {
                    return Err(InnerError::BoardFinished);
                }
                self.squares[i] = Square(Some(*mark));
                assert(self@.cells =~= old(self)@.cells.update(i as int, Some(*mark)));
                self.update_state();
                Ok(())
            },
        }
    }

    /// The board's three rows as text, top to bottom.
    pub fn rows_as_strings(&self) -> (r: Vec<String>)
        ensures
            r@.len() == 3,
            forall|k: int| 0 <= k < 3 ==> #[trigger] r@[k]@ == row_text(self@.cells, k),
    {
        let mut rows: Vec<String> = Vec::new();
        let mut k: usize = 0;
        while k < 3
            invariant
                k <= 3,
                rows@.len() == k,
                forall|j: int| 0 <= j < k ==> #[trigger] rows@[j]@ == row_text(self@.cells, j),
            decreases 3 - k,
        {
            let mut s = String::new();
            push_square(&mut s, &self.squares[3 * k]);
            push_square(&mut s, &self.squares[3 * k + 1]);
            push_square(&mut s, &self.squares[3 * k + 2]);
            assert(s@ =~= row_text(self@.cells, k as int));
            rows.push(s);
            k = k + 1;
        }
        rows
    }

    /// The mark that has won all three boards, if one has.
    pub fn check_match(a: &InnerBoard, b: &InnerBoard, c: &InnerBoard) -> (r: Option<Mark>)
        ensures
            r == line_owner(state_owner(a@.state), state_owner(b@.state), state_owner(c@.state)),
    {
        match a.get_state() {
            BoardState::Winner(m) if a.get_state() == b.get_state() && b.get_state()
                == c.get_state() => Some(m),
            _ => None,
        }
    }

    /// Computes the state again from the squares, unless it is already decided.
    fn update_state(&mut self)
        requires
            old(self)@.cells.len() == GRID,
        ensures
            final(self).squares == old(self).squares,
            final(self).state == if old(self).state == BoardState::InProgress {
                cells_state(old(self)@.cells)
            } else {
                old(self).state
            },
    {
        if self.state == BoardState::InProgress {
            let ghost cells = self@.cells;
            let mut winner: Option<Mark> = None;
            let mut k: usize = 0;
            while k < N_LINES && winner.is_none()
                invariant
                    k <= N_LINES,
                    self@.cells == cells,
                    cells.len() == GRID,
                    winner is None ==> first_winner(cells) == first_winner_from(cells, k as int),
                    winner is Some ==> winner == first_winner(cells),
                decreases N_LINES - k,
            {
                let (a, b, c): (usize, usize, usize) = line(k);
                winner = Square::check_match(&self.squares[a], &self.squares[b], &self.squares[c]);
                assert(winner == owner_of_line(cells, k as int));
                k = k + 1;
            }
            match winner {
                Some(m) => {
                    self.state = BoardState::Winner(m);
                },
                None => {
                    if self.is_full() {
                        self.state = BoardState::Draw;
                    }
                },
            }
        }
    }

    /// Whether every square holds a mark.
    fn is_full(&self) -> (r: bool)
        requires
            self@.cells.len() == GRID,
        ensures
            r == cells_full(self@.cells),
    {
        let mut s: usize = 0;
        while s < GRID
            invariant
                s <= GRID,
                forall|j: int| 0 <= j < s ==> #[trigger] self@.cells[j] is Some,
            decreases GRID - s,
        {
            if self.squares[s].0.is_none() {
                assert(self@.cells[s as int] is None);
                return false;
            }
            s = s + 1;
        }
        true
    }
}

/// Why a move on the game board is refused.
#[derive(Clone, Copy, Debug, PartialEq, Eq, Structural)]
pub enum MoveError {
    /// The move must be played in the board given.
    WrongBoard(Index),
    /// The game is already won or drawn.
    GameOver,
    /// The board given by the first index refused the move.
    BoardError(Index, InnerError),
}

/// The contents of the game board: its nine boards, its state, and the
/// board the next move must be played in, if any.
pub struct OuterView {
    pub boards: Seq<InnerView>,
    pub state: BoardState,
    pub required: Option<Index>,
}

/// The owner of each board: the mark that won it, if any.
pub open spec fn board_owners(boards: Seq<InnerView>) -> Seq<Option<Mark>> {
    boards.map_values(|b: InnerView| state_owner(b.state))
}

/// Every board is won or drawn.
pub open spec fn boards_decided(boards: Seq<InnerView>) -> bool {
    forall|i: int| 0 <= i < boards.len() ==> #[trigger] boards[i].state != BoardState::InProgress
}

/// The state of the game, computed from the states of its boards alone: a
/// drawn board counts for no mark, but counts as decided.
pub open spec fn boards_state(boards: Seq<InnerView>) -> BoardState {
    grid_state(board_owners(boards), boards_decided(boards))
}

/// The board the next move is sent to: the one whose number is the square
/// just played, while that board is open; otherwise any open board.
pub open spec fn required_after(boards: Seq<InnerView>, inner: Index) -> Option<Index> {
    if boards[inner@ as int].state == BoardState::InProgress {
        Some(inner)
    } else {
        None
    }
}

impl OuterView {
    /// Nine well-formed boards, a state that is exactly what their states
    /// give, and a required board, if any, that is still open.
    pub open spec fn wf(self) -> bool {
        &&& self.boards.len() == GRID
        &&& forall|i: int| 0 <= i < GRID ==> #[trigger] self.boards[i].wf()
        &&& self.state == boards_state(self.boards)
        &&& match self.required {
            Some(r) => r@ < GRID && self.boards[r@ as int].state == BoardState::InProgress,
            None => true,
        }
    }
}

/// The outcome of a move that the board constraint lets through: refused
/// when the game is decided or when the board refuses it; otherwise the
/// board takes the move, the game's state is computed again, and the next
/// board is chosen.
pub open spec fn accepted_move(v: OuterView, mark: Mark, outer: Index, inner: Index) -> Result<
    OuterView,
    MoveError,
> {
    if v.state != BoardState::InProgress {
        Err(MoveError::GameOver)
    } else {
        match inner_move(v.boards[outer@ as int], mark, inner) {
            Err(e) => Err(MoveError::BoardError(outer, e)),
            Ok(b) => {
                let boards = v.boards.update(outer@ as int, b);
                Ok(
                    OuterView {
                        boards,
                        state: boards_state(boards),
                        required: required_after(boards, inner),
                    },
                )
            },
        }
    }
}

/// The outcome of playing `mark` at square `inner` of board `outer`: refused
/// with `WrongBoard` when another board is required, before anything else.
pub open spec fn outer_move(v: OuterView, mark: Mark, outer: Index, inner: Index) -> Result<
    OuterView,
    MoveError,
> {
    match v.required {
        Some(r) => if r != outer {
            Err(MoveError::WrongBoard(r))
        } else {
            accepted_move(v, mark, outer, inner)
        },
        None => accepted_move(v, mark, outer, inner),
    }
}

/// The game board: nine single boards in a three-by-three grid.
pub struct OuterBoard {
    squares: [InnerBoard; GRID],
    state: BoardState,
    required_index: Option<Index>,
}

impl View for OuterBoard {
    type V = OuterView;

    closed spec fn view(&self) -> OuterView {
        OuterView {
            boards: self.squares@.map_values(|b: InnerBoard| b@),
            state: self.state,
            required: self.required_index,
        }
    }
}

impl OuterBoard {
    /// A game with nine empty boards, where the first move may go anywhere.
    pub fn new() -> (r: OuterBoard)
        ensures
            r@.wf(),
            r@.state == BoardState::InProgress,
            r@.required is None,
            forall|i: int| 0 <= i < GRID ==> #[trigger] r@.boards[i] == InnerBoard::new_spec(),
    {
        let b = InnerBoard::new();
        let r = OuterBoard { squares: [b;GRID], state: BoardState::InProgress, required_index: None };
        assert(r@.boards =~= Seq::new(GRID as nat, |i: int| b@));
        proof {
            lemma_blank_grid_has_no_winner(board_owners(r@.boards), 0);
        }
        assert(!boards_decided(r@.boards)) by {
            assert(r@.boards[0].state == BoardState::InProgress);
        }
        r
    }

    /// The game board as text: three bands of three boards, each band
    /// three lines long and followed by a divider.
    pub fn render(&self) -> (r: String)
        ensures
            r@ == bands_text(self@.boards, 3),
    {
        let mut s = String::new();
        let mut band: usize = 0;
        while band < 3
            invariant
                band <= 3,
                s@ == bands_text(self@.boards, band as int),
            decreases 3 - band,
        {
            let first = self.squares[3 * band].rows_as_strings();
            let second = self.squares[3 * band + 1].rows_as_strings();
            let third = self.squares[3 * band + 2].rows_as_strings();
            let ghost start = s@;
            let mut r: usize = 0;
            while r < 3
                invariant
                    r <= 3,
                    band < 3,
                    first@.len() == 3 && second@.len() == 3 && third@.len() == 3,
                    forall|k: int| 0 <= k < 3 ==> #[trigger] first@[k]@ == row_text(self@.boards[3 * band].cells, k),
                    forall|k: int| 0 <= k < 3 ==> #[trigger] second@[k]@ == row_text(self@.boards[3 * band + 1].cells, k),
                    forall|k: int| 0 <= k < 3 ==> #[trigger] third@[k]@ == row_text(self@.boards[3 * band + 2].cells, k),
                    s@ == start + band_lines(self@.boards, band as int, r as int),
                decreases 3 - r,
            {
                push_line(&mut s, &first[r], &second[r], &third[r]);
                assert(s@ =~= start + band_lines(self@.boards, band as int, r + 1));
                r = r + 1;
            }
            proof {
                reveal_strlit("---------------------------------\n");
            }
            s.append("---------------------------------\n");
            assert(s@ =~= bands_text(self@.boards, band + 1));
            band = band + 1;
        }
        s
    }

    /// The game's state.
    pub fn get_state(&self) -> (r: BoardState)
        ensures
            r == self@.state,
    {
        self.state
    }

    /// The board the next move must be played in, or `None` when any open
    /// board will do.
    pub fn required_index(&self) -> (r: Option<Index>)
        ensures
            r == self@.required,
    {
        self.required_index
    }

    /// Plays `mark` at square `inner` of board `outer`; a refused move
    /// changes nothing.
    pub fn do_move(&mut self, mark: &Mark, outer: &Index, inner: &Index) -> (r: Result<(), MoveError>)
        requires
            old(self)@.wf(),
        ensures
            final(self)@.wf(),
            match outer_move(old(self)@, *mark, *outer, *inner) {
                Ok(v) => r == Ok::<(), MoveError>(()) && final(self)@ == v,
                Err(e) => r == Err::<(), MoveError>(e) && *final(self) == *old(self),
            },
    {
        if let Some(i) = self.required_index {
            if i != *outer {
                return Err(MoveError::WrongBoard(i));
            }
        }
        if self.state != BoardState::InProgress {
            return Err(MoveError::GameOver);
        }
        let o = outer.get();
        let mut b = self.squares[o];
        assert(b@.wf());
        match b.do_move(mark, inner) {
            Err(e) => Err(MoveError::BoardError(*outer, e)),
            Ok(()) => {
                self.squares[o] = b;
                assert(self@.boards =~= old(self)@.boards.update(o as int, b@));
                self.update_state();
                let n = inner.get();
                self.required_index = if self.squares[n].get_state() == BoardState::InProgress {
                    Some(*inner)
                } else {
                    None
                };
                Ok(())
            },
        }
    }

    /// Computes the game's state again from the states of its boards,
    /// unless it is already decided.
    fn update_state(&mut self)
        requires
            old(self)@.boards.len() == GRID,
        ensures
            final(self).squares == old(self).squares,
            final(self).required_index == old(self).required_index,
            final(self).state == if old(self).state == BoardState::InProgress {
                boards_state(old(self)@.boards)
            } else {
                old(self).state
            },
    {
        if self.state == BoardState::InProgress {
            let ghost owners = board_owners(self@.boards);
            let mut winner: Option<Mark> = None;
            let mut k: usize = 0;
            while k < N_LINES && winner.is_none()
                invariant
                    k <= N_LINES,
                    board_owners(self@.boards) == owners,
                    self@.boards.len() == GRID,
                    winner is None ==> first_winner(owners) == first_winner_from(owners, k as int),
                    winner is Some ==> winner == first_winner(owners),
                decreases N_LINES - k,
            {
                let (a, b, c): (usize, usize, usize) = line(k);
                winner = InnerBoard::check_match(&self.squares[a], &self.squares[b], &self.squares[c]);
                assert(winner == owner_of_line(owners, k as int));
                k = k + 1;
            }
            match winner {
                Some(m) => {
                    self.state = BoardState::Winner(m);
                },
                None => {
                    if self.is_full() {
                        self.state = BoardState::Draw;
                    }
                },
            }
        }
    }

    /// Whether every board is won or drawn.
    fn is_full(&self) -> (r: bool)
        requires
            self@.boards.len() == GRID,
        ensures
            r == boards_decided(self@.boards),
    {
        let mut s: usize = 0;
        while s < GRID
            invariant
                s <= GRID,
                self@.boards.len() == GRID,
                forall|j: int| 0 <= j < s ==> #[trigger] self@.boards[j].state != BoardState::InProgress,
            decreases GRID - s,
        {
            if self.squares[s].get_state() == BoardState::InProgress {
                assert(self@.boards[s as int].state == BoardState::InProgress);
                return false;
            }
            s = s + 1;
        }
        true
    }
}

/// A decided single board refuses every move.
pub proof fn lemma_finished_board_refuses(v: InnerView, mark: Mark, i: Index)
    requires
        v.state != BoardState::InProgress,
    ensures
        inner_move(v, mark, i) is Err,
{
}

/// A decided game refuses every move, and so does a decided board within
/// an open game; a refused move leaves the game as it was (see
/// `OuterBoard::do_move`).
pub proof fn lemma_finished_game_refuses(v: OuterView, mark: Mark, outer: Index, inner: Index)
    requires
        v.state != BoardState::InProgress || v.boards[outer@ as int].state
            != BoardState::InProgress,
    ensures
        outer_move(v, mark, outer, inner) is Err,
{
}

/// After an accepted move at square `inner` that leaves board `inner` open,
/// the next move is refused with `WrongBoard(inner)` exactly when it is not
/// played in board `inner`.
pub proof fn lemma_next_board_required(
    v: OuterView,
    mark: Mark,
    outer: Index,
    inner: Index,
    next_mark: Mark,
    next_outer: Index,
    next_inner: Index,
)
    requires
        outer_move(v, mark, outer, inner) is Ok,
        (outer_move(v, mark, outer, inner)->Ok_0).boards[inner@ as int].state
            == BoardState::InProgress,
    ensures
        ({
            let after = outer_move(v, mark, outer, inner)->Ok_0;
            let next = outer_move(after, next_mark, next_outer, next_inner);
            &&& next_outer != inner ==> next == Err::<OuterView, MoveError>(
                MoveError::WrongBoard(inner),
            )
            &&& next_outer == inner ==> !(next matches Err(MoveError::WrongBoard(_)))
        }),
{
}

/// After an accepted move at square `inner` that leaves board `inner`
/// decided, no board is required: the next move is never refused with
/// `WrongBoard`, and while the game is open, a move at a free square of any
/// open board is accepted.
pub proof fn lemma_free_choice(
    v: OuterView,
    mark: Mark,
    outer: Index,
    inner: Index,
    next_mark: Mark,
    next_outer: Index,
    next_inner: Index,
)
    requires
        outer_move(v, mark, outer, inner) is Ok,
        (outer_move(v, mark, outer, inner)->Ok_0).boards[inner@ as int].state
            != BoardState::InProgress,
    ensures
        ({
            let after = outer_move(v, mark, outer, inner)->Ok_0;
            let next = outer_move(after, next_mark, next_outer, next_inner);
            &&& !(next matches Err(MoveError::WrongBoard(_)))
            &&& after.state == BoardState::InProgress && after.boards[next_outer@ as int].state
                == BoardState::InProgress && after.boards[next_outer@ as int].cells[next_inner@ as int] is None
                ==> next is Ok
        }),
{
}

} // verus!
