use ultimate_ttt::board::{BoardState, Index, IndexError, InnerBoard, InnerError, MoveError, OuterBoard};
use ultimate_ttt::square::Mark;

fn ix(n: usize) -> Index {
    Index::new(&n).unwrap()
}

fn play(board: &mut OuterBoard, mark: Mark, outer: usize, inner: usize) -> Result<(), MoveError> {
    board.do_move(&mark, &ix(outer), &ix(inner))
}

fn snapshot(board: &OuterBoard) -> (String, BoardState, Option<Index>) {
    (board.render(), board.get_state(), board.required_index())
}

#[test]
fn index_accepts_zero_to_eight() {
    for n in 0..9 {
        assert_eq!(Index::new(&n).map(|i| i.get()), Ok(n));
    }
}

#[test]
fn index_rejects_nine_and_more() {
    assert_eq!(Index::new(&9), Err(IndexError::OutOfRange(9)));
    assert_eq!(Index::new(&100), Err(IndexError::OutOfRange(100)));
}

#[test]
fn new_boards_are_in_progress() {
    assert_eq!(InnerBoard::new().get_state(), BoardState::InProgress);
    let b = OuterBoard::new();
    assert_eq!(b.get_state(), BoardState::InProgress);
    assert_eq!(b.required_index(), None);
}

#[test]
fn reading_the_state_twice_agrees() {
    let mut b = OuterBoard::new();
    assert_eq!(b.get_state(), b.get_state());
    play(&mut b, Mark::X, 0, 4).unwrap();
    assert_eq!(b.get_state(), b.get_state());
}

#[test]
fn inner_board_refuses_occupied_square() {
    let mut b = InnerBoard::new();
    assert_eq!(b.do_move(&Mark::X, &ix(3)), Ok(()));
    assert_eq!(b.do_move(&Mark::O, &ix(3)), Err(InnerError::CellOccupied(ix(3))));
    assert_eq!(b.rows_as_strings(), vec!["[ ][ ][ ]", "[X][ ][ ]", "[ ][ ][ ]"]);
}

#[test]
fn inner_board_won_by_a_row() {
    let mut b = InnerBoard::new();
    b.do_move(&Mark::O, &ix(6)).unwrap();
    b.do_move(&Mark::O, &ix(7)).unwrap();
    assert_eq!(b.get_state(), BoardState::InProgress);
    b.do_move(&Mark::O, &ix(8)).unwrap();
    assert_eq!(b.get_state(), BoardState::Winner(Mark::O));
    assert_eq!(b.do_move(&Mark::X, &ix(0)), Err(InnerError::BoardFinished));
    assert_eq!(b.get_state(), BoardState::Winner(Mark::O));
}

#[test]
fn inner_board_won_by_a_diagonal() {
    let mut b = InnerBoard::new();
    for i in [2, 4, 6] {
        b.do_move(&Mark::X, &ix(i)).unwrap();
    }
    assert_eq!(b.get_state(), BoardState::Winner(Mark::X));
}

#[test]
fn full_inner_board_without_line_is_drawn() {
    let mut b = InnerBoard::new();
    for i in [0, 2, 3, 7, 8] {
        b.do_move(&Mark::X, &ix(i)).unwrap();
    }
    for i in [1, 4, 5] {
        b.do_move(&Mark::O, &ix(i)).unwrap();
        assert_eq!(b.get_state(), BoardState::InProgress);
    }
    b.do_move(&Mark::O, &ix(6)).unwrap();
    assert_eq!(b.get_state(), BoardState::Draw);
    assert_eq!(b.do_move(&Mark::X, &ix(6)), Err(InnerError::CellOccupied(ix(6))));
    assert_eq!(b.get_state(), BoardState::Draw);
    assert_eq!(InnerBoard::check_match(&b, &b, &b), None);
}

#[test]
fn inner_boards_match_only_when_won_by_one_mark() {
    let mut x = InnerBoard::new();
    for i in [0, 1, 2] {
        x.do_move(&Mark::X, &ix(i)).unwrap();
    }
    let mut o = InnerBoard::new();
    for i in [0, 1, 2] {
        o.do_move(&Mark::O, &ix(i)).unwrap();
    }
    let open = InnerBoard::new();
    assert_eq!(InnerBoard::check_match(&x, &x, &x), Some(Mark::X));
    assert_eq!(InnerBoard::check_match(&o, &o, &o), Some(Mark::O));
    assert_eq!(InnerBoard::check_match(&x, &x, &o), None);
    assert_eq!(InnerBoard::check_match(&x, &open, &x), None);
    assert_eq!(InnerBoard::check_match(&open, &open, &open), None);
}

#[test]
fn move_sends_opponent_to_board() {
    let mut b = OuterBoard::new();
    assert_eq!(play(&mut b, Mark::X, 0, 4), Ok(()));
    assert_eq!(b.required_index(), Some(ix(4)));
    assert_eq!(play(&mut b, Mark::O, 1, 0), Err(MoveError::WrongBoard(ix(4))));
    assert_eq!(play(&mut b, Mark::O, 4, 0), Ok(()));
    assert_eq!(b.required_index(), Some(ix(0)));
}

#[test]
fn refused_moves_change_nothing() {
    let mut b = OuterBoard::new();
    play(&mut b, Mark::X, 0, 4).unwrap();
    play(&mut b, Mark::O, 4, 0).unwrap();
    let before = snapshot(&b);
    assert_eq!(play(&mut b, Mark::X, 4, 4), Err(MoveError::WrongBoard(ix(0))));
    assert_eq!(snapshot(&b), before);
    assert_eq!(
        play(&mut b, Mark::X, 0, 4),
        Err(MoveError::BoardError(ix(0), InnerError::CellOccupied(ix(4))))
    );
    assert_eq!(snapshot(&b), before);
}

#[test]
fn won_board_frees_the_next_move() {
    let mut b = OuterBoard::new();
    for (mark, outer, inner) in [
        (Mark::X, 0, 1),
        (Mark::O, 1, 0),
        (Mark::X, 0, 2),
        (Mark::O, 2, 0),
    ] {
        play(&mut b, mark, outer, inner).unwrap();
        assert_eq!(b.required_index(), Some(ix(inner)));
    }
    play(&mut b, Mark::X, 0, 0).unwrap();
    assert_eq!(b.required_index(), None);
    assert_eq!(b.get_state(), BoardState::InProgress);
    assert_eq!(
        play(&mut b, Mark::O, 0, 5),
        Err(MoveError::BoardError(ix(0), InnerError::BoardFinished))
    );
    assert_eq!(b.required_index(), None);
    assert_eq!(play(&mut b, Mark::O, 8, 8), Ok(()));
    assert_eq!(b.required_index(), Some(ix(8)));
}

#[test]
fn game_won_exactly_at_the_completing_move() {
    let moves = [
        (Mark::X, 0, 1),
        (Mark::O, 1, 0),
        (Mark::X, 0, 2),
        (Mark::O, 2, 0),
        (Mark::X, 0, 0),
        (Mark::O, 4, 1),
        (Mark::X, 1, 1),
        (Mark::O, 1, 2),
        (Mark::X, 2, 2),
        (Mark::O, 2, 1),
        (Mark::X, 1, 7),
        (Mark::O, 7, 2),
        (Mark::X, 2, 4),
        (Mark::O, 4, 2),
        (Mark::X, 2, 6),
        (Mark::O, 6, 1),
    ];
    let mut b = OuterBoard::new();
    for (mark, outer, inner) in moves {
        assert_eq!(play(&mut b, mark, outer, inner), Ok(()));
        assert_eq!(b.get_state(), BoardState::InProgress);
    }
    assert_eq!(play(&mut b, Mark::X, 1, 4), Ok(()));
    assert_eq!(b.get_state(), BoardState::Winner(Mark::X));
    assert_eq!(b.required_index(), Some(ix(4)));
    assert_eq!(play(&mut b, Mark::O, 4, 4), Err(MoveError::GameOver));
    assert_eq!(play(&mut b, Mark::O, 3, 3), Err(MoveError::WrongBoard(ix(4))));
    assert_eq!(b.get_state(), BoardState::Winner(Mark::X));
}

#[test]
fn empty_board_renders_as_nine_blank_grids() {
    let line = "[ ][ ][ ] | [ ][ ][ ] | [ ][ ][ ]\n";
    let divider = "---------------------------------\n";
    let band = format!("{}{}{}{}", line, line, line, divider);
    let expected = format!("{}{}{}", band, band, band);
    assert_eq!(OuterBoard::new().render(), expected);
}

#[test]
fn render_places_marks_by_board_and_square() {
    let mut b = OuterBoard::new();
    play(&mut b, Mark::X, 5, 7).unwrap();
    play(&mut b, Mark::O, 7, 0).unwrap();
    let text = b.render();
    let lines: Vec<&str> = text.lines().collect();
    assert_eq!(lines.len(), 12);
    assert_eq!(lines[3], "---------------------------------");
    assert_eq!(lines[5], "[ ][ ][ ] | [ ][ ][ ] | [ ][ ][ ]");
    assert_eq!(lines[6], "[ ][ ][ ] | [ ][ ][ ] | [ ][X][ ]");
    assert_eq!(lines[8], "[ ][ ][ ] | [O][ ][ ] | [ ][ ][ ]");
    assert_eq!(lines[11], "---------------------------------");
}
