use turn_game::actor::{Action, Actor, Phase};
use turn_game::board::{Board, BoardError, Cell, Outcome, Symbol};
use turn_game::game::TurnState;

fn play(g: &mut TurnState, moves: &[(usize, usize, Symbol)]) -> Vec<Outcome> {
    let mut seen = Vec::new();
    for &(r, c, s) in moves {
        assert!(g.attempt_move(r, c, s), "move {:?} at ({}, {}) refused", s, r, c);
        seen.push(g.outcome());
    }
    seen
}

#[test]
fn diagonal_win_on_third_move() {
    let mut g = TurnState::new(Symbol::X);
    let seen = play(
        &mut g,
        &[
            (0, 0, Symbol::X),
            (0, 2, Symbol::O),
            (1, 1, Symbol::X),
            (0, 1, Symbol::O),
            (2, 2, Symbol::X),
        ],
    );
    assert_eq!(&seen[..4], &[Outcome::InProgress; 4]);
    assert_eq!(seen[4], Outcome::Win(Symbol::X));
    // No move is accepted once the game is won.
    assert!(!g.attempt_move(2, 0, Symbol::O));
    assert_eq!(g.board().get(2, 0), Cell::Empty);
}

#[test]
fn scenario_sequence_stays_open() {
    let mut g = TurnState::new(Symbol::X);
    let seen = play(
        &mut g,
        &[
            (0, 0, Symbol::X),
            (2, 2, Symbol::O),
            (1, 1, Symbol::X),
            (0, 2, Symbol::O),
            (0, 1, Symbol::X),
        ],
    );
    assert!(seen.iter().all(|o| *o == Outcome::InProgress));
    // It is O's turn now: X may not play again.
    assert!(!g.attempt_move(2, 0, Symbol::X));
    assert!(g.attempt_move(2, 0, Symbol::O));
    assert_eq!(g.outcome(), Outcome::InProgress);
}

#[test]
fn full_board_without_line_is_draw() {
    let mut g = TurnState::new(Symbol::X);
    let seen = play(
        &mut g,
        &[
            (0, 0, Symbol::X),
            (0, 1, Symbol::O),
            (0, 2, Symbol::X),
            (1, 1, Symbol::O),
            (1, 0, Symbol::X),
            (1, 2, Symbol::O),
            (2, 1, Symbol::X),
            (2, 0, Symbol::O),
            (2, 2, Symbol::X),
        ],
    );
    assert!(seen[..8].iter().all(|o| *o == Outcome::InProgress));
    assert_eq!(seen[8], Outcome::Draw);
    assert!(g.board().is_full());
    assert_eq!(g.board().winner(), None);
}

#[test]
fn wrong_turn_is_refused() {
    let mut g = TurnState::new(Symbol::X);
    let before = *g.board();
    assert!(!g.attempt_move(1, 1, Symbol::O));
    assert_eq!(g.to_move(), Symbol::X);
    for r in 0..3 {
        for c in 0..3 {
            assert_eq!(g.board().get(r, c), before.get(r, c));
        }
    }
}

#[test]
fn turn_flips_only_on_accepted_moves() {
    let mut g = TurnState::new(Symbol::O);
    assert!(g.attempt_move(0, 0, Symbol::O));
    assert_eq!(g.to_move(), Symbol::X);
    assert!(!g.attempt_move(0, 0, Symbol::X));
    assert_eq!(g.to_move(), Symbol::X);
    assert!(!g.attempt_move(1, 1, Symbol::O));
    assert_eq!(g.to_move(), Symbol::X);
    assert!(g.attempt_move(1, 1, Symbol::X));
    assert_eq!(g.to_move(), Symbol::O);
    assert_eq!(g.board().get(0, 0), Cell::Occupied(Symbol::O));
    assert_eq!(g.board().get(1, 1), Cell::Occupied(Symbol::X));
}

#[test]
fn place_on_occupied_cell_fails() {
    let mut b = Board::new();
    assert!(b.is_empty(2, 1));
    assert_eq!(b.place(2, 1, Symbol::X), Ok(()));
    assert!(!b.is_empty(2, 1));
    assert_eq!(b.place(2, 1, Symbol::O), Err(BoardError::CellOccupied));
    assert_eq!(b.get(2, 1), Cell::Occupied(Symbol::X));
    assert_eq!(b.empty_positions(), vec![0, 1, 2, 3, 4, 5, 6, 8]);
}

#[test]
fn evaluate_is_repeatable() {
    let mut b = Board::new();
    assert_eq!(b.evaluate(), Outcome::InProgress);
    assert_eq!(b.evaluate(), Outcome::InProgress);
    for c in 0..3 {
        b.place(1, c, Symbol::O).unwrap();
    }
    assert_eq!(b.evaluate(), Outcome::Win(Symbol::O));
    assert_eq!(b.evaluate(), Outcome::Win(Symbol::O));
}

#[test]
fn each_line_is_found() {
    let lines = [
        [(0, 0), (0, 1), (0, 2)],
        [(1, 0), (1, 1), (1, 2)],
        [(2, 0), (2, 1), (2, 2)],
        [(0, 0), (1, 0), (2, 0)],
        [(0, 1), (1, 1), (2, 1)],
        [(0, 2), (1, 2), (2, 2)],
        [(0, 0), (1, 1), (2, 2)],
        [(0, 2), (1, 1), (2, 0)],
    ];
    for line in lines.iter() {
        let mut b = Board::new();
        for &(r, c) in &line[..2] {
            b.place(r, c, Symbol::O).unwrap();
        }
        assert_eq!(b.evaluate(), Outcome::InProgress);
        b.place(line[2].0, line[2].1, Symbol::O).unwrap();
        assert_eq!(b.evaluate(), Outcome::Win(Symbol::O));
    }
}

#[test]
fn scan_order_reports_first_line() {
    // An arrangement no legal game reaches: a row of X below a row of O.
    let mut b = Board::new();
    for c in 0..3 {
        b.place(2, c, Symbol::X).unwrap();
        b.place(0, c, Symbol::O).unwrap();
    }
    assert_eq!(b.winner(), Some(Symbol::O));
}

#[test]
fn completed_lines_share_one_symbol() {
    // X completes a row and a column with one move.
    let mut g = TurnState::new(Symbol::X);
    play(
        &mut g,
        &[
            (0, 1, Symbol::X),
            (1, 1, Symbol::O),
            (0, 2, Symbol::X),
            (2, 2, Symbol::O),
            (1, 0, Symbol::X),
            (2, 1, Symbol::O),
            (2, 0, Symbol::X),
            (1, 2, Symbol::O),
        ],
    );
    assert_eq!(g.outcome(), Outcome::InProgress);
    assert!(g.attempt_move(0, 0, Symbol::X));
    assert_eq!(g.outcome(), Outcome::Win(Symbol::X));
}

#[test]
fn actor_waits_moves_and_stops() {
    let mut g = TurnState::new(Symbol::X);
    let mut o = Actor::new(Symbol::O);
    let mut x = Actor::new(Symbol::X);
    assert_eq!(o.symbol(), Symbol::O);
    assert_eq!(o.phase(), Phase::Waiting);
    assert_eq!(o.step_with(&mut g, 4), Action::Waited);
    assert_eq!(g.to_move(), Symbol::X);
    // Pick 5 among the nine empty cells is the cell (1, 2).
    assert_eq!(x.step_with(&mut g, 5), Action::Moved(1, 2));
    assert_eq!(x.phase(), Phase::Waiting);
    assert_eq!(g.board().get(1, 2), Cell::Occupied(Symbol::X));
    // Eight cells left: pick 10 is the third of them, (0, 2).
    assert_eq!(o.step_with(&mut g, 10), Action::Moved(0, 2));
    assert_eq!(g.board().get(0, 2), Cell::Occupied(Symbol::O));
    assert_eq!(g.to_move(), Symbol::X);
}

#[test]
fn actor_reports_finished_game() {
    let mut g = TurnState::new(Symbol::X);
    play(
        &mut g,
        &[
            (0, 0, Symbol::X),
            (1, 0, Symbol::O),
            (0, 1, Symbol::X),
            (1, 1, Symbol::O),
            (0, 2, Symbol::X),
        ],
    );
    let mut o = Actor::new(Symbol::O);
    let mut x = Actor::new(Symbol::X);
    assert_eq!(o.step_with(&mut g, 0), Action::Done(Outcome::Win(Symbol::X)));
    assert_eq!(x.step(&mut g), Action::Done(Outcome::Win(Symbol::X)));
    assert_eq!(o.phase(), Phase::Done);
    assert_eq!(x.phase(), Phase::Done);
}

#[test]
fn random_step_takes_an_empty_cell() {
    for _ in 0..50 {
        let mut g = TurnState::new(Symbol::O);
        let mut o = Actor::new(Symbol::O);
        match o.step(&mut g) {
            Action::Moved(r, c) => {
                assert!(r < 3 && c < 3);
                assert_eq!(g.board().get(r, c), Cell::Occupied(Symbol::O));
                assert_eq!(g.board().empty_positions().len(), 8);
            }
            other => panic!("expected a move, got {:?}", other),
        }
    }
}

#[test]
fn interleaved_actors_finish_within_bound() {
    for round in 0..30 {
        let mut g = TurnState::new_random();
        assert_eq!(g.board().empty_positions().len(), 9);
        let mut x = Actor::new(Symbol::X);
        let mut o = Actor::new(Symbol::O);
        let mut iterations = 0;
        while x.phase() != Phase::Done || o.phase() != Phase::Done {
            // Alternate unevenly: sometimes one actor runs twice.
            if (iterations + round) % 3 != 2 && x.phase() != Phase::Done {
                x.step(&mut g);
            } else if o.phase() != Phase::Done {
                o.step(&mut g);
            } else {
                x.step(&mut g);
            }
            iterations += 1;
            assert!(iterations <= 40, "no end after {} iterations", iterations);
        }
        assert_ne!(g.outcome(), Outcome::InProgress);
    }
}

#[test]
fn other_symbol() {
    assert_eq!(Symbol::X.other(), Symbol::O);
    assert_eq!(Symbol::O.other(), Symbol::X);
}
