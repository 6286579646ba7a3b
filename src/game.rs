use crate::board::{
    empties_below,
    first_winner,
    index_of,
    line_owner,
    line_spec,
    on_grid,
    outcome_of,
    Board,
    Cell,
    Outcome,
    Symbol,
};
use vstd::prelude::*;

verus! {

/// The abstract state of a game: the nine cells and whose turn it is.
pub struct GameView {
    pub cells: Seq<Cell>,
    pub to_move: Symbol,
}

/// Whether `symbol` may now play at `(row, col)`: it is its turn, the game is
/// still open, and the cell is on the grid and empty.
pub open spec fn move_allowed(g: GameView, row: int, col: int, symbol: Symbol) -> bool {
    &&& on_grid(row, col)
    &&& symbol == g.to_move
    &&& outcome_of(g.cells) == Outcome::InProgress
    &&& g.cells[index_of(row, col)] == Cell::Empty
}

/// The state after `symbol` asks to play at `(row, col)`: the cell is taken
/// and the turn passes if the move is allowed; otherwise nothing changes.
pub open spec fn after_move(g: GameView, row: int, col: int, symbol: Symbol) -> GameView {
    if move_allowed(g, row, col, symbol) {
        GameView {
            cells: g.cells.update(index_of(row, col), Cell::Occupied(symbol)),
            to_move: symbol.other_spec(),
        }
    } else {
        g
    }
}

/// The state after a sequence of move requests `(row, col, symbol)`.
pub open spec fn replay(g: GameView, moves: Seq<(int, int, Symbol)>) -> GameView
    decreases moves.len(),
{
    if moves.len() == 0 {
        g
    } else {
        let m = moves.last();
        after_move(replay(g, moves.drop_last()), m.0, m.1, m.2)
    }
}

/// How many requests of the sequence were accepted.
pub open spec fn accepted(g: GameView, moves: Seq<(int, int, Symbol)>) -> nat
    decreases moves.len(),
{
    if moves.len() == 0 {
        0
    } else {
        let m = moves.last();
        let before = replay(g, moves.drop_last());
        accepted(g, moves.drop_last()) + if move_allowed(before, m.0, m.1, m.2) {
            1nat
        } else {
            0nat
        }
    }
}

/// The state at the start of a game: an empty grid, `first` to move.
pub open spec fn fresh(first: Symbol) -> GameView {
    GameView { cells: Seq::new(9, |i: int| Cell::Empty), to_move: first }
}

/// No two completed lines belong to different symbols.
pub open spec fn single_winner(cells: Seq<Cell>) -> bool {
    forall|i: int, j: int|
        0 <= i < 8 && 0 <= j < 8 && (#[trigger] line_owner(cells, i)).is_some() && (#[trigger] line_owner(cells, j)).is_some()
            ==> line_owner(cells, i) == line_owner(cells, j)
}

/// Relies on rand::random::<bool> with the thread-local generator: a fair
/// coin. Nothing is promised of the value drawn.
#[verifier::external_body]
fn coin_flip() -> (r: bool) {
    rand::random::<bool>()
}

/// The board together with whose turn it is; the only way to change it is
/// `attempt_move`.
#[derive(Clone, Copy, Debug)]
pub struct TurnState {
    board: Board,
    to_move: Symbol,
}

impl View for TurnState {
    type V = GameView;

    closed spec fn view(&self) -> GameView {
        GameView { cells: self.board@, to_move: self.to_move }
    }
}

impl TurnState {
    /// A game on an empty board with `first` to move.
    pub fn new(first: Symbol) -> (r: TurnState)
        ensures
            r@ == fresh(first),
    {
        let r = TurnState { board: Board::new(), to_move: first };
        assert(r@.cells =~= fresh(first).cells);
        r
    }

    /// A game on an empty board, the first player drawn at random.
    pub fn new_random() -> (r: TurnState)
        ensures
            r@ == fresh(r@.to_move),
    {
        let first = if coin_flip() {
            Symbol::X
        } else {
            Symbol::O
        };
        TurnState::new(first)
    }

    /// The grid has nine cells.
    pub proof fn lemma_cells_len(&self)
        ensures
            self@.cells.len() == 9,
    {
        self.board.lemma_len();
    }

    /// The board as it stands.
    pub fn board(&self) -> (r: &Board)
        ensures
            r@ == self@.cells,
    {
        &self.board
    }

    /// The symbol whose turn it is.
    pub fn to_move(&self) -> (r: Symbol)
        ensures
            r == self@.to_move,
    {
        self.to_move
    }

    /// The outcome of the board as it stands.
    pub fn outcome(&self) -> (r: Outcome)
        ensures
            r == outcome_of(self@.cells),
    {
        self.board.evaluate()
    }

    /// Plays `symbol` at `(row, col)` if it is that symbol's turn, the game is
    /// still open and the cell is empty, then passes the turn and returns
    /// true; otherwise returns false and changes nothing.
    pub fn attempt_move(&mut self, row: usize, col: usize, symbol: Symbol) -> (r: bool)
        requires
            on_grid(row as int, col as int),
        ensures
            r == move_allowed(old(self)@, row as int, col as int, symbol),
            final(self)@ == after_move(old(self)@, row as int, col as int, symbol),
            r ==> final(self)@.to_move == old(self)@.to_move.other_spec(),
            !r ==> final(self)@ == old(self)@,
    {
        if symbol != self.to_move {
            return false;
        }
        if self.board.evaluate() != Outcome::InProgress {
            return false;
        }
        match self.board.place(row, col, symbol) {
            Ok(()) => {
                self.to_move = symbol.other();
                true
            },
            Err(_) => false,
        }
    }
}

/// Every accepted request passes the turn and every refused one leaves it:
/// after a sequence of requests the turn has changed hands once per accepted
/// request.
pub proof fn lemma_turn_alternates(g: GameView, moves: Seq<(int, int, Symbol)>)
    ensures
        replay(g, moves).to_move == if accepted(g, moves) % 2 == 0 {
            g.to_move
        } else {
            g.to_move.other_spec()
        },
    decreases moves.len(),
{
    if moves.len() > 0 {
        lemma_turn_alternates(g, moves.drop_last());
    }
}

/// With no winner found from line `k` on, none of those lines is complete.
proof fn lemma_no_winner_from(cells: Seq<Cell>, k: int)
    requires
        0 <= k <= 8,
        first_winner(cells, k).is_none(),
    ensures
        forall|j: int| k <= j < 8 ==> line_owner(cells, j).is_none(),
    decreases 8 - k,
{
    if k < 8 {
        lemma_no_winner_from(cells, k + 1);
    }
}

/// An accepted move keeps the grid at nine cells and never produces lines of
/// two different symbols.
proof fn lemma_move_keeps_single_winner(g: GameView, row: int, col: int, symbol: Symbol)
    requires
        g.cells.len() == 9,
        single_winner(g.cells),
    ensures
        after_move(g, row, col, symbol).cells.len() == 9,
        single_winner(after_move(g, row, col, symbol).cells),
{
    if move_allowed(g, row, col, symbol) {
        lemma_no_winner_from(g.cells, 0);
        let cells = after_move(g, row, col, symbol).cells;
        assert forall|i: int| 0 <= i < 8 && (#[trigger] line_owner(cells, i)).is_some() implies
            line_owner(cells, i) == Some(symbol) by {
            assert(line_owner(g.cells, i).is_none());
        }
    }
}

/// In any game played from an empty board, however the requests come, no two
/// completed lines belong to different symbols, so the outcome never names
/// two winners.
pub proof fn lemma_single_winner(first: Symbol, moves: Seq<(int, int, Symbol)>)
    ensures
        replay(fresh(first), moves).cells.len() == 9,
        single_winner(replay(fresh(first), moves).cells),
        forall|k: int|
            0 <= k < 8 && (#[trigger] line_owner(replay(fresh(first), moves).cells, k)).is_some()
                ==> outcome_of(replay(fresh(first), moves).cells) == Outcome::Win(
                line_owner(replay(fresh(first), moves).cells, k).unwrap(),
            ),
    decreases moves.len(),
{
    if moves.len() == 0 {
        let cells = fresh(first).cells;
        assert forall|k: int| 0 <= k < 8 implies (#[trigger] line_owner(cells, k)).is_none() by {
            assert(cells[line_spec(k).0] == Cell::Empty);
        }
    } else {
        lemma_single_winner(first, moves.drop_last());
        let m = moves.last();
        lemma_move_keeps_single_winner(replay(fresh(first), moves.drop_last()), m.0, m.1, m.2);
    }
    let cells = replay(fresh(first), moves).cells;
    assert forall|k: int| 0 <= k < 8 && (#[trigger] line_owner(cells, k)).is_some() implies outcome_of(
        cells,
    ) == Outcome::Win(line_owner(cells, k).unwrap()) by {
        lemma_winner_is_an_owner(cells, 0);
    }
}

/// The winner found from line `k` on owns one of those lines, and there is one
/// as soon as one of those lines is complete.
proof fn lemma_winner_is_an_owner(cells: Seq<Cell>, k: int)
    requires
        0 <= k <= 8,
    ensures
        first_winner(cells, k).is_some() ==> exists|j: int|
            k <= j < 8 && #[trigger] line_owner(cells, j) == first_winner(cells, k),
        (exists|j: int| k <= j < 8 && (#[trigger] line_owner(cells, j)).is_some())
            ==> first_winner(cells, k).is_some(),
    decreases 8 - k,
{
    if k < 8 {
        lemma_winner_is_an_owner(cells, k + 1);
        if line_owner(cells, k).is_some() {
            assert(line_owner(cells, k) == first_winner(cells, k));
        }
    }
}

} // verus!
