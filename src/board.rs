use vstd::prelude::*;

verus! {

/// The token a player places in a cell.
#[derive(Clone, Copy, Debug, PartialEq, Eq, Structural)]
pub enum Symbol {
    X,
    O,
}

impl Symbol {
    /// The symbol of the other player.
    pub open spec fn other_spec(self) -> Symbol {
        match self {
            Symbol::X => Symbol::O,
            Symbol::O => Symbol::X,
        }
    }

    /// The symbol of the other player.
    pub fn other(self) -> (r: Symbol)
        ensures
            r == self.other_spec(),
    {
        match self {
            Symbol::X => Symbol::O,
            Symbol::O => Symbol::X,
        }
    }
}

/// One grid position: empty, or occupied by a symbol for good.
#[derive(Clone, Copy, Debug, PartialEq, Eq, Structural)]
pub enum Cell {
    Empty,
    Occupied(Symbol),
}

/// Number of cells of the grid.
pub const CELLS: usize = 9;

/// Index of the cell at `(row, col)` in row-major order.
pub open spec fn index_of(row: int, col: int) -> int {
    row * 3 + col
}

/// A position on the grid.
pub open spec fn on_grid(row: int, col: int) -> bool {
    0 <= row < 3 && 0 <= col < 3
}

/// What a board shows: still open, won by a symbol, or drawn.
#[derive(Clone, Copy, Debug, PartialEq, Eq, Structural)]
pub enum Outcome {
    InProgress,
    Win(Symbol),
    Draw,
}

/// Refusal of a placement.
#[derive(Clone, Copy, Debug, PartialEq, Eq, Structural)]
pub enum BoardError {
    /// The cell already holds a symbol.
    CellOccupied,
}

/// The three cell indexes of line `k`: rows first, then columns, then the
/// main diagonal and the anti-diagonal.
pub open spec fn line_spec(k: int) -> (int, int, int) {
    if k == 0 {
        (0, 1, 2)
    } else if k == 1 {
        (3, 4, 5)
    } else if k == 2 {
        (6, 7, 8)
    } else if k == 3 {
        (0, 3, 6)
    } else if k == 4 {
        (1, 4, 7)
    } else if k == 5 {
        (2, 5, 8)
    } else if k == 6 {
        (0, 4, 8)
    } else {
        (2, 4, 6)
    }
}

/// Number of lines: three rows, three columns, two diagonals.
pub const LINES: usize = 8;

/// The symbol that holds all three cells of line `k`, if one does.
pub open spec fn line_owner(cells: Seq<Cell>, k: int) -> Option<Symbol> {
    let (a, b, c) = line_spec(k);
    match cells[a] {
        Cell::Occupied(s) => if cells[b] == cells[a] && cells[c] == cells[a] {
            Some(s)
        } else {
            None
        },
        Cell::Empty => None,
    }
}

/// The owner of the first completed line among lines `k`, `k + 1`, ..., 7.
pub open spec fn first_winner(cells: Seq<Cell>, k: int) -> Option<Symbol>
    decreases 8 - k,
{
    if k >= 8 || k < 0 {
        None
    } else {
        match line_owner(cells, k) {
            Some(s) => Some(s),
            None => first_winner(cells, k + 1),
        }
    }
}

/// Every one of the nine cells is occupied.
pub open spec fn is_full(cells: Seq<Cell>) -> bool {
    forall|i: int| 0 <= i < 9 ==> cells[i] != Cell::Empty
}

/// The outcome of a grid: the first completed line in scan order wins; with
/// none, a full grid is a draw and any other grid is still in progress.
pub open spec fn outcome_of(cells: Seq<Cell>) -> Outcome {
    match first_winner(cells, 0) {
        Some(s) => Outcome::Win(s),
        None => if is_full(cells) {
            Outcome::Draw
        } else {
            Outcome::InProgress
        },
    }
}

/// The indexes below `n` of the empty cells, in increasing order.
pub open spec fn empties_below(cells: Seq<Cell>, n: int) -> Seq<int>
    decreases n,
{
    if n <= 0 {
        Seq::empty()
    } else if cells[n - 1] == Cell::Empty {
        empties_below(cells, n - 1).push(n - 1)
    } else {
        empties_below(cells, n - 1)
    }
}

/// The indexes of the empty cells, in increasing order.
pub open spec fn empty_cells(cells: Seq<Cell>) -> Seq<int> {
    empties_below(cells, 9)
}

/// The listed indexes below `n` are exactly the empty cells below `n`, each
/// once, in increasing order.
pub proof fn lemma_empties_below(cells: Seq<Cell>, n: int)
    requires
        0 <= n <= cells.len(),
    ensures
        empties_below(cells, n).len() <= n,
        forall|j: int|
            0 <= j < empties_below(cells, n).len() ==> 0 <= #[trigger] empties_below(cells, n)[j] < n
                && cells[empties_below(cells, n)[j]] == Cell::Empty,
        (exists|i: int| 0 <= i < n && cells[i] == Cell::Empty) ==> empties_below(cells, n).len() > 0,
    decreases n,
{
    if n > 0 {
        lemma_empties_below(cells, n - 1);
        if cells[n - 1] != Cell::Empty {
            assert forall|i: int| 0 <= i < n && cells[i] == Cell::Empty implies i < n - 1 by {}
        }
    }
}

/// Filling one empty cell below `n` takes exactly one index off the list.
pub proof fn lemma_fill_one(cells: Seq<Cell>, n: int, i: int, s: Symbol)
    requires
        0 <= n <= cells.len(),
        0 <= i < cells.len(),
        cells[i] == Cell::Empty,
    ensures
        empties_below(cells.update(i, Cell::Occupied(s)), n).len() == empties_below(cells, n).len()
            - if i < n {
            1int
        } else {
            0int
        },
    decreases n,
{
    if n > 0 {
        lemma_fill_one(cells, n - 1, i, s);
    }
}

/// The three cell indexes of line `k`.
fn line(k: usize) -> (r: (usize, usize, usize))
    requires
        k < LINES,
    ensures
        (r.0 as int, r.1 as int, r.2 as int) == line_spec(k as int),
{
    if k == 0 {
        (0, 1, 2)
    } else if k == 1 {
        (3, 4, 5)
    } else if k == 2 {
        (6, 7, 8)
    } else if k == 3 {
        (0, 3, 6)
    } else if k == 4 {
        (1, 4, 7)
    } else if k == 5 {
        (2, 5, 8)
    } else if k == 6 {
        (0, 4, 8)
    } else {
        (2, 4, 6)
    }
}

/// A 3×3 grid of cells, stored row-major.
#[derive(Clone, Copy, Debug)]
pub struct Board {
    cells: [Cell; 9],
}

impl View for Board {
    type V = Seq<Cell>;

    /// The nine cells, row-major.
    closed spec fn view(&self) -> Seq<Cell> {
        self.cells@
    }
}

impl Board {
    /// The board with every cell empty.
    pub fn new() -> (r: Board)
        ensures
            r@.len() == 9,
            forall|i: int| 0 <= i < 9 ==> r@[i] == Cell::Empty,
    {
        Board { cells: [Cell::Empty, Cell::Empty, Cell::Empty, Cell::Empty, Cell::Empty,
            Cell::Empty, Cell::Empty, Cell::Empty, Cell::Empty] }
    }

    /// The cell at `(row, col)`.
    pub fn get(&self, row: usize, col: usize) -> (r: Cell)
        requires
            on_grid(row as int, col as int),
        ensures
            r == self@[index_of(row as int, col as int)],
    {
        self.cells[row * 3 + col]
    }

    /// The view has one entry per cell.
    pub proof fn lemma_len(&self)
        ensures
            self@.len() == 9,
    {
    }

    /// Whether the cell at `(row, col)` has never been occupied.
    pub fn is_empty(&self, row: usize, col: usize) -> (r: bool)
        requires
            on_grid(row as int, col as int),
        ensures
            r == (self@[index_of(row as int, col as int)] == Cell::Empty),
    {
        match self.cells[row * 3 + col] {
            Cell::Empty => true,
            Cell::Occupied(_) => false,
        }
    }

    /// Puts `symbol` into the cell at `(row, col)` if it is empty; fails with
    /// `CellOccupied`, and changes nothing, if it is not.
    pub fn place(&mut self, row: usize, col: usize, symbol: Symbol) -> (r: Result<(), BoardError>)
        requires
            on_grid(row as int, col as int),
        ensures
            old(self)@[index_of(row as int, col as int)] == Cell::Empty ==> r == Ok::<
                (),
                BoardError,
            >(())
                && final(self)@ == old(self)@.update(
                index_of(row as int, col as int),
                Cell::Occupied(symbol),
            ),
            old(self)@[index_of(row as int, col as int)] != Cell::Empty ==> r == Err::<
                (),
                BoardError,
            >(BoardError::CellOccupied) && final(self)@ == old(self)@,
    {
        let i = row * 3 + col;
        match self.cells[i] {
            Cell::Empty => {
                self.cells[i] = Cell::Occupied(symbol);
                Ok(())
            },
            Cell::Occupied(_) => Err(BoardError::CellOccupied),
        }
    }

    /// The symbol holding all of line `k`, if one does.
    fn owner_of_line(&self, k: usize) -> (r: Option<Symbol>)
        requires
            k < LINES,
        ensures
            r == line_owner(self@, k as int),
    {
        let (a, b, c) = line(k);
        match self.cells[a] {
            Cell::Occupied(s) => {
                if self.cells[b] == self.cells[a] && self.cells[c] == self.cells[a] {
                    Some(s)
                } else {
                    None
                }
            },
            Cell::Empty => None,
        }
    }

    /// The owner of the first completed line, scanning rows, then columns,
    /// then the two diagonals.
    pub fn winner(&self) -> (r: Option<Symbol>)
        ensures
            r == first_winner(self@, 0),
    {
        let mut k: usize = 0;
        while k < LINES
            invariant
                k <= LINES,
                first_winner(self@, 0) == first_winner(self@, k as int),
            decreases LINES - k,
        {
            let owner = self.owner_of_line(k);
            if owner.is_some() {
                return owner;
            }
            k = k + 1;
        }
        None
    }

    /// Whether every cell is occupied.
    pub fn is_full(&self) -> (r: bool)
        ensures
            r == is_full(self@),
    {
        let mut i: usize = 0;
        while i < CELLS
            invariant
                i <= CELLS,
                forall|j: int| 0 <= j < i ==> self@[j] != Cell::Empty,
            decreases CELLS - i,
        {
            if self.cells[i] == Cell::Empty {
                return false;
            }
            i = i + 1;
        }
        true
    }

    /// The outcome of the board, recomputed from its cells. The board is only
    /// read, so asking again without a move in between gives the same answer.
    pub fn evaluate(&self) -> (r: Outcome)
        ensures
            r == outcome_of(self@),
    {
        match self.winner() {
            Some(s) => Outcome::Win(s),
            None => if self.is_full() {
                Outcome::Draw
            } else {
                Outcome::InProgress
            },
        }
    }

    /// The indexes of the empty cells, in increasing order.
    pub fn empty_positions(&self) -> (r: Vec<usize>)
        ensures
            r@.map_values(|i: usize| i as int) == empty_cells(self@),
    {
        let mut out: Vec<usize> = Vec::new();
        let mut i: usize = 0;
        while i < CELLS
            invariant
                i <= CELLS,
                out@.map_values(|j: usize| j as int) == empties_below(self@, i as int),
            decreases CELLS - i,
        {
            if self.cells[i] == Cell::Empty {
                out.push(i);
                assert(out@.map_values(|j: usize| j as int) =~= empties_below(self@, i as int).push(
                    i as int,
                ));
            }
            i = i + 1;
        }
        out
    }
}

} // verus!
