use crate::board::{
    empty_cells,
    index_of,
    lemma_empties_below,
    lemma_fill_one,
    on_grid,
    outcome_of,
    Cell,
    Outcome,
    Symbol,
};
use crate::game::{after_move, fresh, move_allowed, GameView, TurnState};
use rand::Rng;
use vstd::prelude::*;

verus! {

/// Where a player actor stands between two iterations.
#[derive(Clone, Copy, Debug, PartialEq, Eq, Structural)]
pub enum Phase {
    /// Polling for its turn.
    Waiting,
    /// Placing its symbol; an iteration that moves ends back in `Waiting`.
    Acting,
    /// It saw the game end; it stops.
    Done,
}

/// What one iteration of an actor did, within one exclusive-access scope.
#[derive(Clone, Copy, Debug, PartialEq, Eq, Structural)]
pub enum Action {
    /// The game was over with this outcome; the actor stops.
    Done(Outcome),
    /// It was the other player's turn; the actor backs off and retries.
    Waited,
    /// The actor played at `(row, col)`.
    Moved(usize, usize),
}

/// One iteration of the actor for `me` on state `g`, where `pick` chooses
/// among the empty cells (counted in row-major order, modulo their number):
/// the new state and what the actor did.
pub open spec fn iteration(g: GameView, me: Symbol, pick: int) -> (GameView, Action) {
    let o = outcome_of(g.cells);
    if o != Outcome::InProgress {
        (g, Action::Done(o))
    } else if g.to_move != me {
        (g, Action::Waited)
    } else {
        let e = empty_cells(g.cells);
        let i = e[pick % (e.len() as int)];
        (after_move(g, i / 3, i % 3, me), Action::Moved((i / 3) as usize, (i % 3) as usize))
    }
}

/// The phase an actor is in after an iteration that did `a`.
pub open spec fn phase_after(a: Action) -> Phase {
    match a {
        Action::Done(_) => Phase::Done,
        _ => Phase::Waiting,
    }
}

/// The state after a schedule of iterations, each naming the actor that ran
/// and the pick it drew.
pub open spec fn run(g: GameView, schedule: Seq<(Symbol, int)>) -> GameView
    decreases schedule.len(),
{
    if schedule.len() == 0 {
        g
    } else {
        run(iteration(g, schedule[0].0, schedule[0].1).0, schedule.drop_first())
    }
}

/// How many iterations of a schedule ran the actor whose turn it was.
pub open spec fn turns_taken(g: GameView, schedule: Seq<(Symbol, int)>) -> nat
    decreases schedule.len(),
{
    if schedule.len() == 0 {
        0
    } else {
        let next = iteration(g, schedule[0].0, schedule[0].1).0;
        turns_taken(next, schedule.drop_first()) + if schedule[0].0 == g.to_move {
            1nat
        } else {
            0nat
        }
    }
}

/// On a finished game an iteration of either actor reports the outcome and
/// changes nothing.
pub proof fn lemma_finished_means_done(g: GameView, me: Symbol, pick: int)
    requires
        outcome_of(g.cells) != Outcome::InProgress,
    ensures
        iteration(g, me, pick) == (g, Action::Done(outcome_of(g.cells))),
{
}

/// A finished game stays as it is, whatever runs next.
pub proof fn lemma_finished_stays(g: GameView, schedule: Seq<(Symbol, int)>)
    requires
        outcome_of(g.cells) != Outcome::InProgress,
    ensures
        run(g, schedule) == g,
    decreases schedule.len(),
{
    if schedule.len() > 0 {
        lemma_finished_stays(g, schedule.drop_first());
    }
}

/// On an open game the actor whose turn it is always moves: it fills one
/// empty cell and passes the turn.
pub proof fn lemma_turn_moves(g: GameView, pick: int)
    requires
        g.cells.len() == 9,
        outcome_of(g.cells) == Outcome::InProgress,
    ensures
        iteration(g, g.to_move, pick).1 is Moved,
        iteration(g, g.to_move, pick).0.cells.len() == 9,
        iteration(g, g.to_move, pick).0.to_move == g.to_move.other_spec(),
        empty_cells(iteration(g, g.to_move, pick).0.cells).len() == empty_cells(g.cells).len() - 1,
{
    lemma_empties_below(g.cells, 9);
    let e = empty_cells(g.cells);
    let i = e[pick % (e.len() as int)];
    assert(on_grid(i / 3, i % 3) && index_of(i / 3, i % 3) == i);
    assert(move_allowed(g, i / 3, i % 3, g.to_move));
    lemma_fill_one(g.cells, 9, i, g.to_move);
}

/// Once the actor whose turn it is has run more times than there were empty
/// cells, the game is over, whatever the interleaving.
pub proof fn lemma_game_ends(g: GameView, schedule: Seq<(Symbol, int)>)
    requires
        g.cells.len() == 9,
        turns_taken(g, schedule) > empty_cells(g.cells).len(),
    ensures
        outcome_of(run(g, schedule).cells) != Outcome::InProgress,
    decreases schedule.len(),
{
    if outcome_of(g.cells) != Outcome::InProgress {
        lemma_finished_stays(g, schedule);
    } else {
        let (me, pick) = schedule[0];
        if me == g.to_move {
            lemma_turn_moves(g, pick);
        }
        lemma_game_ends(iteration(g, me, pick).0, schedule.drop_first());
    }
}

/// From an empty board, for any interleaving of the two actors, once the
/// actor whose turn it was has run ten times the game is over and the next
/// iteration of either actor is `Done`.
pub proof fn lemma_both_actors_finish(first: Symbol, schedule: Seq<(Symbol, int)>)
    requires
        turns_taken(fresh(first), schedule) > 9,
    ensures
        outcome_of(run(fresh(first), schedule).cells) != Outcome::InProgress,
        forall|me: Symbol, pick: int|
            #[trigger] iteration(run(fresh(first), schedule), me, pick) == (
                run(fresh(first), schedule),
                Action::Done(outcome_of(run(fresh(first), schedule).cells)),
            ),
{
    let g = fresh(first);
    lemma_empties_below(g.cells, 9);
    lemma_game_ends(g, schedule);
}

/// Relies on rand::Rng::gen_range with the thread-local generator: a value
/// in `0..n`. It panics on an empty range, hence `n > 0`.
#[verifier::external_body]
fn random_below(n: usize) -> (r: usize)
    requires
        n > 0,
    ensures
        r < n,
{
    rand::thread_rng().gen_range(0..n)
}

/// One player of the game, bound to its symbol.
#[derive(Clone, Copy, Debug)]
pub struct Actor {
    symbol: Symbol,
    phase: Phase,
}

impl Actor {
    /// An actor for `symbol`, waiting for its turn.
    pub fn new(symbol: Symbol) -> (r: Actor)
        ensures
            r.symbol_spec() == symbol,
            r.phase_spec() == Phase::Waiting,
    {
        Actor { symbol, phase: Phase::Waiting }
    }

    /// The symbol this actor plays.
    pub closed spec fn symbol_spec(&self) -> Symbol {
        self.symbol
    }

    /// Where this actor stands.
    pub closed spec fn phase_spec(&self) -> Phase {
        self.phase
    }

    /// The symbol this actor plays.
    pub fn symbol(&self) -> (r: Symbol)
        ensures
            r == self.symbol_spec(),
    {
        self.symbol
    }

    /// Where this actor stands.
    pub fn phase(&self) -> (r: Phase)
        ensures
            r == self.phase_spec(),
    {
        self.phase
    }

    /// One iteration on `game`, with `pick` choosing the cell if it is this
    /// actor's turn: stop on a finished game, wait on the other's turn, else
    /// play the chosen empty cell.
    pub fn step_with(&mut self, game: &mut TurnState, pick: usize) -> (r: Action)
        ensures
            (final(game)@, r) == iteration(old(game)@, old(self).symbol_spec(), pick as int),
            final(self).symbol_spec() == old(self).symbol_spec(),
            final(self).phase_spec() == phase_after(r),
    {
        let me = self.symbol;
        let o = game.outcome();
        if o != Outcome::InProgress {
            self.phase = Phase::Done;
            return Action::Done(o);
        }
        if game.to_move() != me {
            self.phase = Phase::Waiting;
            return Action::Waited;
        }
        self.phase = Phase::Acting;
        let empties = game.board().empty_positions();
        proof {
            game.lemma_cells_len();
            lemma_empties_below(game@.cells, 9);
            assert(empties@.len() == empty_cells(game@.cells).len());
        }
        let i = empties[pick % empties.len()];
        proof {
            let k = pick as int % (empties@.len() as int);
            assert(i as int == empty_cells(game@.cells)[k]);
        }
        let row = i / 3;
        let col = i % 3;
        let moved = game.attempt_move(row, col, me);
        assert(moved);
        self.phase = Phase::Waiting;
        Action::Moved(row, col)
    }

    /// One iteration on `game`, drawing the cell uniformly among the empty
    /// ones when it is this actor's turn. Whatever is drawn, the result is
    /// that of `step_with` for some pick.
    pub fn step(&mut self, game: &mut TurnState) -> (r: Action)
        ensures
            exists|pick: int| 0 <= pick && (final(game)@, r) == #[trigger] iteration(
                old(game)@,
                old(self).symbol_spec(),
                pick,
            ),
            final(self).symbol_spec() == old(self).symbol_spec(),
            final(self).phase_spec() == phase_after(r),
    {
        let ghost before = game@;
        let mut pick: usize = 0;
        if game.outcome() == Outcome::InProgress && game.to_move() == self.symbol {
            let n = game.board().empty_positions().len();
            proof {
                game.lemma_cells_len();
                lemma_empties_below(game@.cells, 9);
            }
            pick = random_below(n);
        }
        let r = self.step_with(game, pick);
        assert((game@, r) == iteration(before, self.symbol_spec(), pick as int));
        r
    }
}

} // verus!
