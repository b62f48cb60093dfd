//! The board, the game state and the rules: applying moves, deriving the
//! outcome and resetting.

use vstd::prelude::*;

use crate::player::Player;
use crate::player::Color;
use crate::player::color_of;
use crate::player::spec_color_of;

verus! {

/// One cell of the board: its fixed position number (1 through 9,
/// assigned at creation) and its occupancy. The display color is derived
/// from the occupancy and is not stored.
#[derive(Clone, Copy, Debug)]
#[verifier::ext_equal]
pub struct Cell {
    pub number: u8,
    pub played_by: Option<Player>,
}

/// The derived status of a game: still in progress, won by a player, or
/// drawn with every cell occupied and no winning triple.
#[derive(Clone, Copy, Debug, PartialEq, Eq, Structural)]
pub enum GameOutcome {
    InProgress,
    Won(Player),
    Draw,
}

/// The error signalled when a move targets an occupied cell or is made
/// after the game has ended. The offending call leaves the state unchanged.
#[derive(Clone, Copy, Debug, PartialEq, Eq, Structural)]
pub struct IllegalMove;

/// The occupancy of each cell of a board, in position order.
pub open spec fn occupancy_of(board: Seq<Cell>) -> Seq<Option<Player>> {
    Seq::new(board.len(), |i: int| board[i].played_by)
}

/// A board is well formed when it has exactly nine cells, numbered 1
/// through 9 in order.
pub open spec fn board_well_formed(board: Seq<Cell>) -> bool {
    &&& board.len() == 9
    &&& forall|i: int| 0 <= i < 9 ==> (#[trigger] board[i].number) == i + 1
}

/// Whether the three positions `a`, `b`, `c` are occupied by one and the
/// same player.
pub open spec fn triple_won_by(occ: Seq<Option<Player>>, a: int, b: int, c: int) -> bool {
    &&& occ[a] is Some
    &&& occ[b] == occ[a]
    &&& occ[c] == occ[a]
}

/// The winner of a board, if any: the first of the eight fixed triples
/// (three rows, three columns, two diagonals, in that order) whose three
/// cells are occupied by the same player decides.
pub open spec fn spec_winner(occ: Seq<Option<Player>>) -> Option<Player> {
    if triple_won_by(occ, 0, 1, 2) {
        occ[0]
    } else if triple_won_by(occ, 3, 4, 5) {
        occ[3]
    } else if triple_won_by(occ, 6, 7, 8) {
        occ[6]
    } else if triple_won_by(occ, 0, 3, 6) {
        occ[0]
    } else if triple_won_by(occ, 1, 4, 7) {
        occ[1]
    } else if triple_won_by(occ, 2, 5, 8) {
        occ[2]
    } else if triple_won_by(occ, 0, 4, 8) {
        occ[0]
    } else if triple_won_by(occ, 2, 4, 6) {
        occ[2]
    } else {
        None
    }
}

/// Whether every cell of the board is occupied.
pub open spec fn all_occupied(occ: Seq<Option<Player>>) -> bool {
    forall|i: int| 0 <= i < occ.len() ==> (#[trigger] occ[i]) is Some
}

/// The outcome that a board derives: a win for the first matching triple's
/// player, else a draw when the board is full, else still in progress.
pub open spec fn spec_outcome(occ: Seq<Option<Player>>) -> GameOutcome {
    match spec_winner(occ) {
        Some(p) => GameOutcome::Won(p),
        None => if all_occupied(occ) {
            GameOutcome::Draw
        } else {
            GameOutcome::InProgress
        },
    }
}

/// How many cells of the board are occupied by player `p`.
pub open spec fn count_of(occ: Seq<Option<Player>>, p: Player) -> int
    decreases occ.len(),
{
    if occ.len() == 0 {
        0
    } else {
        count_of(occ.drop_last(), p) + if occ.last() == Some(p) {
            1int
        } else {
            0int
        }
    }
}

/// Looks up one triple of cells and returns its winner, if the three are
/// occupied by the same player.
fn check_triple(board: &Vec<Cell>, a: usize, b: usize, c: usize) -> (r: Option<Player>)
    requires
        board@.len() == 9,
        a < 9,
        b < 9,
        c < 9,
    ensures
        r is Some <==> triple_won_by(occupancy_of(board@), a as int, b as int, c as int),
        r is Some ==> r == occupancy_of(board@)[a as int],
{
    match (board[a].played_by, board[b].played_by, board[c].played_by) {
        (Some(x), Some(y), Some(z)) => if x == y && y == z {
            Some(x)
        } else {
            None
        },
        _ => None,
    }
}

/// The winner of the board, if any. The eight winning triples are checked
/// in the fixed order rows, columns, diagonals, and the first match
/// decides.
pub fn get_winner(board: &Vec<Cell>) -> (r: Option<Player>)
    requires
        board@.len() == 9,
    ensures
        r == spec_winner(occupancy_of(board@)),
{
    let r = check_triple(board, 0, 1, 2);
    if r.is_some() {
        return r;
    }
    let r = check_triple(board, 3, 4, 5);
    if r.is_some() {
        return r;
    }
    let r = check_triple(board, 6, 7, 8);
    if r.is_some() {
        return r;
    }
    let r = check_triple(board, 0, 3, 6);
    if r.is_some() {
        return r;
    }
    let r = check_triple(board, 1, 4, 7);
    if r.is_some() {
        return r;
    }
    let r = check_triple(board, 2, 5, 8);
    if r.is_some() {
        return r;
    }
    let r = check_triple(board, 0, 4, 8);
    if r.is_some() {
        return r;
    }
    let r = check_triple(board, 2, 4, 6);
    if r.is_some() {
        return r;
    }
    None
}

/// Whether every cell of the board is occupied.
pub fn board_full(board: &Vec<Cell>) -> (r: bool)
    requires
        board@.len() == 9,
    ensures
        r == all_occupied(occupancy_of(board@)),
{
    let mut i: usize = 0;
    while i < board.len()
        invariant
            board@.len() == 9,
            i <= 9,
            forall|j: int| 0 <= j < i ==> (#[trigger] occupancy_of(board@)[j]) is Some,
        decreases 9 - i,
    {
        if board[i].played_by.is_none() {
            assert(!(occupancy_of(board@)[i as int] is Some));
            return false;
        }
        i += 1;
    }
    true
}

/// Creates the board: nine unoccupied cells, numbered 1 through 9.
pub fn create_board() -> (board: Vec<Cell>)
    ensures
        board_well_formed(board@),
        forall|i: int| 0 <= i < 9 ==> (#[trigger] board@[i].played_by) is None,
{
    let mut board: Vec<Cell> = Vec::new();
    let mut i: usize = 0;
    while i < 9
        invariant
            i <= 9,
            board@.len() == i,
            forall|j: int| 0 <= j < i ==> (#[trigger] board@[j].number) == j + 1,
            forall|j: int| 0 <= j < i ==> (#[trigger] board@[j].played_by) is None,
        decreases 9 - i,
    {
        board.push(Cell { number: (i as u8) + 1, played_by: None });
        i += 1;
    }
    board
}

/// Clears every cell of the board back to unoccupied; the cell numbers
/// are kept.
pub fn clear_board(board: &mut Vec<Cell>)
    ensures
        final(board)@.len() == old(board)@.len(),
        forall|i: int|
            0 <= i < old(board)@.len() ==> (#[trigger] final(board)@[i].played_by) is None,
        forall|i: int|
            0 <= i < old(board)@.len() ==> (#[trigger] final(board)@[i].number) == old(
                board,
            )@[i].number,
{
    let mut i: usize = 0;
    while i < board.len()
        invariant
            i <= board@.len(),
            board@.len() == old(board)@.len(),
            forall|j: int| 0 <= j < i ==> (#[trigger] board@[j].played_by) is None,
            forall|j: int|
                0 <= j < board@.len() ==> (#[trigger] board@[j].number) == old(board)@[j].number,
        decreases board@.len() - i,
    {
        let number = board[i].number;
        board.set(i, Cell { number, played_by: None });
        i += 1;
    }
}

/// On a board with no occupied cell, every player's count of cells is
/// zero.
proof fn lemma_count_all_none(occ: Seq<Option<Player>>, p: Player)
    requires
        forall|i: int| 0 <= i < occ.len() ==> !((#[trigger] occ[i]) is Some),
    ensures
        count_of(occ, p) == 0,
    decreases occ.len(),
{
    if occ.len() > 0 {
        lemma_count_all_none(occ.drop_last(), p);
    }
}

/// Occupying one free cell raises the mover's count by one and leaves the
/// other player's count unchanged.
proof fn lemma_count_update(occ: Seq<Option<Player>>, i: int, p: Player, q: Player)
    requires
        0 <= i < occ.len(),
        occ[i] is None,
    ensures
        count_of(occ.update(i, Some(p)), q) == count_of(occ, q) + if p == q {
            1int
        } else {
            0int
        },
    decreases occ.len(),
{
    let upd = occ.update(i, Some(p));
    if i == occ.len() - 1 {
        assert(upd.drop_last() =~= occ.drop_last());
    } else {
        lemma_count_update(occ.drop_last(), i, p, q);
        assert(upd.drop_last() =~= occ.drop_last().update(i, Some(p)));
        assert(upd.last() == occ.last());
    }
}

/// Whether the turn is consistent with how many cells each player
/// occupies: the players alternate starting with `A`, so `A` is to move
/// exactly when the counts are equal, and `B` exactly when `A` leads by
/// one.
pub open spec fn turn_balanced(occ: Seq<Option<Player>>, turn: Player) -> bool {
    match turn {
        Player::A => count_of(occ, Player::A) == count_of(occ, Player::B),
        Player::B => count_of(occ, Player::A) == count_of(occ, Player::B) + 1,
    }
}

/// The whole state of one game session: the board and the player to
/// move. The outcome is derived on demand and never stored.
pub struct GameState {
    pub board: Vec<Cell>,
    pub turn: Player,
}

impl GameState {
    /// The occupancy of this state's board, in position order.
    pub open spec fn occ(self) -> Seq<Option<Player>> {
        occupancy_of(self.board@)
    }

    /// The invariant that every reachable state keeps: a well-formed
    /// nine-cell board whose occupancy counts agree with the turn.
    pub open spec fn inv(self) -> bool {
        &&& board_well_formed(self.board@)
        &&& turn_balanced(self.occ(), self.turn)
    }

    /// The initial state: a well-formed board with every cell
    /// unoccupied, and player `A` to move.
    pub open spec fn is_initial(self) -> bool {
        &&& board_well_formed(self.board@)
        &&& forall|i: int| 0 <= i < 9 ==> !((#[trigger] self.occ()[i]) is Some)
        &&& self.turn == Player::A
    }

    /// Starts a new game: an empty board with player `A` to move.
    pub fn new() -> (g: GameState)
        ensures
            g.inv(),
            g.is_initial(),
    {
        let board = create_board();
        let g = GameState { board, turn: Player::A };
        proof {
            lemma_count_all_none(g.occ(), Player::A);
            lemma_count_all_none(g.occ(), Player::B);
        }
        g
    }

    /// The player to move.
    pub fn turn(&self) -> (r: Player)
        ensures
            r == self.turn,
    {
        self.turn
    }

    /// Derives the outcome of the current board. Pure: the receiver is
    /// shared, and the result is a function of the board's occupancy
    /// alone, so repeated calls agree.
    pub fn evaluate_outcome(&self) -> (r: GameOutcome)
        requires
            self.board@.len() == 9,
        ensures
            r == spec_outcome(self.occ()),
    {
        match get_winner(&self.board) {
            Some(p) => GameOutcome::Won(p),
            None => if board_full(&self.board) {
                GameOutcome::Draw
            } else {
                GameOutcome::InProgress
            },
        }
    }

    /// Applies the current player's move at `position`. The move is
    /// legal exactly when the game is still in progress and the target
    /// cell is unoccupied; then the cell is marked for the mover and the
    /// turn passes to the opponent. An illegal move is rejected and
    /// leaves board and turn untouched.
    pub fn apply_move(&mut self, position: usize) -> (r: Result<(), IllegalMove>)
        requires
            old(self).inv(),
            position < 9,
        ensures
            final(self).inv(),
            r is Ok <==> {
                &&& !(old(self).occ()[position as int] is Some)
                &&& spec_outcome(old(self).occ()) is InProgress
            },
            r is Ok ==> {
                &&& final(self).occ() == old(self).occ().update(
                    position as int,
                    Some(old(self).turn),
                )
                &&& final(self).turn == old(self).turn.spec_other()
            },
            r is Err ==> {
                &&& final(self).board@ == old(self).board@
                &&& final(self).turn == old(self).turn
            },
            final(self).board@.len() == 9,
            forall|i: int|
                0 <= i < 9 ==> (#[trigger] final(self).board@[i].number) == old(
                    self,
                ).board@[i].number,
    {
        let outcome = self.evaluate_outcome();
        let in_progress = match outcome {
            GameOutcome::InProgress => true,
            _ => false,
        };
        if !in_progress {
            return Err(IllegalMove);
        }
        if self.board[position].played_by.is_some() {
            return Err(IllegalMove);
        }
        let mover = self.turn;
        let number = self.board[position].number;
        self.board.set(position, Cell { number, played_by: Some(mover) });
        self.turn = mover.other();
        proof {
            assert(self.occ() =~= old(self).occ().update(position as int, Some(mover)));
            lemma_count_update(old(self).occ(), position as int, mover, Player::A);
            lemma_count_update(old(self).occ(), position as int, mover, Player::B);
        }
        Ok(())
    }

    /// Returns the game to the initial state: every cell unoccupied,
    /// player `A` to move. Always succeeds; the board is cleared in
    /// place and its cell numbers are kept.
    pub fn reset(&mut self)
        requires
            board_well_formed(old(self).board@),
        ensures
            final(self).inv(),
            final(self).is_initial(),
    {
        clear_board(&mut self.board);
        self.turn = Player::A;
        proof {
            lemma_count_all_none(self.occ(), Player::A);
            lemma_count_all_none(self.occ(), Player::B);
        }
    }

    /// The fixed position number of the cell at `position`, 1 through 9.
    pub fn cell_number(&self, position: usize) -> (n: u8)
        requires
            position < 9,
            board_well_formed(self.board@),
        ensures
            n == position + 1,
    {
        self.board[position].number
    }

    /// The derived display color of the cell at `position`: white while
    /// unoccupied, blue for player `A`, red for player `B`.
    pub fn cell_color(&self, position: usize) -> (c: Color)
        requires
            position < 9,
            self.board@.len() == 9,
        ensures
            c == spec_color_of(self.occ()[position as int]),
    {
        color_of(self.board[position].played_by)
    }

    /// Whether the cell at `position` can be played now: it is
    /// unoccupied and the game is still in progress.
    pub fn is_clickable(&self, position: usize) -> (r: bool)
        requires
            position < 9,
            self.board@.len() == 9,
        ensures
            r <==> {
                &&& !(self.occ()[position as int] is Some)
                &&& spec_outcome(self.occ()) is InProgress
            },
    {
        let outcome = self.evaluate_outcome();
        match outcome {
            GameOutcome::InProgress => self.board[position].played_by.is_none(),
            _ => false,
        }
    }

    /// Whether the reset control should be offered: exactly when the
    /// game has ended, in a win or a draw.
    pub fn reset_enabled(&self) -> (r: bool)
        requires
            self.board@.len() == 9,
        ensures
            r <==> !(spec_outcome(self.occ()) is InProgress),
    {
        let outcome = self.evaluate_outcome();
        match outcome {
            GameOutcome::InProgress => false,
            _ => true,
        }
    }
}

/// In every state that keeps the invariant — and every state the
/// operations can reach keeps it — player `A` occupies either exactly as
/// many cells as player `B` or one more, since `A` moves first and turns
/// alternate strictly.
pub proof fn lemma_move_counts_balanced(g: GameState)
    requires
        g.inv(),
    ensures
        count_of(g.occ(), Player::A) - count_of(g.occ(), Player::B) == 0 || count_of(
            g.occ(),
            Player::A,
        ) - count_of(g.occ(), Player::B) == 1,
{
}

/// The outcome is a pure function of the board: two states whose boards
/// agree cell for cell derive the same outcome. Together with the
/// contract of `evaluate_outcome`, which pins its result to
/// `spec_outcome` of an unchanged receiver, repeated calls on one state
/// must return the same outcome.
pub proof fn lemma_outcome_is_pure(g1: GameState, g2: GameState)
    requires
        g1.occ() == g2.occ(),
    ensures
        spec_outcome(g1.occ()) == spec_outcome(g2.occ()),
{
}

/// Resetting is idempotent: the state after `reset` is fully determined
/// (an empty well-formed board, player `A` to move), so any two states
/// that satisfy it — after one call or two — have equal boards and equal
/// turns.
pub proof fn lemma_reset_idempotent(g1: GameState, g2: GameState)
    requires
        g1.is_initial(),
        g2.is_initial(),
    ensures
        g1.board@ =~= g2.board@,
        g1.turn == g2.turn,
{
    assert forall|i: int| 0 <= i < 9 implies g1.board@[i] == g2.board@[i] by {
        assert(!(g1.occ()[i] is Some));
        assert(!(g2.occ()[i] is Some));
        assert(g1.board@[i].played_by is None);
        assert(g2.board@[i].played_by is None);
        assert(g1.board@[i] =~= g2.board@[i]);
    }
}

/// A fully occupied board never counts as in progress: with no winning
/// triple it is a draw, and with one it is won.
pub proof fn lemma_full_board_is_draw(occ: Seq<Option<Player>>)
    requires
        occ.len() == 9,
        all_occupied(occ),
    ensures
        !(spec_outcome(occ) is InProgress),
        spec_winner(occ) is None ==> spec_outcome(occ) is Draw,
{
}

} // verus!
