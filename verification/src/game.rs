//! The round controller: the evolving game state and its transition, one
//! round at a time, to a terminal outcome.
//!
//! Each round the surrounding program reads one raw line from the operator
//! and hands it (or the read failure) to `play_round`, which parses and
//! validates the move, applies it, detects a win, and produces the next
//! state together with a status message. `conclude` then settles a tie once
//! the ninth round has completed without a winner; the driver stops as soon
//! as `game_status` reports a terminal state.

use vstd::prelude::*;
use crate::board::BOARD_CELLS;
use crate::board::Cell;
use crate::board::Player;
use crate::board::has_winner;
use crate::board::lemma_marks_count_all_empty;
use crate::board::lemma_marks_count_full;
use crate::board::lemma_marks_count_update;
use crate::board::marks_count;
use crate::board::opposite;
use crate::board::spec_has_winner;
use crate::board::switch_player;
use crate::board::update_board;
use crate::input::PlayerInputError;
use crate::input::num_error;
use crate::input::num_error_text;
use crate::input::number_of;
use crate::input::parse_move;
use crate::input::parses_as_number;
use crate::input::trimmed;

verus! {

/// The aggregate game state: the board, the status message describing the
/// most recent action (display only, never read by the logic), the number
/// of completed moves, whether a winner has been declared, and whose turn
/// it is.
#[derive(Debug)]
pub struct Game {
    pub board: Vec<Cell>,
    pub round_message: String,
    pub round: i32,
    pub winner: bool,
    pub next_player: Player,
}

/// Where a game stands: still accepting moves, won, or tied.
#[derive(Clone, Copy, PartialEq, Eq, Structural, Debug)]
pub enum GameStatus {
    InProgress,
    Won,
    Tied,
}

/// The status message that opens a fresh game.
pub open spec fn start_text(p: Player) -> Seq<char> {
    if p is X {
        "Player X turn."@
    } else {
        "Player O turn."@
    }
}

/// The status message announcing whose turn comes next.
pub open spec fn turn_text(p: Player) -> Seq<char> {
    if p is X {
        "Player X turn"@
    } else {
        "Player O turn"@
    }
}

/// The status message announcing the winner.
pub open spec fn win_text(p: Player) -> Seq<char> {
    if p is X {
        "Player X wins!"@
    } else {
        "Player O wins!"@
    }
}

/// The status message after a move onto an occupied cell, naming whose
/// turn it still is.
pub open spec fn already_selected_text(p: Player) -> Seq<char> {
    if p is X {
        "Already selected. Still player X turn"@
    } else {
        "Already selected. Still player O turn"@
    }
}

/// The status message reporting a tie.
pub open spec fn tie_text() -> Seq<char> {
    "Players tie"@
}

impl Game {
    /// Well-formedness, established at creation and preserved by every
    /// round: nine cells, a round counter that never leaves [0, 9], and a
    /// winner flag that reports exactly whether a winning triple exists.
    pub open spec fn wf(self) -> bool {
        &&& self.board@.len() == BOARD_CELLS
        &&& 0 <= self.round <= 9
        &&& self.winner == spec_has_winner(self.board@)
    }

    /// A fresh game: empty board, round 0, player X to move, no winner.
    pub fn new() -> (g: Game)
        ensures
            g.wf(),
            g.board@.len() == BOARD_CELLS,
            forall|i: int| 0 <= i < BOARD_CELLS ==> g.board@[i] is Empty,
            g.round == 0,
            g.winner == false,
            g.next_player == Player::X,
            g.round_message@ == start_text(Player::X),
            marks_count(g.board@) == g.round,
    {
        let board = vec![
            Cell::Empty,
            Cell::Empty,
            Cell::Empty,
            Cell::Empty,
            Cell::Empty,
            Cell::Empty,
            Cell::Empty,
            Cell::Empty,
            Cell::Empty,
        ];
        proof {
            assert(forall|i: int| 0 <= i < BOARD_CELLS ==> board@[i] is Empty);
            assert(forall|k: int|
                0 <= k < 8 ==> !#[trigger] crate::board::line_won(board@, k));
            lemma_marks_count_all_empty(board@);
        }
        Game {
            board,
            round_message: String::from_str("Player X turn."),
            round: 0,
            winner: false,
            next_player: Player::X,
        }
    }
}

/// Where a game stands, from its winner flag and round counter.
pub open spec fn spec_status(g: Game) -> GameStatus {
    if g.winner {
        GameStatus::Won
    } else if g.round >= 9 {
        GameStatus::Tied
    } else {
        GameStatus::InProgress
    }
}

/// Where a game stands: `Won` as soon as a winner was declared, `Tied`
/// once nine rounds completed without one, `InProgress` otherwise.
pub fn game_status(game: &Game) -> (s: GameStatus)
    ensures
        s == spec_status(*game),
{
    if game.winner {
        GameStatus::Won
    } else if game.round >= 9 {
        GameStatus::Tied
    } else {
        GameStatus::InProgress
    }
}

/// Terminal detection, spelled out against the board itself: a well-formed
/// game is `Won` exactly when some winning triple is uniformly marked, and
/// `Tied` exactly when nine rounds completed with no such triple.
pub proof fn lemma_terminal_detection(game: Game)
    requires
        game.wf(),
    ensures
        spec_status(game) is Won <==> spec_has_winner(game.board@),
        spec_status(game) is Tied <==> game.round >= 9 && !spec_has_winner(game.board@),
        spec_status(game) is InProgress <==> game.round < 9 && !spec_has_winner(game.board@),
{
}

/// The move an input round carries: the zero-based cell index, when the
/// line was read successfully and its trimmed text is a number in [1, 9];
/// nothing on any input-layer failure.
pub open spec fn spec_move(input: Result<String, PlayerInputError>) -> Option<int> {
    match input {
        Ok(line) => {
            let t = trimmed(line@);
            if parses_as_number(t) && 1 <= number_of(t) <= 9 {
                Some(number_of(t) - 1)
            } else {
                None
            }
        },
        Err(_) => None,
    }
}

/// How one round transforms the state, as stated by `play_round`:
/// an input-layer failure or an occupied cell leaves everything but the
/// status message unchanged; a successful placement commits the new board,
/// advances the round counter by exactly one, and either declares the
/// mover the winner or hands the turn to the opposite player.
pub open spec fn round_transition(
    game: Game,
    input: Result<String, PlayerInputError>,
    r: Game,
) -> bool {
    match spec_move(input) {
        None => {
            &&& r.board@ == game.board@
            &&& r.round == game.round
            &&& r.next_player == game.next_player
            &&& r.winner == game.winner
            &&& r.round_message@ == num_error_text()
        },
        Some(i) => {
            if game.board@[i] is Taken {
                &&& r.board@ == game.board@
                &&& r.round == game.round
                &&& r.next_player == game.next_player
                &&& r.winner == game.winner
                &&& r.round_message@ == already_selected_text(game.next_player)
            } else {
                let nb = game.board@.update(i, Cell::Taken(game.next_player));
                &&& r.board@ == nb
                &&& r.round == game.round + 1
                &&& (if spec_has_winner(nb) {
                    &&& r.winner
                    &&& r.next_player == game.next_player
                    &&& r.round_message@ == win_text(game.next_player)
                } else {
                    &&& !r.winner
                    &&& r.next_player == opposite(game.next_player)
                    &&& r.round_message@ == turn_text(opposite(game.next_player))
                })
            }
        },
    }
}

/// The status message announcing whose turn comes next.
fn turn_message(p: Player) -> (r: String)
    ensures
        r@ == turn_text(p),
{
    match p {
        Player::X => String::from_str("Player X turn"),
        Player::O => String::from_str("Player O turn"),
    }
}

/// The status message announcing the winner.
fn win_message(p: Player) -> (r: String)
    ensures
        r@ == win_text(p),
{
    match p {
        Player::X => String::from_str("Player X wins!"),
        Player::O => String::from_str("Player O wins!"),
    }
}

/// The status message after a move onto an occupied cell.
fn already_selected_message(p: Player) -> (r: String)
    ensures
        r@ == already_selected_text(p),
{
    match p {
        Player::X => String::from_str("Already selected. Still player X turn"),
        Player::O => String::from_str("Already selected. Still player O turn"),
    }
}

/// Plays one round on a game that is still in progress.
///
/// `input` is what the input collaborator produced: the raw line, or the
/// read failure. Any input-layer failure — unreadable line, text that is
/// not a number, a number outside [1, 9] — only replaces the status
/// message with the generic retry prompt; a move onto an occupied cell
/// only replaces it with the cell-taken message. Neither counts as a
/// completed round. A successful placement commits the new board, advances
/// the round counter by exactly one, and either declares the current
/// player the winner (who then keeps the turn) or hands the turn to the
/// opposite player.
pub fn play_round(game: Game, input: Result<String, PlayerInputError>) -> (r: Game)
    requires
        game.wf(),
        spec_status(game) is InProgress,
    ensures
        r.wf(),
        round_transition(game, input, r),
{
    let player = game.next_player;
    let line = match input {
        Ok(l) => l,
        Err(_) => {
            return Game { round_message: num_error(), ..game };
        },
    };
    let num = match parse_move(line.as_str()) {
        Ok(n) => n,
        Err(_) => {
            return Game { round_message: num_error(), ..game };
        },
    };
    let new_values = update_board(num, player, &game.board);
    match new_values {
        Err(_) => Game { round_message: already_selected_message(player), ..game },
        Ok(values) => {
            if has_winner(&values) {
                Game {
                    board: values,
                    winner: true,
                    round: game.round + 1,
                    round_message: win_message(player),
                    ..game
                }
            } else {
                let next = switch_player(player);
                Game {
                    board: values,
                    round: game.round + 1,
                    round_message: turn_message(next),
                    next_player: next,
                    ..game
                }
            }
        },
    }
}

/// Settles the outcome after a round: a game that has completed its ninth
/// round with no winner is reported as a tie, and only its status message
/// changes; every other game passes through untouched.
pub fn conclude(game: Game) -> (r: Game)
    requires
        game.wf(),
    ensures
        r.wf(),
        spec_status(r) == spec_status(game),
        spec_status(game) is Tied ==> {
            &&& r.board@ == game.board@
            &&& r.round == game.round
            &&& r.next_player == game.next_player
            &&& r.winner == game.winner
            &&& r.round_message@ == tie_text()
        },
        !(spec_status(game) is Tied) ==> r == game,
{
    if !game.winner && game.round >= 9 {
        Game { round_message: String::from_str("Players tie"), ..game }
    } else {
        game
    }
}

/// Round counting: in every state a game reaches, the round counter equals
/// the number of marks on the board. A fresh game establishes the equality
/// (round 0, no marks), and one round preserves it: a successful placement
/// adds one mark and one completed round, while a rejected or erroring
/// attempt adds neither.
pub proof fn lemma_round_counts_marks(
    game: Game,
    input: Result<String, PlayerInputError>,
    r: Game,
)
    requires
        game.wf(),
        marks_count(game.board@) == game.round,
        round_transition(game, input, r),
    ensures
        marks_count(r.board@) == r.round,
{
    match spec_move(input) {
        None => {},
        Some(i) => {
            if !(game.board@[i] is Taken) {
                lemma_marks_count_update(game.board@, i, game.next_player);
            }
        },
    }
}

/// A tied game is full: once the round counter matches the marks on the
/// board and the game stands `Tied`, every cell holds a mark and no
/// winning triple exists — the board filled up without a winner.
pub proof fn lemma_tied_board_is_full(game: Game)
    requires
        game.wf(),
        marks_count(game.board@) == game.round,
        spec_status(game) is Tied,
    ensures
        forall|i: int| 0 <= i < BOARD_CELLS ==> game.board@[i] is Taken,
        !spec_has_winner(game.board@),
{
    lemma_marks_count_full(game.board@);
}

} // verus!
