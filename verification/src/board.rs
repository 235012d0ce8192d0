//! The board and the rules: cells, players, move application, win detection.
//!
//! A board is an ordered sequence of exactly nine cells. A cell is either
//! unoccupied or holds one player's mark; the empty cells of a fresh board
//! are displayed by their one-based position label, which the surrounding
//! program obtains through `cell_label`.

use vstd::prelude::*;
use crate::input::PlayerInputError;

verus! {

/// One of the two marks; exactly one player is "current" at any time.
#[derive(Clone, Copy, PartialEq, Eq, Structural, Debug)]
pub enum Player {
    X,
    O,
}

/// One of the nine board positions: unoccupied, or claimed by a player.
#[derive(Clone, Copy, PartialEq, Eq, Structural, Debug)]
pub enum Cell {
    Empty,
    Taken(Player),
}

/// The number of cells on the board.
pub const BOARD_CELLS: usize = 9;

/// The mark opposite to `p`.
pub open spec fn opposite(p: Player) -> Player {
    match p {
        Player::X => Player::O,
        Player::O => Player::X,
    }
}

/// Hands the turn to the other player.
pub fn switch_player(player: Player) -> (r: Player)
    ensures
        r == opposite(player),
        r != player,
{
    match player {
        Player::X => Player::O,
        Player::O => Player::X,
    }
}

/// The `k`-th of the eight winning triples: three rows, three columns,
/// two diagonals, as positions on the nine-cell board.
pub open spec fn winner_position(k: int) -> (int, int, int) {
    if k == 0 {
        (0, 1, 2)
    } else if k == 1 {
        (3, 4, 5)
    } else if k == 2 {
        (6, 7, 8)
    } else if k == 3 {
        (0, 3, 6)
    } else if k == 4 {
        (1, 4, 7)
    } else if k == 5 {
        (2, 5, 8)
    } else if k == 6 {
        (0, 4, 8)
    } else {
        (2, 4, 6)
    }
}

/// Whether the three cells at `i`, `j`, `k` all hold one player's mark.
/// An unoccupied cell never contributes to a win, so three equal empty
/// cells do not count as a winning line.
pub open spec fn cells_won(b: Seq<Cell>, i: int, j: int, k: int) -> bool {
    b[i] is Taken && b[i] == b[j] && b[i] == b[k]
}

/// Whether the `k`-th winning triple is uniformly marked by one player.
pub open spec fn line_won(b: Seq<Cell>, k: int) -> bool {
    cells_won(b, winner_position(k).0, winner_position(k).1, winner_position(k).2)
}

/// Whether some winning triple is uniformly marked by one player.
pub open spec fn spec_has_winner(b: Seq<Cell>) -> bool {
    exists|k: int| 0 <= k < 8 && #[trigger] line_won(b, k)
}

/// Whether the three cells at `i`, `j`, `k` all hold the same mark.
fn cells_match(values: &Vec<Cell>, i: usize, j: usize, k: usize) -> (r: bool)
    requires
        i < values@.len(),
        j < values@.len(),
        k < values@.len(),
    ensures
        r == cells_won(values@, i as int, j as int, k as int),
{
    let c = values[i];
    match c {
        Cell::Empty => false,
        Cell::Taken(_) => c == values[j] && c == values[k],
    }
}

/// Evaluates the eight fixed winning triples and reports whether any of
/// them is uniformly marked by one player. Pure: no side effects.
pub fn has_winner(values: &Vec<Cell>) -> (r: bool)
    requires
        values@.len() == BOARD_CELLS,
    ensures
        r == spec_has_winner(values@),
{
    if cells_match(values, 0, 1, 2) {
        proof {
            assert(line_won(values@, 0));
        }
        return true;
    }
    if cells_match(values, 3, 4, 5) {
        proof {
            assert(line_won(values@, 1));
        }
        return true;
    }
    if cells_match(values, 6, 7, 8) {
        proof {
            assert(line_won(values@, 2));
        }
        return true;
    }
    if cells_match(values, 0, 3, 6) {
        proof {
            assert(line_won(values@, 3));
        }
        return true;
    }
    if cells_match(values, 1, 4, 7) {
        proof {
            assert(line_won(values@, 4));
        }
        return true;
    }
    if cells_match(values, 2, 5, 8) {
        proof {
            assert(line_won(values@, 5));
        }
        return true;
    }
    if cells_match(values, 0, 4, 8) {
        proof {
            assert(line_won(values@, 6));
        }
        return true;
    }
    if cells_match(values, 2, 4, 6) {
        proof {
            assert(line_won(values@, 7));
        }
        return true;
    }
    proof {
        assert(forall|k: int| 0 <= k < 8 ==> !#[trigger] line_won(values@, k));
    }
    false
}

/// Validates a proposed move and applies it to a copy of the board.
///
/// If the target cell already holds a mark the move is rejected with
/// `AlreadySelected` and the caller's board is untouched. Otherwise the
/// result is a fresh board identical to the input except that the target
/// cell now holds `player`'s mark; the caller decides whether to commit it.
pub fn update_board(num: usize, player: Player, values: &Vec<Cell>) -> (r: Result<
    Vec<Cell>,
    PlayerInputError,
>)
    requires
        num < BOARD_CELLS,
        values@.len() == BOARD_CELLS,
    ensures
        r is Err <==> values@[num as int] is Taken,
        r is Err ==> r == Err::<Vec<Cell>, PlayerInputError>(PlayerInputError::AlreadySelected),
        r matches Ok(b) ==> b@ == values@.update(num as int, Cell::Taken(player)),
{
    let mut current_map = values.clone();
    proof {
        assert(current_map@ =~= values@);
    }
    match current_map[num] {
        Cell::Taken(_) => Err(PlayerInputError::AlreadySelected),
        Cell::Empty => {
            current_map[num] = Cell::Taken(player);
            proof {
                assert(current_map@ =~= values@.update(num as int, Cell::Taken(player)));
            }
            Ok(current_map)
        },
    }
}

/// How many cells of the board hold a player's mark.
pub open spec fn marks_count(b: Seq<Cell>) -> int
    decreases b.len(),
{
    if b.len() == 0 {
        0
    } else {
        marks_count(b.drop_last()) + if b.last() is Taken {
            1int
        } else {
            0int
        }
    }
}

/// A board with no marks counts zero.
pub proof fn lemma_marks_count_all_empty(b: Seq<Cell>)
    requires
        forall|i: int| 0 <= i < b.len() ==> b[i] is Empty,
    ensures
        marks_count(b) == 0,
    decreases b.len(),
{
    if b.len() > 0 {
        lemma_marks_count_all_empty(b.drop_last());
    }
}

/// Marking one unoccupied cell raises the count by exactly one.
pub proof fn lemma_marks_count_update(b: Seq<Cell>, i: int, p: Player)
    requires
        0 <= i < b.len(),
        b[i] is Empty,
    ensures
        marks_count(b.update(i, Cell::Taken(p))) == marks_count(b) + 1,
    decreases b.len(),
{
    let u = b.update(i, Cell::Taken(p));
    if i == b.len() - 1 {
        assert(u.drop_last() =~= b.drop_last());
    } else {
        assert(u.drop_last() =~= b.drop_last().update(i, Cell::Taken(p)));
        lemma_marks_count_update(b.drop_last(), i, p);
    }
}

/// The count never exceeds the number of cells, and reaches it only when
/// every cell holds a mark.
pub proof fn lemma_marks_count_full(b: Seq<Cell>)
    ensures
        marks_count(b) <= b.len(),
        marks_count(b) == b.len() ==> forall|i: int| 0 <= i < b.len() ==> b[i] is Taken,
    decreases b.len(),
{
    if b.len() > 0 {
        lemma_marks_count_full(b.drop_last());
        if marks_count(b) == b.len() {
            assert(forall|i: int|
                0 <= i < b.len() - 1 ==> b.drop_last()[i] == b[i]);
        }
    }
}

/// The character that depicts the one-based position label `n` of an
/// unoccupied cell.
pub open spec fn position_label(n: int) -> char {
    if n == 1 {
        '1'
    } else if n == 2 {
        '2'
    } else if n == 3 {
        '3'
    } else if n == 4 {
        '4'
    } else if n == 5 {
        '5'
    } else if n == 6 {
        '6'
    } else if n == 7 {
        '7'
    } else if n == 8 {
        '8'
    } else {
        '9'
    }
}

/// The character that depicts cell `i`: the owning player's mark, or the
/// cell's own one-based position label while it is unoccupied.
pub open spec fn spec_cell_label(b: Seq<Cell>, i: int) -> char {
    match b[i] {
        Cell::Empty => position_label(i + 1),
        Cell::Taken(Player::X) => 'X',
        Cell::Taken(Player::O) => 'O',
    }
}

/// The character that depicts cell `i`, for the rendering collaborator.
pub fn cell_label(values: &Vec<Cell>, i: usize) -> (c: char)
    requires
        values@.len() == BOARD_CELLS,
        i < BOARD_CELLS,
    ensures
        c == spec_cell_label(values@, i as int),
{
    match values[i] {
        Cell::Taken(Player::X) => 'X',
        Cell::Taken(Player::O) => 'O',
        Cell::Empty => {
            if i == 0 {
                '1'
            } else if i == 1 {
                '2'
            } else if i == 2 {
                '3'
            } else if i == 3 {
                '4'
            } else if i == 4 {
                '5'
            } else if i == 5 {
                '6'
            } else if i == 6 {
                '7'
            } else if i == 7 {
                '8'
            } else {
                '9'
            }
        },
    }
}

} // verus!
