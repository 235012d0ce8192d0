use tictactoe::board::cell_label;
use tictactoe::board::has_winner;
use tictactoe::board::switch_player;
use tictactoe::board::update_board;
use tictactoe::board::Cell;
use tictactoe::board::Player;
use tictactoe::console::clear_screen;
use tictactoe::input::num_error;
use tictactoe::input::PlayerInputError;

fn empty_board() -> Vec<Cell> {
    vec![Cell::Empty; 9]
}

fn board_with(xs: &[usize], os: &[usize]) -> Vec<Cell> {
    let mut b = empty_board();
    for &i in xs {
        b[i] = Cell::Taken(Player::X);
    }
    for &i in os {
        b[i] = Cell::Taken(Player::O);
    }
    b
}

#[test]
fn empty_board_has_no_winner() {
    // Three equal unoccupied cells never count as a winning line.
    assert!(!has_winner(&empty_board()));
}

#[test]
fn each_triple_wins_for_x() {
    let triples: [[usize; 3]; 8] = [
        [0, 1, 2],
        [3, 4, 5],
        [6, 7, 8],
        [0, 3, 6],
        [1, 4, 7],
        [2, 5, 8],
        [0, 4, 8],
        [2, 4, 6],
    ];
    for t in triples.iter() {
        assert!(has_winner(&board_with(t, &[])));
    }
}

#[test]
fn each_triple_wins_for_o() {
    let triples: [[usize; 3]; 8] = [
        [0, 1, 2],
        [3, 4, 5],
        [6, 7, 8],
        [0, 3, 6],
        [1, 4, 7],
        [2, 5, 8],
        [0, 4, 8],
        [2, 4, 6],
    ];
    for t in triples.iter() {
        assert!(has_winner(&board_with(&[], t)));
    }
}

#[test]
fn mixed_marks_do_not_win() {
    // A line shared between the two players is not a win.
    assert!(!has_winner(&board_with(&[0, 2], &[1])));
    assert!(!has_winner(&board_with(&[4], &[0, 8])));
}

#[test]
fn full_board_without_line_has_no_winner() {
    // X O X / X O O / O X X: no row, column or diagonal is uniform.
    assert!(!has_winner(&board_with(&[0, 2, 3, 7, 8], &[1, 4, 5, 6])));
}

#[test]
fn two_in_a_line_is_not_a_win() {
    assert!(!has_winner(&board_with(&[0, 1], &[])));
}

#[test]
fn update_board_places_mark_on_empty_cell() {
    let b = empty_board();
    let r = update_board(4, Player::X, &b).unwrap();
    assert_eq!(r[4], Cell::Taken(Player::X));
    for i in 0..9usize {
        if i != 4 {
            assert_eq!(r[i], Cell::Empty);
        }
    }
    // The caller's board is untouched: the engine returns a fresh value.
    assert_eq!(b[4], Cell::Empty);
}

#[test]
fn update_board_rejects_occupied_cell() {
    let b = board_with(&[], &[3]);
    let r = update_board(3, Player::X, &b);
    assert_eq!(r, Err(PlayerInputError::AlreadySelected));
    assert_eq!(b[3], Cell::Taken(Player::O));
}

#[test]
fn update_board_rejects_own_mark_too() {
    let b = board_with(&[7], &[]);
    let r = update_board(7, Player::X, &b);
    assert_eq!(r, Err(PlayerInputError::AlreadySelected));
}

#[test]
fn switch_player_alternates() {
    assert_eq!(switch_player(Player::X), Player::O);
    assert_eq!(switch_player(Player::O), Player::X);
}

#[test]
fn cell_labels_of_fresh_board_are_position_numbers() {
    let b = empty_board();
    let want: [char; 9] = ['1', '2', '3', '4', '5', '6', '7', '8', '9'];
    for i in 0..9usize {
        assert_eq!(cell_label(&b, i), want[i]);
    }
}

#[test]
fn cell_labels_show_marks() {
    let b = board_with(&[0], &[8]);
    assert_eq!(cell_label(&b, 0), 'X');
    assert_eq!(cell_label(&b, 8), 'O');
    assert_eq!(cell_label(&b, 4), '5');
}

#[test]
fn clear_screen_is_the_ansi_clear_and_home_sequence() {
    assert_eq!(clear_screen(), "\x1b[2J\x1b[1;1H");
}

#[test]
fn num_error_is_the_generic_retry_prompt() {
    assert_eq!(num_error(), "Expected a number between 1 and 9.");
}
