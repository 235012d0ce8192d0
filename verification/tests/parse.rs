use tictactoe::input::parse_move;
use tictactoe::input::PlayerInputError;

#[test]
fn plain_digits_parse_to_zero_based_indices() {
    assert_eq!(parse_move("1"), Ok(0));
    assert_eq!(parse_move("5"), Ok(4));
    assert_eq!(parse_move("9"), Ok(8));
}

#[test]
fn surrounding_whitespace_is_ignored() {
    assert_eq!(parse_move("5\n"), Ok(4));
    assert_eq!(parse_move("  7  "), Ok(6));
    assert_eq!(parse_move("\t3\r\n"), Ok(2));
}

#[test]
fn leading_plus_and_zeros_are_accepted() {
    assert_eq!(parse_move("+7"), Ok(6));
    assert_eq!(parse_move("007"), Ok(6));
}

#[test]
fn ten_is_out_of_range() {
    assert_eq!(parse_move("10"), Err(PlayerInputError::OutOfRange));
}

#[test]
fn zero_is_out_of_range() {
    assert_eq!(parse_move("0"), Err(PlayerInputError::OutOfRange));
}

#[test]
fn large_numbers_are_out_of_range() {
    assert_eq!(parse_move("1000000"), Err(PlayerInputError::OutOfRange));
}

#[test]
fn text_is_not_a_number() {
    assert_eq!(parse_move("abc"), Err(PlayerInputError::NotANumber));
}

#[test]
fn empty_input_is_not_a_number() {
    assert_eq!(parse_move(""), Err(PlayerInputError::NotANumber));
    assert_eq!(parse_move("   \n"), Err(PlayerInputError::NotANumber));
}

#[test]
fn sign_alone_is_not_a_number() {
    assert_eq!(parse_move("+"), Err(PlayerInputError::NotANumber));
}

#[test]
fn negative_numbers_are_not_unsigned() {
    assert_eq!(parse_move("-3"), Err(PlayerInputError::NotANumber));
}

#[test]
fn inner_whitespace_is_not_a_number() {
    assert_eq!(parse_move("4 2"), Err(PlayerInputError::NotANumber));
}

#[test]
fn numbers_too_large_for_usize_are_not_numbers() {
    assert_eq!(
        parse_move("99999999999999999999999999999999"),
        Err(PlayerInputError::NotANumber)
    );
}

#[test]
fn mixed_digits_and_letters_are_not_a_number() {
    assert_eq!(parse_move("5x"), Err(PlayerInputError::NotANumber));
}
