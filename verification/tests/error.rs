use tic_tac_toe::error::{ProcessError, TicTacToeError};

#[test]
fn error_codes_follow_declaration_order() {
    assert_eq!(TicTacToeError::DeserializationFailed.code(), 0);
    assert_eq!(TicTacToeError::GameInProgress.code(), 1);
    assert_eq!(TicTacToeError::InvalidMove.code(), 2);
    assert_eq!(TicTacToeError::InvalidTimestamp.code(), 3);
    assert_eq!(TicTacToeError::NotYourTurn.code(), 4);
    assert_eq!(TicTacToeError::PlayerNotFound.code(), 5);
}

#[test]
fn error_messages_name_each_kind() {
    assert_eq!(TicTacToeError::DeserializationFailed.message(), "deserialization failed");
    assert_eq!(TicTacToeError::GameInProgress.message(), "game in progress");
    assert_eq!(TicTacToeError::InvalidMove.message(), "invalid move");
    assert_eq!(TicTacToeError::InvalidTimestamp.message(), "invalid timestamp");
    assert_eq!(TicTacToeError::NotYourTurn.message(), "not your turn");
    assert_eq!(TicTacToeError::PlayerNotFound.message(), "player not found");
}

fn return_tittactoe_error_as_program_error() -> ProcessError {
    ProcessError::Game(TicTacToeError::PlayerNotFound)
}

#[test]
fn test_print_error() {
    let error = return_tittactoe_error_as_program_error();
    println!("error: {}", error.message());
}

#[test]
#[should_panic(expected = "PlayerNotFound")]
fn test_error_unwrap() {
    Err::<(), ProcessError>(return_tittactoe_error_as_program_error()).unwrap();
}

#[test]
fn process_errors_carry_the_game_error_message() {
    assert_eq!(ProcessError::MissingSigner.message(), "missing required signature");
    assert_eq!(ProcessError::NotEnoughRecords.message(), "not enough records supplied");
    assert_eq!(ProcessError::InvalidArgument.message(), "invalid argument");
    assert_eq!(
        ProcessError::Game(TicTacToeError::PlayerNotFound).message(),
        "player not found"
    );
}
