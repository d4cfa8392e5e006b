use tic_tac_toe::error::{ProcessError, TicTacToeError};
use tic_tac_toe::game::{Mark, Outcome};
use tic_tac_toe::program_command::Command;
use tic_tac_toe::program_state::State;
use tic_tac_toe::simple_serde::STATE_LEN;
use tic_tac_toe::{process_instruction, Record, LOW_BALANCE_WATERMARK};

const OWNER: u64 = 7;
const DASH_ID: u64 = 100;
const GAME_ID: u64 = 200;
const P1: u64 = 1;
const P2: u64 = 2;

fn fresh_record(id: u64, balance: u64, data_len: usize) -> Record {
    Record { id, owner: OWNER, balance, data: vec![0u8; data_len] }
}

fn initialized_dashboard_record(balance: u64) -> Record {
    let mut records = vec![fresh_record(DASH_ID, balance, STATE_LEN)];
    process_instruction(Command::InitDashboard, &mut records, true, 0).unwrap();
    records.pop().unwrap()
}

#[test]
fn init_dashboard_writes_the_dashboard_tag() {
    let mut records = vec![fresh_record(DASH_ID, 1000, STATE_LEN)];
    assert_eq!(process_instruction(Command::InitDashboard, &mut records, true, 0), Ok(()));
    match State::deserialize(&records[0].data).unwrap() {
        State::Dashboard(d) => assert!(d.entries.is_empty()),
        _ => panic!("dashboard record should decode as a dashboard"),
    }
}

#[test]
fn init_dashboard_twice_fails() {
    let mut records = vec![initialized_dashboard_record(1000)];
    assert_eq!(
        process_instruction(Command::InitDashboard, &mut records, true, 0),
        Err(ProcessError::InvalidArgument)
    );
}

#[test]
fn missing_signer_rejects_the_request() {
    let mut records = vec![fresh_record(DASH_ID, 1000, STATE_LEN)];
    assert_eq!(
        process_instruction(Command::InitDashboard, &mut records, false, 0),
        Err(ProcessError::MissingSigner)
    );
    assert_eq!(records[0].data, vec![0u8; STATE_LEN]);
}

#[test]
fn init_player_tops_the_balance_up_to_the_watermark() {
    let mut records = vec![initialized_dashboard_record(1000), fresh_record(P1, 40, 0)];
    assert_eq!(process_instruction(Command::InitPlayer, &mut records, true, 0), Ok(()));
    assert_eq!(records[1].balance, LOW_BALANCE_WATERMARK);
    assert_eq!(records[0].balance, 1000 - (LOW_BALANCE_WATERMARK - 40));
}

#[test]
fn init_player_leaves_a_funded_balance_alone() {
    let mut records = vec![initialized_dashboard_record(1000), fresh_record(P1, 500, 0)];
    assert_eq!(process_instruction(Command::InitPlayer, &mut records, true, 0), Ok(()));
    assert_eq!(records[1].balance, 500);
    assert_eq!(records[0].balance, 1000);
}

#[test]
fn init_player_fails_when_dashboard_cannot_cover_the_shortfall() {
    let mut records = vec![
        initialized_dashboard_record(LOW_BALANCE_WATERMARK),
        fresh_record(P1, 0, 0),
    ];
    assert_eq!(
        process_instruction(Command::InitPlayer, &mut records, true, 0),
        Err(ProcessError::InvalidArgument)
    );
    // All-or-nothing: nothing was transferred.
    assert_eq!(records[0].balance, LOW_BALANCE_WATERMARK);
    assert_eq!(records[1].balance, 0);
}

#[test]
fn init_player_fails_on_a_used_record() {
    let mut records = vec![initialized_dashboard_record(1000), fresh_record(P1, 400, 4)];
    records[1].data[2] = 1;
    assert_eq!(
        process_instruction(Command::InitPlayer, &mut records, true, 0),
        Err(ProcessError::InvalidArgument)
    );
}

fn set_up_game() -> (Record, Record) {
    // Returns the initialized (game, dashboard) record pair after InitGame
    // with player one followed by Join with player two.
    let dash = initialized_dashboard_record(100_000);
    let game = fresh_record(GAME_ID, 400, STATE_LEN);
    let player1 = fresh_record(P1, 400, 0);
    let mut records = vec![game, dash, player1];
    process_instruction(Command::InitGame, &mut records, true, 0).unwrap();
    let _player1 = records.pop().unwrap();
    let dash = records.pop().unwrap();
    let game = records.pop().unwrap();

    let player2 = fresh_record(P2, 400, 0);
    let mut records = vec![player2, dash, game];
    process_instruction(Command::Join, &mut records, true, 1).unwrap();
    let game = records.pop().unwrap();
    let dash = records.pop().unwrap();
    (game, dash)
}

#[test]
fn init_game_creates_and_registers_the_game() {
    let dash = initialized_dashboard_record(100_000);
    let game = fresh_record(GAME_ID, 400, STATE_LEN);
    let player1 = fresh_record(P1, 400, 0);
    let mut records = vec![game, dash, player1];
    assert_eq!(process_instruction(Command::InitGame, &mut records, true, 5), Ok(()));
    match State::deserialize(&records[0].data).unwrap() {
        State::Game(g) => {
            assert_eq!(g.player_one, P1);
            assert_eq!(g.player_two, None);
            assert_eq!(g.last_activity, 5);
        }
        _ => panic!("game record should decode as a game"),
    }
    match State::deserialize(&records[1].data).unwrap() {
        State::Dashboard(d) => {
            assert_eq!(d.entries.len(), 1);
            assert_eq!(d.entries[0].game_id, GAME_ID);
            assert_eq!(d.entries[0].player_one, P1);
        }
        _ => panic!("dashboard record should still decode as a dashboard"),
    }
}

#[test]
fn init_game_on_a_used_record_fails() {
    let (game, dash) = set_up_game();
    let player1 = fresh_record(P1, 400, 0);
    let mut records = vec![game, dash, player1];
    assert_eq!(
        process_instruction(Command::InitGame, &mut records, true, 2),
        Err(ProcessError::InvalidArgument)
    );
}

#[test]
fn moves_through_the_processor_reach_a_win() {
    let (game, dash) = set_up_game();
    let moves = [
        (P1, 0u8, 0u8),
        (P2, 1, 1),
        (P1, 0, 1),
        (P2, 2, 2),
        (P1, 0, 2),
    ];
    let mut game = game;
    let mut dash = dash;
    for (i, (player, x, y)) in moves.iter().enumerate() {
        let mut records = vec![fresh_record(*player, 400, 0), dash, game];
        assert_eq!(
            process_instruction(Command::Move(*x, *y), &mut records, true, 2 + i as u64),
            Ok(())
        );
        game = records.pop().unwrap();
        dash = records.pop().unwrap();
    }
    match State::deserialize(&game.data).unwrap() {
        State::Game(g) => assert_eq!(g.outcome, Outcome::WonBy(Mark::X)),
        _ => panic!("game record should decode as a game"),
    }
    match State::deserialize(&dash.data).unwrap() {
        State::Dashboard(d) => {
            assert_eq!(d.entries.len(), 1);
            assert_eq!(d.entries[0].outcome, Outcome::WonBy(Mark::X));
        }
        _ => panic!("dashboard record should still decode as a dashboard"),
    }
}

#[test]
fn failed_game_step_leaves_every_record_untouched() {
    let (game, dash) = set_up_game();
    let game_before = game.data.clone();
    let dash_before = dash.data.clone();
    let mut records = vec![fresh_record(P2, 40, 0), dash, game];
    // Player two moves while it is player one's turn.
    assert_eq!(
        process_instruction(Command::Move(0, 0), &mut records, true, 2),
        Err(ProcessError::Game(TicTacToeError::NotYourTurn))
    );
    assert_eq!(records[0].balance, 40);
    assert_eq!(records[1].data, dash_before);
    assert_eq!(records[2].data, game_before);
}

#[test]
fn keep_alive_through_the_processor_updates_the_dashboard() {
    let (game, dash) = set_up_game();
    let mut records = vec![fresh_record(P1, 400, 0), dash, game];
    assert_eq!(process_instruction(Command::KeepAlive, &mut records, true, 9), Ok(()));
    match State::deserialize(&records[2].data).unwrap() {
        State::Game(g) => assert_eq!(g.last_activity, 9),
        _ => panic!("game record should decode as a game"),
    }
    match State::deserialize(&records[1].data).unwrap() {
        State::Dashboard(d) => assert_eq!(d.entries[0].last_activity, 9),
        _ => panic!("dashboard record should still decode as a dashboard"),
    }
}

#[test]
fn advertise_refreshes_the_summary_without_moving() {
    let (game, dash) = set_up_game();
    let game_before = game.data.clone();
    let mut records = vec![fresh_record(P1, 400, 0), dash, game];
    assert_eq!(process_instruction(Command::Advertise, &mut records, true, 3), Ok(()));
    assert_eq!(records[2].data, game_before);
}

#[test]
fn game_command_against_a_wrong_tag_fails() {
    let dash = initialized_dashboard_record(100_000);
    let not_a_game = fresh_record(GAME_ID, 400, STATE_LEN);
    let mut records = vec![fresh_record(P1, 400, 0), dash, not_a_game];
    assert_eq!(
        process_instruction(Command::Join, &mut records, true, 1),
        Err(ProcessError::InvalidArgument)
    );
}

#[test]
fn too_few_records_fail() {
    let mut records = vec![fresh_record(DASH_ID, 1000, STATE_LEN)];
    assert_eq!(
        process_instruction(Command::InitPlayer, &mut records, true, 0),
        Err(ProcessError::NotEnoughRecords)
    );
}

#[test]
fn foreign_owner_fails() {
    let dash = initialized_dashboard_record(100_000);
    let mut stranger = fresh_record(P1, 400, 0);
    stranger.owner = OWNER + 1;
    let mut records = vec![dash, stranger];
    assert_eq!(
        process_instruction(Command::InitPlayer, &mut records, true, 0),
        Err(ProcessError::InvalidArgument)
    );
}

#[test]
fn truncated_record_fails_deserialization() {
    let mut records = vec![fresh_record(DASH_ID, 1000, STATE_LEN - 1)];
    assert_eq!(
        process_instruction(Command::InitDashboard, &mut records, true, 0),
        Err(ProcessError::Game(TicTacToeError::DeserializationFailed))
    );
}
