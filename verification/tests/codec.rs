use tic_tac_toe::dashboard::{Dashboard, DashboardEntry};
use tic_tac_toe::error::TicTacToeError;
use tic_tac_toe::game::{Game, Mark, Outcome};
use tic_tac_toe::program_state::State;
use tic_tac_toe::simple_serde::STATE_LEN;

fn sample_game() -> Game {
    let mut g = Game::create(11, 0);
    g.join(22, 1).unwrap();
    g.next_move(11, 0, 0, 2).unwrap();
    g.next_move(22, 1, 1, 3).unwrap();
    g
}

#[test]
fn round_trip_uninitialized() {
    let mut buf = vec![0xABu8; STATE_LEN];
    State::Uninitialized.serialize(&mut buf).unwrap();
    match State::deserialize(&buf).unwrap() {
        State::Uninitialized => {}
        _ => panic!("wrong variant after round trip"),
    }
}

#[test]
fn round_trip_game() {
    let g = sample_game();
    let mut buf = vec![0u8; STATE_LEN];
    State::Game(sample_game()).serialize(&mut buf).unwrap();
    match State::deserialize(&buf).unwrap() {
        State::Game(g2) => {
            assert_eq!(g2.player_one, g.player_one);
            assert_eq!(g2.player_two, g.player_two);
            assert_eq!(g2.board, g.board);
            assert_eq!(g2.turn, g.turn);
            assert_eq!(g2.outcome, g.outcome);
            assert_eq!(g2.last_activity, g.last_activity);
        }
        _ => panic!("wrong variant after round trip"),
    }
}

#[test]
fn round_trip_dashboard() {
    let mut d = Dashboard::new();
    d.update(100, &sample_game());
    let mut won = sample_game();
    won.next_move(11, 1, 0, 4).unwrap();
    won.next_move(22, 2, 2, 5).unwrap();
    won.next_move(11, 2, 0, 6).unwrap();
    assert_eq!(won.outcome, Outcome::WonBy(Mark::X));
    d.update(200, &won);
    let entries = d.entries.clone();
    let mut buf = vec![0u8; STATE_LEN];
    State::Dashboard(d).serialize(&mut buf).unwrap();
    match State::deserialize(&buf).unwrap() {
        State::Dashboard(d2) => {
            assert_eq!(d2.entries, entries);
            assert_eq!(d2.entries[1].outcome, Outcome::WonBy(Mark::X));
        }
        _ => panic!("wrong variant after round trip"),
    }
}

#[test]
fn encode_too_small_fails_and_leaves_buffer() {
    let mut buf = vec![0x55u8; STATE_LEN - 1];
    let before = buf.clone();
    assert_eq!(
        State::Uninitialized.serialize(&mut buf),
        Err(TicTacToeError::DeserializationFailed)
    );
    assert_eq!(buf, before);
}

#[test]
fn decode_too_small_fails() {
    let buf = vec![0u8; STATE_LEN - 1];
    assert!(matches!(
        State::deserialize(&buf),
        Err(TicTacToeError::DeserializationFailed)
    ));
}

#[test]
fn decode_unknown_tag_fails() {
    let mut buf = vec![0u8; STATE_LEN];
    buf[0] = 9;
    assert!(matches!(
        State::deserialize(&buf),
        Err(TicTacToeError::DeserializationFailed)
    ));
}

#[test]
fn decode_oversized_entry_count_fails() {
    let mut buf = vec![0u8; STATE_LEN];
    buf[0] = 1;
    buf[1] = 9;
    assert!(matches!(
        State::deserialize(&buf),
        Err(TicTacToeError::DeserializationFailed)
    ));
}

#[test]
fn encode_leaves_trailing_bytes_untouched() {
    let mut buf = vec![0u8; STATE_LEN + 8];
    for i in 0..8 {
        buf[STATE_LEN + i] = 0xC0 + i as u8;
    }
    State::Game(sample_game()).serialize(&mut buf).unwrap();
    for i in 0..8 {
        assert_eq!(buf[STATE_LEN + i], 0xC0 + i as u8);
    }
    assert_eq!(buf.len(), STATE_LEN + 8);
}

#[test]
fn all_zero_buffer_decodes_as_uninitialized() {
    let buf = vec![0u8; STATE_LEN];
    assert!(matches!(State::deserialize(&buf), Ok(State::Uninitialized)));
}

#[test]
fn entry_fields_survive_a_round_trip() {
    let mut d = Dashboard::new();
    let g = sample_game();
    d.update(77, &g);
    let entry = DashboardEntry {
        game_id: 77,
        player_one: g.player_one,
        player_two: g.player_two,
        outcome: g.outcome,
        last_activity: g.last_activity,
    };
    let mut buf = vec![0u8; STATE_LEN];
    State::Dashboard(d).serialize(&mut buf).unwrap();
    match State::deserialize(&buf).unwrap() {
        State::Dashboard(d2) => assert_eq!(d2.entries, vec![entry]),
        _ => panic!("wrong variant after round trip"),
    }
}
