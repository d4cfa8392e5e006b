//! Server-side logic of a turn-based, two-player board game whose
//! authoritative state lives in externally managed, byte-addressable records.
//!
//! The crate covers the state-transition protocol: a fixed-layout binary
//! codec with strict size checks, the game state machine, a bounded
//! dashboard of recent games, and the transaction processor that decides,
//! given a typed command and a set of untrusted records, whether a
//! transition is legal and how the records are re-encoded afterwards.
//! The host environment (signer verification, the logical clock, record
//! allocation) stays outside: it hands the processor plain values.

pub mod dashboard;
pub mod error;
pub mod game;
pub mod program_command;
pub mod program_state;
pub mod simple_serde;

use vstd::prelude::*;

use crate::dashboard::{update_spec, Dashboard};
use crate::error::{ProcessError, TicTacToeError};
use crate::game::{
    create_spec, join_spec, keep_alive_spec, next_move_spec, Game, GameV,
};
use crate::program_command::Command;
use crate::program_state::{State, StateV};
use crate::simple_serde::{dec_state, enc_state, STATE_LEN};

verus! {

/// A unit of persistence, as the host supplies it: an identifier, an owner
/// identifier (both opaque, compared for equality only), a balance of
/// funding units, and a byte buffer the codec reads and rewrites.
pub struct Record {
    pub id: u64,
    pub owner: u64,
    pub balance: u64,
    pub data: Vec<u8>,
}

/// Mathematical model of a record.
#[verifier::ext_equal]
pub struct RecordV {
    pub id: u64,
    pub owner: u64,
    pub balance: u64,
    pub data: Seq<u8>,
}

impl View for Record {
    type V = RecordV;

    open spec fn view(&self) -> RecordV {
        RecordV { id: self.id, owner: self.owner, balance: self.balance, data: self.data@ }
    }
}

/// The models of a list of records.
pub open spec fn views(rs: Seq<Record>) -> Seq<RecordV> {
    rs.map_values(|r: Record| r@)
}

/// A buffer counts as empty while every byte of it is zero; a freshly
/// allocated record starts that way.
pub open spec fn all_zero(s: Seq<u8>) -> bool {
    forall|i: int| 0 <= i < s.len() ==> s[i] == 0
}

/// The minimum balance every record must keep; shortfalls are covered out
/// of the dashboard record's balance.
pub const LOW_BALANCE_WATERMARK: u64 = 300;

/// What decoding a record's buffer yields: too-small buffers and
/// undecodable leading bytes fail, anything else is the decoded content.
pub open spec fn dec_record_state(data: Seq<u8>) -> Result<StateV, TicTacToeError> {
    if data.len() < STATE_LEN {
        Err(TicTacToeError::DeserializationFailed)
    } else {
        match dec_state(data.subrange(0, STATE_LEN as int)) {
            Some(s) => Ok(s),
            None => Err(TicTacToeError::DeserializationFailed),
        }
    }
}

/// A record's buffer after re-encoding content `s` over it: the leading
/// bytes replaced, the trailing bytes untouched.
pub open spec fn enc_record_data(data: Seq<u8>, s: StateV) -> Seq<u8> {
    enc_state(s) + data.skip(STATE_LEN as int)
}

/// The funding rule: a target balance below the watermark is topped up to
/// it out of the dashboard balance, unless that transfer would leave the
/// dashboard at zero or below, in which case the request fails.
pub open spec fn fund_spec(dashboard_balance: u64, target_balance: u64) -> Option<(u64, u64)> {
    if target_balance >= LOW_BALANCE_WATERMARK {
        Some((dashboard_balance, target_balance))
    } else {
        let shortfall = LOW_BALANCE_WATERMARK - target_balance;
        if dashboard_balance <= shortfall {
            None
        } else {
            Some(((dashboard_balance - shortfall) as u64, LOW_BALANCE_WATERMARK))
        }
    }
}

/// Installing a dashboard: the record must decode as `Uninitialized`; a
/// fresh empty dashboard is encoded over it.
pub open spec fn process_init_dashboard_spec(recs: Seq<RecordV>) -> Result<
    Seq<RecordV>,
    ProcessError,
> {
    if recs.len() < 1 {
        Err(ProcessError::NotEnoughRecords)
    } else {
        match dec_record_state(recs[0].data) {
            Err(e) => Err(ProcessError::Game(e)),
            Ok(StateV::Uninitialized) => Ok(
                recs.update(
                    0,
                    RecordV {
                        data: enc_record_data(
                            recs[0].data,
                            StateV::Dashboard(Seq::<crate::dashboard::DashboardEntry>::empty()),
                        ),
                        ..recs[0]
                    },
                ),
            ),
            Ok(_) => Err(ProcessError::InvalidArgument),
        }
    }
}

/// Accepting a player record: the dashboard record must already hold a
/// dashboard, the player record must share its owner and still be untouched;
/// the only effect is the funding top-up.
pub open spec fn process_init_player_spec(recs: Seq<RecordV>) -> Result<
    Seq<RecordV>,
    ProcessError,
> {
    if recs.len() < 2 {
        Err(ProcessError::NotEnoughRecords)
    } else {
        match dec_record_state(recs[0].data) {
            Err(e) => Err(ProcessError::Game(e)),
            Ok(StateV::Dashboard(_)) => {
                if recs[0].owner != recs[1].owner || !all_zero(recs[1].data) {
                    Err(ProcessError::InvalidArgument)
                } else {
                    match fund_spec(recs[0].balance, recs[1].balance) {
                        None => Err(ProcessError::InvalidArgument),
                        Some((db, pb)) => Ok(
                            recs.update(0, RecordV { balance: db, ..recs[0] }).update(
                                1,
                                RecordV { balance: pb, ..recs[1] },
                            ),
                        ),
                    }
                }
            },
            Ok(_) => Err(ProcessError::InvalidArgument),
        }
    }
}

/// Creating a game: the target record must be untouched and owned with the
/// dashboard; a fresh game keyed by the player record's identifier is
/// encoded into it and registered in the dashboard; the game and player
/// records are then topped up, in that order.
pub open spec fn process_init_game_spec(recs: Seq<RecordV>, now: u64) -> Result<
    Seq<RecordV>,
    ProcessError,
> {
    if recs.len() < 3 {
        Err(ProcessError::NotEnoughRecords)
    } else {
        match dec_record_state(recs[1].data) {
            Err(e) => Err(ProcessError::Game(e)),
            Ok(StateV::Dashboard(entries)) => {
                if recs[0].owner != recs[1].owner {
                    Err(ProcessError::InvalidArgument)
                } else if recs[0].owner != recs[2].owner || !all_zero(recs[2].data) {
                    Err(ProcessError::InvalidArgument)
                } else {
                    match dec_record_state(recs[0].data) {
                        Err(e) => Err(ProcessError::Game(e)),
                        Ok(StateV::Uninitialized) => {
                            let g = create_spec(recs[2].id, now);
                            let entries2 = update_spec(entries, recs[0].id, g);
                            match fund_spec(recs[1].balance, recs[0].balance) {
                                None => Err(ProcessError::InvalidArgument),
                                Some((db1, gb)) => match fund_spec(db1, recs[2].balance) {
                                    None => Err(ProcessError::InvalidArgument),
                                    Some((db2, pb)) => Ok(
                                        recs.update(
                                            0,
                                            RecordV {
                                                data: enc_record_data(
                                                    recs[0].data,
                                                    StateV::Game(g),
                                                ),
                                                balance: gb,
                                                ..recs[0]
                                            },
                                        ).update(
                                            1,
                                            RecordV {
                                                data: enc_record_data(
                                                    recs[1].data,
                                                    StateV::Dashboard(entries2),
                                                ),
                                                balance: db2,
                                                ..recs[1]
                                            },
                                        ).update(2, RecordV { balance: pb, ..recs[2] }),
                                    ),
                                },
                            }
                        },
                        Ok(_) => Err(ProcessError::InvalidArgument),
                    }
                }
            },
            Ok(_) => Err(ProcessError::InvalidArgument),
        }
    }
}

/// What a game command does to a decoded game; commands that do not act on
/// a game yield nothing.
pub open spec fn game_step_spec(command: Command, g: GameV, player: u64, now: u64) -> Option<
    Result<GameV, TicTacToeError>,
> {
    match command {
        Command::Advertise => Some(Ok(g)),
        Command::Join => Some(join_spec(g, player, now)),
        Command::Move(x, y) => Some(next_move_spec(g, player, x, y, now)),
        Command::KeepAlive => Some(keep_alive_spec(g, player, now)),
        _ => None,
    }
}

/// Acting on a game: the acting player record must be fresh and owned with
/// the dashboard, the target record must hold a game; the game operation
/// runs, the dashboard summary is refreshed, both are re-encoded, and the
/// game and player records are topped up, in that order.
pub open spec fn process_game_command_spec(command: Command, recs: Seq<RecordV>, now: u64) -> Result<
    Seq<RecordV>,
    ProcessError,
> {
    if recs.len() < 3 {
        Err(ProcessError::NotEnoughRecords)
    } else {
        match dec_record_state(recs[1].data) {
            Err(e) => Err(ProcessError::Game(e)),
            Ok(StateV::Dashboard(entries)) => {
                if recs[0].owner != recs[1].owner || !all_zero(recs[0].data) {
                    Err(ProcessError::InvalidArgument)
                } else if recs[1].owner != recs[2].owner {
                    Err(ProcessError::InvalidArgument)
                } else {
                    match dec_record_state(recs[2].data) {
                        Err(e) => Err(ProcessError::Game(e)),
                        Ok(StateV::Game(g)) => {
                            match game_step_spec(command, g, recs[0].id, now) {
                                None => Err(ProcessError::InvalidArgument),
                                Some(Err(e)) => Err(ProcessError::Game(e)),
                                Some(Ok(g2)) => {
                                    let entries2 = update_spec(entries, recs[2].id, g2);
                                    match fund_spec(recs[1].balance, recs[2].balance) {
                                        None => Err(ProcessError::InvalidArgument),
                                        Some((db1, gb)) => match fund_spec(
                                            db1,
                                            recs[0].balance,
                                        ) {
                                            None => Err(ProcessError::InvalidArgument),
                                            Some((db2, pb)) => Ok(
                                                recs.update(
                                                    2,
                                                    RecordV {
                                                        data: enc_record_data(
                                                            recs[2].data,
                                                            StateV::Game(g2),
                                                        ),
                                                        balance: gb,
                                                        ..recs[2]
                                                    },
                                                ).update(
                                                    1,
                                                    RecordV {
                                                        data: enc_record_data(
                                                            recs[1].data,
                                                            StateV::Dashboard(entries2),
                                                        ),
                                                        balance: db2,
                                                        ..recs[1]
                                                    },
                                                ).update(0, RecordV { balance: pb, ..recs[0] }),
                                            ),
                                        },
                                    }
                                },
                            }
                        },
                        Ok(_) => Err(ProcessError::InvalidArgument),
                    }
                }
            },
            Ok(_) => Err(ProcessError::InvalidArgument),
        }
    }
}

/// One whole request: the signer check, then the command's own rule.
/// Failure leaves every record exactly as supplied.
pub open spec fn process_spec(
    command: Command,
    recs: Seq<RecordV>,
    signer: bool,
    now: u64,
) -> Result<Seq<RecordV>, ProcessError> {
    if !signer {
        Err(ProcessError::MissingSigner)
    } else {
        match command {
            Command::InitDashboard => process_init_dashboard_spec(recs),
            Command::InitPlayer => process_init_player_spec(recs),
            Command::InitGame => process_init_game_spec(recs, now),
            _ => process_game_command_spec(command, recs, now),
        }
    }
}

pub proof fn lemma_views_update(rs: Seq<Record>, i: int, r: Record)
    requires
        0 <= i < rs.len(),
    ensures
        views(rs.update(i, r)) == views(rs).update(i, r@),
{
    assert(views(rs.update(i, r)) =~= views(rs).update(i, r@));
}

/// Whether every byte of the buffer is zero.
pub fn data_is_empty(data: &Vec<u8>) -> (r: bool)
    ensures
        r == all_zero(data@),
{
    let mut i: usize = 0;
    while i < data.len()
        invariant
            i <= data@.len(),
            forall|j: int| 0 <= j < i ==> data@[j] == 0,
        decreases data@.len() - i,
    {
        if data[i] != 0 {
            return false;
        }
        i = i + 1;
    }
    true
}

fn clone_bytes(v: &Vec<u8>) -> (r: Vec<u8>)
    ensures
        r@ == v@,
{
    let mut r: Vec<u8> = Vec::new();
    let mut i: usize = 0;
    while i < v.len()
        invariant
            i <= v@.len(),
            r@ == v@.take(i as int),
        decreases v@.len() - i,
    {
        r.push(v[i]);
        proof {
            assert(r@ =~= v@.take(i + 1 as int));
        }
        i = i + 1;
    }
    proof {
        assert(v@.take(v@.len() as int) =~= v@);
    }
    r
}

/// Replace record `i` by the same record with a new buffer and balance.
fn set_record(records: &mut Vec<Record>, i: usize, data: Vec<u8>, balance: u64)
    requires
        i < old(records)@.len(),
    ensures
        final(records)@.len() == old(records)@.len(),
        views(final(records)@) == views(old(records)@).update(
            i as int,
            RecordV { data: data@, balance, ..old(records)@[i as int]@ },
        ),
{
    let r = records.remove(i);
    records.insert(i, Record { id: r.id, owner: r.owner, balance, data });
    proof {
        let r2 = RecordV { data: data@, balance, ..old(records)@[i as int]@ };
        assert(records@ =~= old(records)@.update(
            i as int,
            Record { id: r.id, owner: r.owner, balance, data },
        ));
        lemma_views_update(old(records)@, i as int, records@[i as int]);
        assert(views(records@) =~= views(old(records)@).update(i as int, r2));
    }
}

/// Replace record `i`'s balance.
fn set_balance(records: &mut Vec<Record>, i: usize, balance: u64)
    requires
        i < old(records)@.len(),
    ensures
        final(records)@.len() == old(records)@.len(),
        views(final(records)@) == views(old(records)@).update(
            i as int,
            RecordV { balance, ..old(records)@[i as int]@ },
        ),
{
    let r = records.remove(i);
    records.insert(i, Record { id: r.id, owner: r.owner, balance, data: r.data });
    proof {
        let r2 = RecordV { balance, ..old(records)@[i as int]@ };
        assert(records@ =~= old(records)@.update(i as int, records@[i as int]));
        lemma_views_update(old(records)@, i as int, records@[i as int]);
        assert(views(records@) =~= views(old(records)@).update(i as int, r2));
    }
}

/// Top a balance up to the watermark out of the dashboard balance. The
/// transfer is refused if it would leave the dashboard at zero or below.
pub fn fund_to_cover_rent(dashboard_balance: u64, target_balance: u64) -> (r: Result<
    (u64, u64),
    ProcessError,
>)
    ensures
        match fund_spec(dashboard_balance, target_balance) {
            Some(p) => r == Ok::<(u64, u64), ProcessError>(p),
            None => r == Err::<(u64, u64), ProcessError>(ProcessError::InvalidArgument),
        },
{
    if target_balance >= LOW_BALANCE_WATERMARK {
        return Ok((dashboard_balance, target_balance));
    }
    let shortfall = LOW_BALANCE_WATERMARK - target_balance;
    if dashboard_balance <= shortfall {
        return Err(ProcessError::InvalidArgument);
    }
    Ok((dashboard_balance - shortfall, LOW_BALANCE_WATERMARK))
}

fn process_init_dashboard(records: &mut Vec<Record>) -> (r: Result<(), ProcessError>)
    ensures
        match process_init_dashboard_spec(views(old(records)@)) {
            Ok(rs) => r is Ok && views(final(records)@) == rs,
            Err(e) => r == Err::<(), ProcessError>(e) && final(records)@ == old(records)@,
        },
{
    if records.len() < 1 {
        return Err(ProcessError::NotEnoughRecords);
    }
    let st = match State::deserialize(&records[0].data) {
        Ok(s) => s,
        Err(e) => {
            return Err(ProcessError::Game(e));
        },
    };
    match st {
        State::Uninitialized => {},
        _ => {
            return Err(ProcessError::InvalidArgument);
        },
    }
    let dash = State::Dashboard(Dashboard::new());
    let mut data = clone_bytes(&records[0].data);
    match dash.serialize(&mut data) {
        Ok(_) => {},
        Err(_) => {
            // Decoding this very buffer succeeded, so it is long enough and
            // re-encoding into it cannot fail.
            proof {
                assert(false);
            }
            return Err(ProcessError::InvalidArgument);
        },
    }
    let balance = records[0].balance;
    set_record(records, 0, data, balance);
    Ok(())
}

fn process_init_player(records: &mut Vec<Record>) -> (r: Result<(), ProcessError>)
    ensures
        match process_init_player_spec(views(old(records)@)) {
            Ok(rs) => r is Ok && views(final(records)@) == rs,
            Err(e) => r == Err::<(), ProcessError>(e) && final(records)@ == old(records)@,
        },
{
    if records.len() < 2 {
        return Err(ProcessError::NotEnoughRecords);
    }
    let st = match State::deserialize(&records[0].data) {
        Ok(s) => s,
        Err(e) => {
            return Err(ProcessError::Game(e));
        },
    };
    match st {
        State::Dashboard(_) => {},
        _ => {
            return Err(ProcessError::InvalidArgument);
        },
    }
    if records[0].owner != records[1].owner || !data_is_empty(&records[1].data) {
        return Err(ProcessError::InvalidArgument);
    }
    let (db, pb) = match fund_to_cover_rent(records[0].balance, records[1].balance) {
        Ok(p) => p,
        Err(e) => {
            return Err(e);
        },
    };
    set_balance(records, 0, db);
    let ghost mid = records@;
    set_balance(records, 1, pb);
    proof {
        let ovs = views(old(records)@);
        let a = (RecordV { balance: db, ..ovs[0] });
        let b = (RecordV { balance: pb, ..ovs[1] });
        assert(ovs[0] == old(records)@[0]@);
        assert(ovs[1] == old(records)@[1]@);
        assert(views(mid) == ovs.update(0, a));
        assert(views(mid)[1] == mid[1]@);
        assert(mid[1]@ == ovs[1]);
        assert(views(records@) == views(mid).update(1, (RecordV { balance: pb, ..mid[1]@ })));
        assert(views(records@) =~~= ovs.update(0, a).update(1, b));
        assert(process_init_player_spec(ovs) == Ok::<Seq<RecordV>, ProcessError>(
            ovs.update(0, a).update(1, b),
        ));
        assert(views(records@) =~~= process_init_player_spec(views(old(records)@))->Ok_0);
    }
    Ok(())
}

fn process_init_game(records: &mut Vec<Record>, now: u64) -> (r: Result<(), ProcessError>)
    ensures
        match process_init_game_spec(views(old(records)@), now) {
            Ok(rs) => r is Ok && views(final(records)@) == rs,
            Err(e) => r == Err::<(), ProcessError>(e) && final(records)@ == old(records)@,
        },
{
    if records.len() < 3 {
        return Err(ProcessError::NotEnoughRecords);
    }
    let st = match State::deserialize(&records[1].data) {
        Ok(s) => s,
        Err(e) => {
            return Err(ProcessError::Game(e));
        },
    };
    let mut dashboard = match st {
        State::Dashboard(d) => d,
        _ => {
            return Err(ProcessError::InvalidArgument);
        },
    };
    if records[0].owner != records[1].owner {
        return Err(ProcessError::InvalidArgument);
    }
    if records[0].owner != records[2].owner || !data_is_empty(&records[2].data) {
        return Err(ProcessError::InvalidArgument);
    }
    let game_st = match State::deserialize(&records[0].data) {
        Ok(s) => s,
        Err(e) => {
            return Err(ProcessError::Game(e));
        },
    };
    match game_st {
        State::Uninitialized => {},
        _ => {
            return Err(ProcessError::InvalidArgument);
        },
    }
    let game = Game::create(records[2].id, now);
    dashboard.update(records[0].id, &game);
    let mut game_data = clone_bytes(&records[0].data);
    match State::Game(game).serialize(&mut game_data) {
        Ok(_) => {},
        Err(_) => {
            // Decoding this very buffer succeeded, so it is long enough and
            // re-encoding into it cannot fail.
            proof {
                assert(false);
            }
            return Err(ProcessError::InvalidArgument);
        },
    }
    let mut dash_data = clone_bytes(&records[1].data);
    match State::Dashboard(dashboard).serialize(&mut dash_data) {
        Ok(_) => {},
        Err(_) => {
            // Decoding this very buffer succeeded, so it is long enough and
            // re-encoding into it cannot fail.
            proof {
                assert(false);
            }
            return Err(ProcessError::InvalidArgument);
        },
    }
    let (db1, gb) = match fund_to_cover_rent(records[1].balance, records[0].balance) {
        Ok(p) => p,
        Err(e) => {
            return Err(e);
        },
    };
    let (db2, pb) = match fund_to_cover_rent(db1, records[2].balance) {
        Ok(p) => p,
        Err(e) => {
            return Err(e);
        },
    };
    set_record(records, 0, game_data, gb);
    let ghost mid1 = records@;
    set_record(records, 1, dash_data, db2);
    let ghost mid2 = records@;
    set_balance(records, 2, pb);
    proof {
        let ovs = views(old(records)@);
        let a = (RecordV { data: game_data@, balance: gb, ..ovs[0] });
        let b = (RecordV { data: dash_data@, balance: db2, ..ovs[1] });
        let c = (RecordV { balance: pb, ..ovs[2] });
        assert(ovs[0] == old(records)@[0]@);
        assert(ovs[1] == old(records)@[1]@);
        assert(ovs[2] == old(records)@[2]@);
        assert(views(mid1) == ovs.update(0, a));
        assert(views(mid1)[1] == mid1[1]@);
        assert(mid1[1]@ == ovs[1]);
        assert(views(mid2) == views(mid1).update(1, b));
        assert(views(mid1)[2] == mid1[2]@);
        assert(views(mid2)[2] == mid2[2]@);
        assert(mid2[2]@ == ovs[2]);
        assert(views(records@) == views(mid2).update(2, (RecordV { balance: pb, ..mid2[2]@ })));
        assert(views(records@) =~~= ovs.update(0, a).update(1, b).update(2, c));
        assert(views(records@) =~~= process_init_game_spec(views(old(records)@), now)->Ok_0);
    }
    Ok(())
}

fn process_game_command(command: Command, records: &mut Vec<Record>, now: u64) -> (r: Result<
    (),
    ProcessError,
>)
    ensures
        match process_game_command_spec(command, views(old(records)@), now) {
            Ok(rs) => r is Ok && views(final(records)@) == rs,
            Err(e) => r == Err::<(), ProcessError>(e) && final(records)@ == old(records)@,
        },
{
    if records.len() < 3 {
        return Err(ProcessError::NotEnoughRecords);
    }
    let st = match State::deserialize(&records[1].data) {
        Ok(s) => s,
        Err(e) => {
            return Err(ProcessError::Game(e));
        },
    };
    let mut dashboard = match st {
        State::Dashboard(d) => d,
        _ => {
            return Err(ProcessError::InvalidArgument);
        },
    };
    if records[0].owner != records[1].owner || !data_is_empty(&records[0].data) {
        return Err(ProcessError::InvalidArgument);
    }
    if records[1].owner != records[2].owner {
        return Err(ProcessError::InvalidArgument);
    }
    let game_st = match State::deserialize(&records[2].data) {
        Ok(s) => s,
        Err(e) => {
            return Err(ProcessError::Game(e));
        },
    };
    let mut game = match game_st {
        State::Game(g) => g,
        _ => {
            return Err(ProcessError::InvalidArgument);
        },
    };
    let player = records[0].id;
    let step: Result<(), TicTacToeError> = match command {
        Command::Advertise => Ok(()),
        Command::Join => game.join(player, now),
        Command::Move(x, y) => game.next_move(player, x, y, now),
        Command::KeepAlive => game.keep_alive(player, now),
        _ => {
            return Err(ProcessError::InvalidArgument);
        },
    };
    match step {
        Ok(_) => {},
        Err(e) => {
            return Err(ProcessError::Game(e));
        },
    }
    dashboard.update(records[2].id, &game);
    let mut game_data = clone_bytes(&records[2].data);
    match State::Game(game).serialize(&mut game_data) {
        Ok(_) => {},
        Err(_) => {
            // Decoding this very buffer succeeded, so it is long enough and
            // re-encoding into it cannot fail.
            proof {
                assert(false);
            }
            return Err(ProcessError::InvalidArgument);
        },
    }
    let mut dash_data = clone_bytes(&records[1].data);
    match State::Dashboard(dashboard).serialize(&mut dash_data) {
        Ok(_) => {},
        Err(_) => {
            // Decoding this very buffer succeeded, so it is long enough and
            // re-encoding into it cannot fail.
            proof {
                assert(false);
            }
            return Err(ProcessError::InvalidArgument);
        },
    }
    let (db1, gb) = match fund_to_cover_rent(records[1].balance, records[2].balance) {
        Ok(p) => p,
        Err(e) => {
            return Err(e);
        },
    };
    let (db2, pb) = match fund_to_cover_rent(db1, records[0].balance) {
        Ok(p) => p,
        Err(e) => {
            return Err(e);
        },
    };
    set_record(records, 2, game_data, gb);
    let ghost mid1 = records@;
    set_record(records, 1, dash_data, db2);
    let ghost mid2 = records@;
    set_balance(records, 0, pb);
    proof {
        let ovs = views(old(records)@);
        let a = (RecordV { data: game_data@, balance: gb, ..ovs[2] });
        let b = (RecordV { data: dash_data@, balance: db2, ..ovs[1] });
        let c = (RecordV { balance: pb, ..ovs[0] });
        assert(ovs[0] == old(records)@[0]@);
        assert(ovs[1] == old(records)@[1]@);
        assert(ovs[2] == old(records)@[2]@);
        assert(views(mid1) == ovs.update(2, a));
        assert(views(mid1)[1] == mid1[1]@);
        assert(mid1[1]@ == ovs[1]);
        assert(views(mid2) == views(mid1).update(1, b));
        assert(views(mid1)[0] == mid1[0]@);
        assert(views(mid2)[0] == mid2[0]@);
        assert(mid2[0]@ == ovs[0]);
        assert(views(records@) == views(mid2).update(0, (RecordV { balance: pb, ..mid2[0]@ })));
        assert(views(records@) =~~= ovs.update(2, a).update(1, b).update(0, c));
        assert(views(records@) =~~= process_game_command_spec(
            command,
            views(old(records)@),
            now,
        )->Ok_0);
    }
    Ok(())
}

/// One whole request against the supplied records. On success the mutated
/// records hold exactly what `process_spec` prescribes; on failure the
/// records are left exactly as supplied — no partial write ever happens.
pub fn process_instruction(
    command: Command,
    records: &mut Vec<Record>,
    signer: bool,
    now: u64,
) -> (r: Result<(), ProcessError>)
    ensures
        match process_spec(command, views(old(records)@), signer, now) {
            Ok(rs) => r is Ok && views(final(records)@) == rs,
            Err(e) => r == Err::<(), ProcessError>(e) && final(records)@ == old(records)@,
        },
{
    if !signer {
        return Err(ProcessError::MissingSigner);
    }
    match command {
        Command::InitDashboard => process_init_dashboard(records),
        Command::InitPlayer => process_init_player(records),
        Command::InitGame => process_init_game(records, now),
        _ => process_game_command(command, records, now),
    }
}

} // verus!
