use vstd::bytes::*;
use vstd::prelude::*;

use crate::dashboard::{Dashboard, DashboardEntry, DASHBOARD_CAPACITY};
use crate::error::TicTacToeError;
use crate::game::{Cell, Game, GameV, Mark, Outcome};
use crate::program_state::{wf_state, State, StateV};

verus! {

/// Encoded size of one dashboard entry.
pub const ENTRY_LEN: usize = 35;

/// Encoded size of a game, within a state buffer.
pub const GAME_LEN: usize = 37;

/// Encoded size of a dashboard (count byte plus capacity slots), within a
/// state buffer.
pub const DASHBOARD_LEN: usize = 1 + 8 * 35;

/// Encoded size of a record's content: one tag byte followed by the largest
/// variant, zero-padded. Every record buffer must hold at least this many
/// bytes; trailing bytes are never touched.
pub const STATE_LEN: usize = 1 + 1 + 8 * 35;

pub open spec fn zero_bytes(n: int) -> Seq<u8> {
    Seq::new(n as nat, |i: int| 0u8)
}

// Field layouts. Every multi-byte integer is little-endian; an optional
// player is a presence byte followed by the eight value bytes (zero when
// absent); a cell and a mark are one byte; an outcome is a tag byte plus
// one payload byte (zero when unused).
pub open spec fn enc_opt_player(p: Option<u64>) -> Seq<u8> {
    match p {
        None => seq![0u8] + spec_u64_to_le_bytes(0),
        Some(v) => seq![1u8] + spec_u64_to_le_bytes(v),
    }
}

pub open spec fn dec_opt_player(s: Seq<u8>) -> Option<Option<u64>> {
    if s[0] == 0 {
        Some(None)
    } else if s[0] == 1 {
        Some(Some(spec_u64_from_le_bytes(s.subrange(1, 9))))
    } else {
        None
    }
}

pub open spec fn cell_byte(c: Cell) -> u8 {
    match c {
        Cell::Empty => 0,
        Cell::PlayerX => 1,
        Cell::PlayerO => 2,
    }
}

pub open spec fn dec_cell(b: u8) -> Option<Cell> {
    if b == 0 {
        Some(Cell::Empty)
    } else if b == 1 {
        Some(Cell::PlayerX)
    } else if b == 2 {
        Some(Cell::PlayerO)
    } else {
        None
    }
}

pub open spec fn mark_byte(m: Mark) -> u8 {
    match m {
        Mark::X => 1,
        Mark::O => 2,
    }
}

pub open spec fn dec_mark(b: u8) -> Option<Mark> {
    if b == 1 {
        Some(Mark::X)
    } else if b == 2 {
        Some(Mark::O)
    } else {
        None
    }
}

pub open spec fn enc_outcome(o: Outcome) -> Seq<u8> {
    match o {
        Outcome::InProgress => seq![0u8, 0u8],
        Outcome::WonBy(m) => seq![1u8, mark_byte(m)],
        Outcome::Draw => seq![2u8, 0u8],
    }
}

pub open spec fn dec_outcome(s: Seq<u8>) -> Option<Outcome> {
    if s[0] == 0 {
        Some(Outcome::InProgress)
    } else if s[0] == 1 {
        match dec_mark(s[1]) {
            Some(m) => Some(Outcome::WonBy(m)),
            None => None,
        }
    } else if s[0] == 2 {
        Some(Outcome::Draw)
    } else {
        None
    }
}

pub open spec fn enc_board(b: Seq<Cell>) -> Seq<u8> {
    Seq::new(9, |i: int| cell_byte(b[i]))
}

pub open spec fn board_bytes_ok(s: Seq<u8>) -> bool {
    forall|i: int| 0 <= i < 9 ==> dec_cell(s[i]) is Some
}

pub open spec fn dec_board(s: Seq<u8>) -> Seq<Cell> {
    Seq::new(
        9,
        |i: int|
            match dec_cell(s[i]) {
                Some(c) => c,
                None => Cell::Empty,
            },
    )
}

/// A game, encoded: first player, optional second player, the nine cells,
/// the turn, the outcome, the last activity timestamp.
pub open spec fn enc_game(g: GameV) -> Seq<u8> {
    spec_u64_to_le_bytes(g.player_one) + enc_opt_player(g.player_two) + enc_board(g.board)
        + seq![mark_byte(g.turn)] + enc_outcome(g.outcome) + spec_u64_to_le_bytes(g.last_activity)
}

pub open spec fn dec_game(s: Seq<u8>) -> Option<GameV> {
    match (dec_opt_player(s.subrange(8, 17)), dec_mark(s[26]), dec_outcome(s.subrange(27, 29))) {
        (Some(p2), Some(turn), Some(oc)) => if board_bytes_ok(s.subrange(17, 26)) {
            Some(
                GameV {
                    player_one: spec_u64_from_le_bytes(s.subrange(0, 8)),
                    player_two: p2,
                    board: dec_board(s.subrange(17, 26)),
                    turn,
                    outcome: oc,
                    last_activity: spec_u64_from_le_bytes(s.subrange(29, 37)),
                },
            )
        } else {
            None
        },
        _ => None,
    }
}

/// A dashboard entry, encoded: game identifier, first player, optional
/// second player, outcome, last activity timestamp.
pub open spec fn enc_entry(e: DashboardEntry) -> Seq<u8> {
    spec_u64_to_le_bytes(e.game_id) + spec_u64_to_le_bytes(e.player_one) + enc_opt_player(
        e.player_two,
    ) + enc_outcome(e.outcome) + spec_u64_to_le_bytes(e.last_activity)
}

pub open spec fn dec_entry(s: Seq<u8>) -> Option<DashboardEntry> {
    match (dec_opt_player(s.subrange(16, 25)), dec_outcome(s.subrange(25, 27))) {
        (Some(p2), Some(oc)) => Some(
            DashboardEntry {
                game_id: spec_u64_from_le_bytes(s.subrange(0, 8)),
                player_one: spec_u64_from_le_bytes(s.subrange(8, 16)),
                player_two: p2,
                outcome: oc,
                last_activity: spec_u64_from_le_bytes(s.subrange(27, 35)),
            },
        ),
        _ => None,
    }
}

pub open spec fn enc_entries(es: Seq<DashboardEntry>) -> Seq<u8>
    decreases es.len(),
{
    if es.len() == 0 {
        Seq::empty()
    } else {
        enc_entry(es[0]) + enc_entries(es.drop_first())
    }
}

/// A dashboard, encoded: entry count, the entries in order, zero padding up
/// to the capacity.
pub open spec fn enc_dashboard(es: Seq<DashboardEntry>) -> Seq<u8> {
    seq![es.len() as u8] + enc_entries(es) + zero_bytes(
        (DASHBOARD_CAPACITY - es.len()) * ENTRY_LEN,
    )
}

pub open spec fn entry_slice(s: Seq<u8>, i: int) -> Seq<u8> {
    s.subrange(1 + i * 35, 1 + i * 35 + 35)
}

pub open spec fn dec_dashboard(s: Seq<u8>) -> Option<Seq<DashboardEntry>> {
    let n = s[0] as int;
    if n > DASHBOARD_CAPACITY {
        None
    } else if forall|i: int| 0 <= i < n ==> dec_entry(#[trigger] entry_slice(s, i)) is Some {
        Some(
            Seq::new(
                n as nat,
                |i: int|
                    match dec_entry(entry_slice(s, i)) {
                        Some(e) => e,
                        None => DashboardEntry {
                            game_id: 0,
                            player_one: 0,
                            player_two: None,
                            outcome: Outcome::InProgress,
                            last_activity: 0,
                        },
                    },
            ),
        )
    } else {
        None
    }
}

/// A record's content, encoded: the authoritative tag byte, then the
/// variant's fixed layout, zero-padded to `STATE_LEN`.
pub open spec fn enc_state(s: StateV) -> Seq<u8> {
    match s {
        StateV::Uninitialized => seq![0u8] + zero_bytes(DASHBOARD_LEN as int),
        StateV::Dashboard(es) => seq![1u8] + enc_dashboard(es),
        StateV::Game(g) => seq![2u8] + enc_game(g) + zero_bytes(DASHBOARD_LEN - GAME_LEN),
    }
}

pub open spec fn dec_state(s: Seq<u8>) -> Option<StateV> {
    if s[0] == 0 {
        Some(StateV::Uninitialized)
    } else if s[0] == 1 {
        match dec_dashboard(s.subrange(1, 1 + DASHBOARD_LEN as int)) {
            Some(es) => Some(StateV::Dashboard(es)),
            None => None,
        }
    } else if s[0] == 2 {
        match dec_game(s.subrange(1, 1 + GAME_LEN as int)) {
            Some(g) => Some(StateV::Game(g)),
            None => None,
        }
    } else {
        None
    }
}

// ---------------------------------------------------------------------------
// Length and round-trip facts.
// ---------------------------------------------------------------------------
pub proof fn lemma_enc_opt_player_len(p: Option<u64>)
    ensures
        enc_opt_player(p).len() == 9,
{
    lemma_auto_spec_u64_to_from_le_bytes();
}

pub proof fn lemma_enc_outcome_len(o: Outcome)
    ensures
        enc_outcome(o).len() == 2,
{
}

pub proof fn lemma_enc_entry_len(e: DashboardEntry)
    ensures
        enc_entry(e).len() == ENTRY_LEN,
{
    lemma_auto_spec_u64_to_from_le_bytes();
    lemma_enc_opt_player_len(e.player_two);
    lemma_enc_outcome_len(e.outcome);
}

pub proof fn lemma_enc_game_len(g: GameV)
    ensures
        enc_game(g).len() == GAME_LEN,
{
    lemma_auto_spec_u64_to_from_le_bytes();
    lemma_enc_opt_player_len(g.player_two);
    lemma_enc_outcome_len(g.outcome);
}

pub proof fn lemma_enc_entries_len(es: Seq<DashboardEntry>)
    ensures
        enc_entries(es).len() == ENTRY_LEN * es.len(),
    decreases es.len(),
{
    if es.len() == 0 {
    } else {
        lemma_enc_entry_len(es[0]);
        lemma_enc_entries_len(es.drop_first());
    }
}

pub proof fn lemma_enc_dashboard_len(es: Seq<DashboardEntry>)
    requires
        es.len() <= DASHBOARD_CAPACITY,
    ensures
        enc_dashboard(es).len() == DASHBOARD_LEN,
{
    lemma_enc_entries_len(es);
}

pub proof fn lemma_enc_state_len(s: StateV)
    requires
        wf_state(s),
    ensures
        enc_state(s).len() == STATE_LEN,
{
    match s {
        StateV::Uninitialized => {},
        StateV::Dashboard(es) => {
            lemma_enc_dashboard_len(es);
        },
        StateV::Game(g) => {
            lemma_enc_game_len(g);
        },
    }
}

pub proof fn lemma_opt_player_round_trip(p: Option<u64>)
    ensures
        dec_opt_player(enc_opt_player(p)) == Some(p),
{
    lemma_auto_spec_u64_to_from_le_bytes();
    match p {
        None => {},
        Some(v) => {
            assert(enc_opt_player(p).subrange(1, 9) =~= spec_u64_to_le_bytes(v));
        },
    }
}

pub proof fn lemma_outcome_round_trip(o: Outcome)
    ensures
        dec_outcome(enc_outcome(o)) == Some(o),
{
}

pub proof fn lemma_entry_round_trip(e: DashboardEntry)
    ensures
        dec_entry(enc_entry(e)) == Some(e),
{
    lemma_auto_spec_u64_to_from_le_bytes();
    lemma_enc_opt_player_len(e.player_two);
    lemma_enc_outcome_len(e.outcome);
    lemma_opt_player_round_trip(e.player_two);
    lemma_outcome_round_trip(e.outcome);
    let s = enc_entry(e);
    assert(s.subrange(0, 8) =~= spec_u64_to_le_bytes(e.game_id));
    assert(s.subrange(8, 16) =~= spec_u64_to_le_bytes(e.player_one));
    assert(s.subrange(16, 25) =~= enc_opt_player(e.player_two));
    assert(s.subrange(25, 27) =~= enc_outcome(e.outcome));
    assert(s.subrange(27, 35) =~= spec_u64_to_le_bytes(e.last_activity));
}

pub proof fn lemma_game_round_trip(g: GameV)
    requires
        g.board.len() == 9,
    ensures
        dec_game(enc_game(g)) == Some(g),
{
    lemma_auto_spec_u64_to_from_le_bytes();
    lemma_enc_opt_player_len(g.player_two);
    lemma_enc_outcome_len(g.outcome);
    lemma_opt_player_round_trip(g.player_two);
    lemma_outcome_round_trip(g.outcome);
    let s = enc_game(g);
    assert(s.subrange(0, 8) =~= spec_u64_to_le_bytes(g.player_one));
    assert(s.subrange(8, 17) =~= enc_opt_player(g.player_two));
    assert(s.subrange(17, 26) =~= enc_board(g.board));
    assert(s[26] == mark_byte(g.turn));
    assert(s.subrange(27, 29) =~= enc_outcome(g.outcome));
    assert(s.subrange(29, 37) =~= spec_u64_to_le_bytes(g.last_activity));
    assert forall|i: int| 0 <= i < 9 implies dec_cell(#[trigger] enc_board(g.board)[i])
        == Some(g.board[i]) by {
        assert(enc_board(g.board)[i] == cell_byte(g.board[i]));
    }
    assert(dec_board(enc_board(g.board)) =~= g.board);
    assert(dec_mark(mark_byte(g.turn)) == Some(g.turn));
}

pub proof fn lemma_enc_entries_index(es: Seq<DashboardEntry>, i: int)
    requires
        0 <= i < es.len(),
    ensures
        enc_entries(es).subrange(ENTRY_LEN * i, ENTRY_LEN * i + ENTRY_LEN) == enc_entry(es[i]),
    decreases i,
{
    lemma_enc_entries_len(es);
    lemma_enc_entry_len(es[0]);
    lemma_enc_entries_len(es.drop_first());
    if i == 0 {
        assert(enc_entries(es).subrange(0, 35) =~= enc_entry(es[0]));
    } else {
        lemma_enc_entries_index(es.drop_first(), i - 1);
        lemma_enc_entry_len(es[i]);
        assert(es.drop_first()[i - 1] == es[i]);
        assert(enc_entries(es).subrange(35 * i, 35 * i + 35) =~= enc_entries(
            es.drop_first(),
        ).subrange(35 * (i - 1), 35 * (i - 1) + 35));
    }
}

pub proof fn lemma_dashboard_round_trip(es: Seq<DashboardEntry>)
    requires
        es.len() <= DASHBOARD_CAPACITY,
    ensures
        dec_dashboard(enc_dashboard(es)) == Some(es),
{
    lemma_enc_entries_len(es);
    lemma_enc_dashboard_len(es);
    let s = enc_dashboard(es);
    assert(s[0] == es.len() as u8);
    assert forall|i: int| 0 <= i < es.len() implies dec_entry(#[trigger] entry_slice(s, i))
        == Some(es[i]) by {
        lemma_enc_entries_index(es, i);
        lemma_enc_entry_len(es[i]);
        assert(entry_slice(s, i) =~= enc_entries(es).subrange(35 * i, 35 * i + 35));
        lemma_entry_round_trip(es[i]);
    }
    assert(dec_dashboard(s)->Some_0 =~= es);
}

/// Law: the codec round-trips. Decoding what `encode` wrote into an
/// adequately sized buffer yields exactly the value that was encoded.
pub proof fn lemma_state_round_trip(s: StateV)
    requires
        wf_state(s),
    ensures
        dec_state(enc_state(s)) == Some(s),
{
    lemma_enc_state_len(s);
    let b = enc_state(s);
    match s {
        StateV::Uninitialized => {},
        StateV::Dashboard(es) => {
            lemma_enc_dashboard_len(es);
            assert(b.subrange(1, 1 + DASHBOARD_LEN as int) =~= enc_dashboard(es));
            lemma_dashboard_round_trip(es);
        },
        StateV::Game(g) => {
            lemma_enc_game_len(g);
            assert(b.subrange(1, 1 + GAME_LEN as int) =~= enc_game(g));
            lemma_game_round_trip(g);
        },
    }
}

// ---------------------------------------------------------------------------
// Executable encoding.
// ---------------------------------------------------------------------------
fn push_zeros(out: &mut Vec<u8>, n: usize)
    ensures
        final(out)@ == old(out)@ + zero_bytes(n as int),
{
    let mut i: usize = 0;
    while i < n
        invariant
            i <= n,
            out@ == old(out)@ + zero_bytes(i as int),
        decreases n - i,
    {
        out.push(0);
        proof {
            assert(out@ =~= old(out)@ + zero_bytes(i + 1 as int));
        }
        i = i + 1;
    }
}

fn push_u64(out: &mut Vec<u8>, v: u64)
    ensures
        final(out)@ == old(out)@ + spec_u64_to_le_bytes(v),
{
    let mut bytes = u64_to_le_bytes(v);
    out.append(&mut bytes);
}

fn push_opt_player(out: &mut Vec<u8>, p: &Option<u64>)
    ensures
        final(out)@ == old(out)@ + enc_opt_player(*p),
{
    match p {
        None => {
            out.push(0);
            push_u64(out, 0);
        },
        Some(v) => {
            out.push(1);
            push_u64(out, *v);
        },
    }
    proof {
        assert(out@ =~= old(out)@ + enc_opt_player(*p));
    }
}

fn push_outcome(out: &mut Vec<u8>, o: &Outcome)
    ensures
        final(out)@ == old(out)@ + enc_outcome(*o),
{
    match o {
        Outcome::InProgress => {
            out.push(0);
            out.push(0);
        },
        Outcome::WonBy(m) => {
            out.push(1);
            match m {
                Mark::X => out.push(1),
                Mark::O => out.push(2),
            }
        },
        Outcome::Draw => {
            out.push(2);
            out.push(0);
        },
    }
    proof {
        assert(out@ =~= old(out)@ + enc_outcome(*o));
    }
}

fn push_entry(out: &mut Vec<u8>, e: &DashboardEntry)
    ensures
        final(out)@ == old(out)@ + enc_entry(*e),
{
    push_u64(out, e.game_id);
    push_u64(out, e.player_one);
    push_opt_player(out, &e.player_two);
    push_outcome(out, &e.outcome);
    push_u64(out, e.last_activity);
    proof {
        assert(out@ =~= old(out)@ + enc_entry(*e));
    }
}

fn push_game(out: &mut Vec<u8>, g: &Game)
    requires
        g@.board.len() == 9,
    ensures
        final(out)@ == old(out)@ + enc_game(g@),
{
    push_u64(out, g.player_one);
    push_opt_player(out, &g.player_two);
    let mut i: usize = 0;
    let ghost after_players = out@;
    while i < 9
        invariant
            i <= 9,
            g@.board.len() == 9,
            g.board@ == g@.board,
            out@ == after_players + enc_board(g@.board).take(i as int),
        decreases 9 - i,
    {
        match g.board[i] {
            Cell::Empty => out.push(0),
            Cell::PlayerX => out.push(1),
            Cell::PlayerO => out.push(2),
        }
        proof {
            assert(out@ =~= after_players + enc_board(g@.board).take(i + 1 as int));
        }
        i = i + 1;
    }
    proof {
        assert(enc_board(g@.board).take(9) =~= enc_board(g@.board));
    }
    match g.turn {
        Mark::X => out.push(1),
        Mark::O => out.push(2),
    }
    push_outcome(out, &g.outcome);
    push_u64(out, g.last_activity);
    proof {
        assert(out@ =~= old(out)@ + enc_game(g@));
    }
}

pub proof fn lemma_enc_entries_snoc(es: Seq<DashboardEntry>, i: int)
    requires
        0 <= i < es.len(),
    ensures
        enc_entries(es.take(i + 1)) == enc_entries(es.take(i)) + enc_entry(es[i]),
    decreases i,
{
    if i == 0 {
        assert(es.take(1) =~= seq![es[0]]);
        assert(es.take(1).drop_first() =~= Seq::<DashboardEntry>::empty());
        assert(es.take(0) =~= Seq::<DashboardEntry>::empty());
        assert(es.take(1)[0] == es[0]);
        assert(enc_entries(es.take(1).drop_first()) == Seq::<u8>::empty());
        assert(enc_entries(es.take(1)) == enc_entry(es[0]) + Seq::<u8>::empty());
        assert(enc_entries(es.take(1)) =~= enc_entries(es.take(0)) + enc_entry(es[0]));
    } else {
        lemma_enc_entries_snoc(es.drop_first(), i - 1);
        assert(es.take(i + 1)[0] == es[0]);
        assert(es.take(i)[0] == es[0]);
        assert(es.take(i + 1).drop_first() =~= es.drop_first().take(i));
        assert(es.take(i).drop_first() =~= es.drop_first().take(i - 1));
        assert(es.drop_first()[i - 1] == es[i]);
        assert(enc_entries(es.take(i + 1)) =~= enc_entries(es.take(i)) + enc_entry(es[i]));
    }
}

// ---------------------------------------------------------------------------
// Executable decoding.
// ---------------------------------------------------------------------------
fn read_u64_at(v: &Vec<u8>, off: usize) -> (x: u64)
    requires
        off + 8 <= v.len(),
    ensures
        x == spec_u64_from_le_bytes(v@.subrange(off as int, off + 8)),
{
    let s = vstd::slice::slice_subrange(v.as_slice(), off, off + 8);
    u64_from_le_bytes(s)
}

fn decode_opt_player_at(v: &Vec<u8>, off: usize) -> (r: Result<Option<u64>, TicTacToeError>)
    requires
        off + 9 <= v.len(),
    ensures
        match dec_opt_player(v@.subrange(off as int, off + 9)) {
            Some(p) => r == Ok::<Option<u64>, TicTacToeError>(p),
            None => r == Err::<Option<u64>, TicTacToeError>(TicTacToeError::DeserializationFailed),
        },
{
    proof {
        assert(v@.subrange(off as int, off + 9)[0] == v@[off as int]);
        assert(v@.subrange(off as int, off + 9).subrange(1, 9) =~= v@.subrange(
            off + 1,
            off + 9,
        ));
    }
    let tag = v[off];
    if tag == 0 {
        Ok(None)
    } else if tag == 1 {
        Ok(Some(read_u64_at(v, off + 1)))
    } else {
        Err(TicTacToeError::DeserializationFailed)
    }
}

fn decode_outcome_at(v: &Vec<u8>, off: usize) -> (r: Result<Outcome, TicTacToeError>)
    requires
        off + 2 <= v.len(),
    ensures
        match dec_outcome(v@.subrange(off as int, off + 2)) {
            Some(o) => r == Ok::<Outcome, TicTacToeError>(o),
            None => r == Err::<Outcome, TicTacToeError>(TicTacToeError::DeserializationFailed),
        },
{
    proof {
        assert(v@.subrange(off as int, off + 2)[0] == v@[off as int]);
        assert(v@.subrange(off as int, off + 2)[1] == v@[off + 1]);
    }
    let tag = v[off];
    if tag == 0 {
        Ok(Outcome::InProgress)
    } else if tag == 1 {
        let m = v[off + 1];
        if m == 1 {
            Ok(Outcome::WonBy(Mark::X))
        } else if m == 2 {
            Ok(Outcome::WonBy(Mark::O))
        } else {
            Err(TicTacToeError::DeserializationFailed)
        }
    } else if tag == 2 {
        Ok(Outcome::Draw)
    } else {
        Err(TicTacToeError::DeserializationFailed)
    }
}

fn decode_entry_at(v: &Vec<u8>, off: usize) -> (r: Result<DashboardEntry, TicTacToeError>)
    requires
        off + ENTRY_LEN <= v.len(),
    ensures
        match dec_entry(v@.subrange(off as int, off + ENTRY_LEN)) {
            Some(e) => r == Ok::<DashboardEntry, TicTacToeError>(e),
            None => r == Err::<DashboardEntry, TicTacToeError>(
                TicTacToeError::DeserializationFailed,
            ),
        },
{
    let ghost s = v@.subrange(off as int, off + ENTRY_LEN);
    proof {
        assert(s.subrange(0, 8) =~= v@.subrange(off as int, off + 8));
        assert(s.subrange(8, 16) =~= v@.subrange(off + 8, off + 16));
        assert(s.subrange(16, 25) =~= v@.subrange(off + 16, off + 25));
        assert(s.subrange(25, 27) =~= v@.subrange(off + 25, off + 27));
        assert(s.subrange(27, 35) =~= v@.subrange(off + 27, off + 35));
    }
    let game_id = read_u64_at(v, off);
    let player_one = read_u64_at(v, off + 8);
    let player_two = match decode_opt_player_at(v, off + 16) {
        Ok(p) => p,
        Err(e) => {
            return Err(e);
        },
    };
    let outcome = match decode_outcome_at(v, off + 25) {
        Ok(o) => o,
        Err(e) => {
            return Err(e);
        },
    };
    let last_activity = read_u64_at(v, off + 27);
    Ok(DashboardEntry { game_id, player_one, player_two, outcome, last_activity })
}

fn decode_game_at(v: &Vec<u8>, off: usize) -> (r: Result<Game, TicTacToeError>)
    requires
        off + GAME_LEN <= v.len(),
    ensures
        match dec_game(v@.subrange(off as int, off + GAME_LEN)) {
            Some(gv) => r is Ok && r->Ok_0@ == gv && gv.board.len() == 9,
            None => r == Err::<Game, TicTacToeError>(TicTacToeError::DeserializationFailed),
        },
{
    let ghost s = v@.subrange(off as int, off + GAME_LEN);
    proof {
        assert(s.subrange(0, 8) =~= v@.subrange(off as int, off + 8));
        assert(s.subrange(8, 17) =~= v@.subrange(off + 8, off + 17));
        assert(s.subrange(17, 26) =~= v@.subrange(off + 17, off + 26));
        assert(s[26] == v@[off + 26]);
        assert(s.subrange(27, 29) =~= v@.subrange(off + 27, off + 29));
        assert(s.subrange(29, 37) =~= v@.subrange(off + 29, off + 37));
    }
    let player_one = read_u64_at(v, off);
    let player_two = match decode_opt_player_at(v, off + 8) {
        Ok(p) => p,
        Err(e) => {
            return Err(e);
        },
    };
    let mut board: Vec<Cell> = Vec::new();
    let mut i: usize = 0;
    while i < 9
        invariant
            i <= 9,
            off + GAME_LEN <= v.len(),
            s == v@.subrange(off as int, off + GAME_LEN),
            forall|j: int| 0 <= j < i ==> dec_cell(s.subrange(17, 26)[j]) is Some,
            board@.len() == i,
            forall|j: int|
                0 <= j < i ==> Some(#[trigger] board@[j]) == dec_cell(s.subrange(17, 26)[j]),
        decreases 9 - i,
    {
        proof {
            assert(s.subrange(17, 26)[i as int] == v@[off + 17 + i]);
        }
        let b = v[off + 17 + i];
        if b == 0 {
            board.push(Cell::Empty);
        } else if b == 1 {
            board.push(Cell::PlayerX);
        } else if b == 2 {
            board.push(Cell::PlayerO);
        } else {
            proof {
                assert(dec_cell(s.subrange(17, 26)[i as int]) is None);
                assert(!board_bytes_ok(s.subrange(17, 26)));
            }
            return Err(TicTacToeError::DeserializationFailed);
        }
        i = i + 1;
    }
    proof {
        assert(board_bytes_ok(s.subrange(17, 26)));
        assert(board@ =~= dec_board(s.subrange(17, 26)));
    }
    let turn_byte = v[off + 26];
    let turn = if turn_byte == 1 {
        Mark::X
    } else if turn_byte == 2 {
        Mark::O
    } else {
        return Err(TicTacToeError::DeserializationFailed);
    };
    let outcome = match decode_outcome_at(v, off + 27) {
        Ok(o) => o,
        Err(e) => {
            return Err(e);
        },
    };
    let last_activity = read_u64_at(v, off + 29);
    Ok(Game { player_one, player_two, board, turn, outcome, last_activity })
}

impl State {
    /// The fixed-layout encoding of this content, `STATE_LEN` bytes.
    pub fn encode(&self) -> (out: Vec<u8>)
        requires
            wf_state(self@),
        ensures
            out@ == enc_state(self@),
            out@.len() == STATE_LEN,
    {
        let mut out: Vec<u8> = Vec::new();
        match self {
            State::Uninitialized => {
                out.push(0);
                push_zeros(&mut out, DASHBOARD_LEN);
                proof {
                    assert(out@ =~= enc_state(self@));
                }
            },
            State::Dashboard(d) => {
                out.push(1);
                let n = d.entries.len();
                out.push(n as u8);
                let mut i: usize = 0;
                let ghost header = out@;
                while i < n
                    invariant
                        i <= n,
                        n == d.entries.len(),
                        d.entries@ == d@,
                        out@ == header + enc_entries(d@.take(i as int)),
                    decreases n - i,
                {
                    push_entry(&mut out, &d.entries[i]);
                    proof {
                        lemma_enc_entries_snoc(d@, i as int);
                    }
                    i = i + 1;
                }
                proof {
                    assert(d@.take(n as int) =~= d@);
                }
                push_zeros(&mut out, (DASHBOARD_CAPACITY - n) * ENTRY_LEN);
                proof {
                    assert(out@ =~= enc_state(self@));
                }
            },
            State::Game(g) => {
                out.push(2);
                push_game(&mut out, g);
                push_zeros(&mut out, DASHBOARD_LEN - GAME_LEN);
                proof {
                    assert(out@ =~= enc_state(self@));
                }
            },
        }
        proof {
            lemma_enc_state_len(self@);
        }
        out
    }

    /// Decode the leading `STATE_LEN` bytes of `input` into a record's
    /// content. A buffer that is too small, an unknown tag, or field bytes
    /// outside their encodable range fail with `DeserializationFailed`; the
    /// buffer itself is never touched. A decoded value is always
    /// well-formed, and owns its data: no aliasing of `input` is retained.
    pub fn deserialize(input: &Vec<u8>) -> (r: Result<State, TicTacToeError>)
        ensures
            input@.len() < STATE_LEN ==> r == Err::<State, TicTacToeError>(
                TicTacToeError::DeserializationFailed,
            ),
            input@.len() >= STATE_LEN ==> match dec_state(
                input@.subrange(0, STATE_LEN as int),
            ) {
                Some(sv) => r is Ok && r->Ok_0@ == sv && wf_state(sv),
                None => r == Err::<State, TicTacToeError>(TicTacToeError::DeserializationFailed),
            },
    {
        if input.len() < STATE_LEN {
            return Err(TicTacToeError::DeserializationFailed);
        }
        let ghost s = input@.subrange(0, STATE_LEN as int);
        proof {
            assert(s[0] == input@[0]);
        }
        let tag = input[0];
        if tag == 0 {
            Ok(State::Uninitialized)
        } else if tag == 1 {
            let ghost payload = s.subrange(1, 1 + DASHBOARD_LEN as int);
            let n_byte = input[1];
            proof {
                assert(payload[0] == input@[1]);
            }
            if n_byte as usize > DASHBOARD_CAPACITY {
                return Err(TicTacToeError::DeserializationFailed);
            }
            let n = n_byte as usize;
            let mut entries: Vec<DashboardEntry> = Vec::new();
            let mut i: usize = 0;
            while i < n
                invariant
                    i <= n,
                    n <= DASHBOARD_CAPACITY,
                    payload[0] == n as u8,
                    input@.len() >= STATE_LEN,
                    s == input@.subrange(0, STATE_LEN as int),
                    s[0] == 1,
                    payload == s.subrange(1, 1 + DASHBOARD_LEN as int),
                    entries@.len() == i,
                    forall|j: int|
                        0 <= j < i ==> dec_entry(#[trigger] entry_slice(payload, j)) == Some(
                            entries@[j],
                        ),
                decreases n - i,
            {
                proof {
                    assert(entry_slice(payload, i as int) =~= input@.subrange(
                        2 + 35 * (i as int),
                        2 + 35 * (i as int) + 35,
                    ));
                }
                match decode_entry_at(input, 2 + 35 * i) {
                    Ok(e) => {
                        entries.push(e);
                    },
                    Err(err) => {
                        proof {
                            assert(dec_entry(entry_slice(payload, i as int)) is None);
                            assert(!(forall|k: int|
                                0 <= k < payload[0] ==> dec_entry(
                                    #[trigger] entry_slice(payload, k),
                                ) is Some));
                        }
                        return Err(err);
                    },
                }
                i = i + 1;
            }
            proof {
                assert(dec_dashboard(payload) is Some);
                assert(dec_dashboard(payload)->Some_0 =~= entries@);
            }
            Ok(State::Dashboard(Dashboard { entries }))
        } else if tag == 2 {
            proof {
                assert(s.subrange(1, 1 + GAME_LEN as int) =~= input@.subrange(
                    1,
                    1 + GAME_LEN as int,
                ));
            }
            match decode_game_at(input, 1) {
                Ok(g) => Ok(State::Game(g)),
                Err(err) => Err(err),
            }
        } else {
            Err(TicTacToeError::DeserializationFailed)
        }
    }

    /// Overwrite the leading `STATE_LEN` bytes of `output` with this
    /// content's encoding, leaving any trailing bytes untouched. A buffer
    /// that is too small is rejected, and left exactly as it was.
    pub fn serialize(&self, output: &mut Vec<u8>) -> (r: Result<(), TicTacToeError>)
        requires
            wf_state(self@),
        ensures
            old(output)@.len() < STATE_LEN ==> r == Err::<(), TicTacToeError>(
                TicTacToeError::DeserializationFailed,
            ) && final(output)@ == old(output)@,
            old(output)@.len() >= STATE_LEN ==> r is Ok && final(output)@ == enc_state(self@)
                + old(output)@.skip(STATE_LEN as int) && final(output)@.len() == old(
                output,
            )@.len(),
    {
        if output.len() < STATE_LEN {
            return Err(TicTacToeError::DeserializationFailed);
        }
        let mut result = self.encode();
        let mut i: usize = STATE_LEN;
        while i < output.len()
            invariant
                STATE_LEN <= i <= output.len(),
                output@ == old(output)@,
                result@ == enc_state(self@) + output@.subrange(STATE_LEN as int, i as int),
            decreases output.len() - i,
        {
            result.push(output[i]);
            proof {
                assert(result@ =~= enc_state(self@) + output@.subrange(
                    STATE_LEN as int,
                    i + 1 as int,
                ));
            }
            i = i + 1;
        }
        proof {
            assert(output@.subrange(STATE_LEN as int, output@.len() as int) =~= output@.skip(
                STATE_LEN as int,
            ));
        }
        *output = result;
        Ok(())
    }
}

} // verus!
