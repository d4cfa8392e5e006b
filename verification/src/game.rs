use vstd::prelude::*;

use crate::error::TicTacToeError;

verus! {

/// A player's symbol. The creator of a game plays `X`, the joiner plays `O`.
#[derive(Clone, Copy, Debug, PartialEq, Eq, Structural)]
pub enum Mark {
    X,
    O,
}

/// One cell of the 3x3 board.
#[derive(Clone, Copy, Debug, PartialEq, Eq, Structural)]
pub enum Cell {
    Empty,
    PlayerX,
    PlayerO,
}

/// The result of a game so far. Once `WonBy` or `Draw` is reached it is
/// terminal: no further move is accepted.
#[derive(Clone, Copy, Debug, PartialEq, Eq, Structural)]
pub enum Outcome {
    InProgress,
    WonBy(Mark),
    Draw,
}

/// The state of one match. The first player slot is set at creation, the
/// second at join time; the board cell at `(x, y)` sits at index `x * 3 + y`.
pub struct Game {
    pub player_one: u64,
    pub player_two: Option<u64>,
    pub board: Vec<Cell>,
    pub turn: Mark,
    pub outcome: Outcome,
    pub last_activity: u64,
}

/// Mathematical model of a game.
#[verifier::ext_equal]
pub struct GameV {
    pub player_one: u64,
    pub player_two: Option<u64>,
    pub board: Seq<Cell>,
    pub turn: Mark,
    pub outcome: Outcome,
    pub last_activity: u64,
}

impl View for Game {
    type V = GameV;

    open spec fn view(&self) -> GameV {
        GameV {
            player_one: self.player_one,
            player_two: self.player_two,
            board: self.board@,
            turn: self.turn,
            outcome: self.outcome,
            last_activity: self.last_activity,
        }
    }
}

/// A well-formed game holds exactly the nine cells of the 3x3 board.
pub open spec fn wf_game(g: GameV) -> bool {
    g.board.len() == 9
}

pub open spec fn other_mark(m: Mark) -> Mark {
    match m {
        Mark::X => Mark::O,
        Mark::O => Mark::X,
    }
}

pub open spec fn cell_of(m: Mark) -> Cell {
    match m {
        Mark::X => Cell::PlayerX,
        Mark::O => Cell::PlayerO,
    }
}

/// Whether `player` occupies one of the two player slots.
pub open spec fn is_registered(g: GameV, player: u64) -> bool {
    player == g.player_one || g.player_two == Some(player)
}

/// The symbol a registered player plays with.
pub open spec fn mark_of(g: GameV, player: u64) -> Mark {
    if player == g.player_one {
        Mark::X
    } else {
        Mark::O
    }
}

pub open spec fn cell_index(x: int, y: int) -> int {
    x * 3 + y
}

/// Three matching symbols of `m` along one of the eight winning lines:
/// three rows, three columns, two diagonals.
pub open spec fn line_won(b: Seq<Cell>, m: Mark) -> bool {
    let c = cell_of(m);
    ||| (b[0] == c && b[1] == c && b[2] == c)
    ||| (b[3] == c && b[4] == c && b[5] == c)
    ||| (b[6] == c && b[7] == c && b[8] == c)
    ||| (b[0] == c && b[3] == c && b[6] == c)
    ||| (b[1] == c && b[4] == c && b[7] == c)
    ||| (b[2] == c && b[5] == c && b[8] == c)
    ||| (b[0] == c && b[4] == c && b[8] == c)
    ||| (b[2] == c && b[4] == c && b[6] == c)
}

pub open spec fn board_full(b: Seq<Cell>) -> bool {
    forall|i: int| 0 <= i < 9 ==> b[i] != Cell::Empty
}

/// What a board means for the player who just placed `m`: a completed line
/// wins, a full board without one is a draw, anything else leaves the game
/// in progress.
pub open spec fn eval_board(b: Seq<Cell>, m: Mark) -> Outcome {
    if line_won(b, m) {
        Outcome::WonBy(m)
    } else if board_full(b) {
        Outcome::Draw
    } else {
        Outcome::InProgress
    }
}

/// A fresh game: first slot taken, second empty, empty board, the creator
/// (playing `X`) to move, no result yet.
pub open spec fn create_spec(first_player: u64, now: u64) -> GameV {
    GameV {
        player_one: first_player,
        player_two: None,
        board: Seq::new(9, |i: int| Cell::Empty),
        turn: Mark::X,
        outcome: Outcome::InProgress,
        last_activity: now,
    }
}

/// Joining fills the empty second slot. It fails with `GameInProgress` if
/// that slot is already taken or if the joiner created the game.
pub open spec fn join_spec(g: GameV, player: u64, now: u64) -> Result<GameV, TicTacToeError> {
    if g.player_two is Some || player == g.player_one {
        Err(TicTacToeError::GameInProgress)
    } else {
        Ok(GameV { player_two: Some(player), last_activity: now, ..g })
    }
}

/// One move: the active player marks an empty in-bounds cell of a running
/// two-player game. On success the board is appended to (never overwritten),
/// the outcome is re-evaluated, and the turn passes to the other player if
/// the game is still open.
pub open spec fn next_move_spec(g: GameV, player: u64, x: u8, y: u8, now: u64) -> Result<
    GameV,
    TicTacToeError,
> {
    if !is_registered(g, player) {
        Err(TicTacToeError::PlayerNotFound)
    } else if mark_of(g, player) != g.turn {
        Err(TicTacToeError::NotYourTurn)
    } else if x >= 3 || y >= 3 {
        Err(TicTacToeError::InvalidMove)
    } else if g.player_two is None || g.outcome != Outcome::InProgress {
        Err(TicTacToeError::InvalidMove)
    } else if g.board[cell_index(x as int, y as int)] != Cell::Empty {
        Err(TicTacToeError::InvalidMove)
    } else {
        let b2 = g.board.update(cell_index(x as int, y as int), cell_of(g.turn));
        let oc = eval_board(b2, g.turn);
        Ok(
            GameV {
                board: b2,
                outcome: oc,
                turn: if oc == Outcome::InProgress {
                    other_mark(g.turn)
                } else {
                    g.turn
                },
                last_activity: now,
                ..g
            },
        )
    }
}

/// A liveness refresh: a registered player records a strictly newer
/// timestamp; board, turn and outcome stay as they are.
pub open spec fn keep_alive_spec(g: GameV, player: u64, now: u64) -> Result<
    GameV,
    TicTacToeError,
> {
    if !is_registered(g, player) {
        Err(TicTacToeError::PlayerNotFound)
    } else if now <= g.last_activity {
        Err(TicTacToeError::InvalidTimestamp)
    } else {
        Ok(GameV { last_activity: now, ..g })
    }
}

impl Game {
    /// Whether `player` occupies one of the two player slots.
    pub fn is_registered(&self, player: u64) -> (r: bool)
        ensures
            r == is_registered(self@, player),
    {
        if player == self.player_one {
            true
        } else {
            match self.player_two {
                Some(p) => p == player,
                None => false,
            }
        }
    }

    /// Start a fresh game with `first_player` in the first slot.
    pub fn create(first_player: u64, now: u64) -> (g: Game)
        ensures
            g@ == create_spec(first_player, now),
            wf_game(g@),
    {
        let mut board: Vec<Cell> = Vec::new();
        let mut i: usize = 0;
        while i < 9
            invariant
                i <= 9,
                board@ =~= Seq::new(i as nat, |j: int| Cell::Empty),
            decreases 9 - i,
        {
            board.push(Cell::Empty);
            i = i + 1;
        }
        let g = Game {
            player_one: first_player,
            player_two: None,
            board,
            turn: Mark::X,
            outcome: Outcome::InProgress,
            last_activity: now,
        };
        proof {
            assert(g@.board =~= create_spec(first_player, now).board);
        }
        g
    }

    /// Fill the empty second slot with `player`.
    pub fn join(&mut self, player: u64, now: u64) -> (r: Result<(), TicTacToeError>)
        ensures
            match join_spec(old(self)@, player, now) {
                Ok(g2) => r is Ok && final(self)@ == g2,
                Err(e) => r == Err::<(), TicTacToeError>(e) && final(self)@ == old(self)@,
            },
    {
        if self.player_two.is_some() || player == self.player_one {
            Err(TicTacToeError::GameInProgress)
        } else {
            self.player_two = Some(player);
            self.last_activity = now;
            Ok(())
        }
    }

    /// Place the active player's symbol on cell `(x, y)`.
    pub fn next_move(&mut self, player: u64, x: u8, y: u8, now: u64) -> (r: Result<
        (),
        TicTacToeError,
    >)
        requires
            wf_game(old(self)@),
        ensures
            wf_game(final(self)@),
            match next_move_spec(old(self)@, player, x, y, now) {
                Ok(g2) => r is Ok && final(self)@ == g2,
                Err(e) => r == Err::<(), TicTacToeError>(e) && final(self)@ == old(self)@,
            },
    {
        if !self.is_registered(player) {
            return Err(TicTacToeError::PlayerNotFound);
        }
        let mark = if player == self.player_one {
            Mark::X
        } else {
            Mark::O
        };
        if mark != self.turn {
            return Err(TicTacToeError::NotYourTurn);
        }
        if x >= 3 || y >= 3 {
            return Err(TicTacToeError::InvalidMove);
        }
        if self.player_two.is_none() {
            return Err(TicTacToeError::InvalidMove);
        }
        match self.outcome {
            Outcome::InProgress => {},
            _ => {
                return Err(TicTacToeError::InvalidMove);
            },
        }
        let i: usize = (x as usize) * 3 + (y as usize);
        match self.board[i] {
            Cell::Empty => {},
            _ => {
                return Err(TicTacToeError::InvalidMove);
            },
        }
        let c = match self.turn {
            Mark::X => Cell::PlayerX,
            Mark::O => Cell::PlayerO,
        };
        self.board[i] = c;
        let oc = evaluate_board(&self.board, self.turn);
        self.outcome = oc;
        match oc {
            Outcome::InProgress => {
                self.turn = match self.turn {
                    Mark::X => Mark::O,
                    Mark::O => Mark::X,
                };
            },
            _ => {},
        }
        self.last_activity = now;
        Ok(())
    }

    /// Record a strictly newer liveness timestamp for a registered player.
    pub fn keep_alive(&mut self, player: u64, now: u64) -> (r: Result<(), TicTacToeError>)
        ensures
            match keep_alive_spec(old(self)@, player, now) {
                Ok(g2) => r is Ok && final(self)@ == g2,
                Err(e) => r == Err::<(), TicTacToeError>(e) && final(self)@ == old(self)@,
            },
    {
        if !self.is_registered(player) {
            return Err(TicTacToeError::PlayerNotFound);
        }
        if now <= self.last_activity {
            return Err(TicTacToeError::InvalidTimestamp);
        }
        self.last_activity = now;
        Ok(())
    }
}

/// Whether `m` completed one of the eight winning lines.
pub fn wins(board: &Vec<Cell>, m: Mark) -> (r: bool)
    requires
        board@.len() == 9,
    ensures
        r == line_won(board@, m),
{
    let c = match m {
        Mark::X => Cell::PlayerX,
        Mark::O => Cell::PlayerO,
    };
    (board[0] == c && board[1] == c && board[2] == c) || (board[3] == c && board[4] == c
        && board[5] == c) || (board[6] == c && board[7] == c && board[8] == c) || (board[0] == c
        && board[3] == c && board[6] == c) || (board[1] == c && board[4] == c && board[7] == c) || (
    board[2] == c && board[5] == c && board[8] == c) || (board[0] == c && board[4] == c && board[8]
        == c) || (board[2] == c && board[4] == c && board[6] == c)
}

/// Whether every cell is occupied.
pub fn is_full(board: &Vec<Cell>) -> (r: bool)
    requires
        board@.len() == 9,
    ensures
        r == board_full(board@),
{
    let mut i: usize = 0;
    let mut full = true;
    while i < 9
        invariant
            i <= 9,
            board@.len() == 9,
            full == (forall|j: int| 0 <= j < i ==> board@[j] != Cell::Empty),
        decreases 9 - i,
    {
        match board[i] {
            Cell::Empty => {
                full = false;
            },
            _ => {},
        }
        i = i + 1;
    }
    full
}

/// Evaluate a board for the player who just placed `m`.
pub fn evaluate_board(board: &Vec<Cell>, m: Mark) -> (r: Outcome)
    requires
        board@.len() == 9,
    ensures
        r == eval_board(board@, m),
{
    if wins(board, m) {
        Outcome::WonBy(m)
    } else if is_full(board) {
        Outcome::Draw
    } else {
        Outcome::InProgress
    }
}

/// Law: after any accepted move that leaves the game open, the turn belongs
/// to the player who did not just move.
pub proof fn lemma_turn_alternation(g: GameV, player: u64, x: u8, y: u8, now: u64)
    requires
        next_move_spec(g, player, x, y, now) is Ok,
        next_move_spec(g, player, x, y, now)->Ok_0.outcome == Outcome::InProgress,
    ensures
        next_move_spec(g, player, x, y, now)->Ok_0.turn == other_mark(mark_of(g, player)),
        next_move_spec(g, player, x, y, now)->Ok_0.turn != g.turn,
{
}

/// Law: a board with three matching symbols along a row, a column or a
/// diagonal evaluates, for that symbol's player, to a win by that player.
pub proof fn lemma_win_detection(b: Seq<Cell>, m: Mark)
    requires
        line_won(b, m),
    ensures
        eval_board(b, m) == Outcome::WonBy(m),
{
}

/// Law: a full board with no completed line for the mover evaluates to a
/// draw.
pub proof fn lemma_draw_detection(b: Seq<Cell>, m: Mark)
    requires
        !line_won(b, m),
        board_full(b),
    ensures
        eval_board(b, m) == Outcome::Draw,
{
}

/// Law: an accepted move that completes one of the eight lines for the
/// moving player ends the game as a win by that player.
pub proof fn lemma_move_completes_win(g: GameV, player: u64, x: u8, y: u8, now: u64)
    requires
        next_move_spec(g, player, x, y, now) is Ok,
        line_won(next_move_spec(g, player, x, y, now)->Ok_0.board, mark_of(g, player)),
    ensures
        next_move_spec(g, player, x, y, now)->Ok_0.outcome == Outcome::WonBy(mark_of(g, player)),
{
}

/// Law: an accepted move that fills the board without completing a line for
/// the moving player ends the game as a draw.
pub proof fn lemma_move_completes_draw(g: GameV, player: u64, x: u8, y: u8, now: u64)
    requires
        next_move_spec(g, player, x, y, now) is Ok,
        !line_won(next_move_spec(g, player, x, y, now)->Ok_0.board, mark_of(g, player)),
        board_full(next_move_spec(g, player, x, y, now)->Ok_0.board),
    ensures
        next_move_spec(g, player, x, y, now)->Ok_0.outcome == Outcome::Draw,
{
}

/// Law: once a join has been accepted, every further join of the same game
/// fails with `GameInProgress`.
pub proof fn lemma_join_rejected_after_join(g: GameV, p: u64, t: u64, q: u64, t2: u64)
    requires
        join_spec(g, p, t) is Ok,
    ensures
        join_spec(join_spec(g, p, t)->Ok_0, q, t2) == Err::<GameV, TicTacToeError>(
            TicTacToeError::GameInProgress,
        ),
{
}

} // verus!
