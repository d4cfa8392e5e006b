use vstd::prelude::*;

verus! {

/// The error taxonomy of the game protocol. Every failure of a game-state
/// operation or of the codec is one of these kinds; each aborts the whole
/// request with no partial writes.
#[derive(Clone, Copy, Debug, PartialEq, Eq, Structural)]
pub enum TicTacToeError {
    /// The buffer is too small for the requested decode, or its tag bytes do
    /// not describe any encodable value.
    DeserializationFailed,
    /// A join (or an initialization) was attempted on a game that is not in
    /// the expected phase.
    GameInProgress,
    /// The target cell is out of the 3x3 bounds, already occupied, or the
    /// game has already ended.
    InvalidMove,
    /// A keep-alive carried a timestamp that is not strictly greater than the
    /// recorded last activity.
    InvalidTimestamp,
    /// A move by a registered player who is not the active player.
    NotYourTurn,
    /// An action by a party that is not registered in the game.
    PlayerNotFound,
}

impl TicTacToeError {
    /// Stable numeric code of each kind, in declaration order.
    pub open spec fn code_spec(self) -> u32 {
        match self {
            TicTacToeError::DeserializationFailed => 0,
            TicTacToeError::GameInProgress => 1,
            TicTacToeError::InvalidMove => 2,
            TicTacToeError::InvalidTimestamp => 3,
            TicTacToeError::NotYourTurn => 4,
            TicTacToeError::PlayerNotFound => 5,
        }
    }

    /// The numeric code under which the host reports this error kind.
    pub fn code(&self) -> (c: u32)
        ensures
            c == self.code_spec(),
    {
        match self {
            TicTacToeError::DeserializationFailed => 0,
            TicTacToeError::GameInProgress => 1,
            TicTacToeError::InvalidMove => 2,
            TicTacToeError::InvalidTimestamp => 3,
            TicTacToeError::NotYourTurn => 4,
            TicTacToeError::PlayerNotFound => 5,
        }
    }

    /// The human-readable description of each kind.
    pub open spec fn message_spec(self) -> Seq<char> {
        match self {
            TicTacToeError::DeserializationFailed => "deserialization failed"@,
            TicTacToeError::GameInProgress => "game in progress"@,
            TicTacToeError::InvalidMove => "invalid move"@,
            TicTacToeError::InvalidTimestamp => "invalid timestamp"@,
            TicTacToeError::NotYourTurn => "not your turn"@,
            TicTacToeError::PlayerNotFound => "player not found"@,
        }
    }

    /// A human-readable description, for the host to surface to the caller.
    pub fn message(&self) -> (m: &'static str)
        ensures
            m@ == self.message_spec(),
    {
        match self {
            TicTacToeError::DeserializationFailed => "deserialization failed",
            TicTacToeError::GameInProgress => "game in progress",
            TicTacToeError::InvalidMove => "invalid move",
            TicTacToeError::InvalidTimestamp => "invalid timestamp",
            TicTacToeError::NotYourTurn => "not your turn",
            TicTacToeError::PlayerNotFound => "player not found",
        }
    }
}

/// The result of one whole request to the transaction processor. Game-level
/// failures are carried verbatim; the remaining kinds belong to the processor
/// itself.
#[derive(Clone, Copy, Debug, PartialEq, Eq, Structural)]
pub enum ProcessError {
    /// The first supplied record's owning party did not authorize the request.
    MissingSigner,
    /// Fewer records were supplied than the command needs.
    NotEnoughRecords,
    /// A supplied record has the wrong tag, the wrong owner, a non-empty
    /// buffer where a fresh one is required, or the dashboard cannot cover a
    /// funding shortfall.
    InvalidArgument,
    /// A game-state or codec failure, reported verbatim.
    Game(TicTacToeError),
}

impl ProcessError {
    /// A human-readable description, for the host to surface to the caller.
    pub fn message(&self) -> (m: &'static str) {
        match self {
            ProcessError::MissingSigner => "missing required signature",
            ProcessError::NotEnoughRecords => "not enough records supplied",
            ProcessError::InvalidArgument => "invalid argument",
            ProcessError::Game(e) => e.message(),
        }
    }
}

} // verus!
