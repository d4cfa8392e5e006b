use vstd::prelude::*;

verus! {

/// The typed commands the transaction processor accepts. Decoding raw
/// command bytes into this set is the host's concern.
#[derive(Clone, Copy, Debug, PartialEq, Eq, Structural)]
pub enum Command {
    /// Install a fresh, empty dashboard into an untouched record.
    InitDashboard,
    /// Accept a fresh player record and top its balance up.
    InitPlayer,
    /// Create a game in an untouched record and register it.
    InitGame,
    /// Refresh the dashboard's summary of a game without touching it.
    Advertise,
    /// Fill the second player slot of a waiting game.
    Join,
    /// Place the acting player's symbol on cell `(x, y)`.
    Move(u8, u8),
    /// Record a liveness timestamp for a registered player.
    KeepAlive,
}

} // verus!
