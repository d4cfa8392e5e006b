use vstd::prelude::*;

use crate::dashboard::{wf_dashboard, Dashboard, DashboardEntry};
use crate::game::{wf_game, Game, GameV};

verus! {

/// The tagged content of a record's buffer. The tag is authoritative: an
/// operation that expects a dashboard or a game fails if the decoded tag
/// does not match. A record starts `Uninitialized` and its tag never
/// reverts once a dashboard or a game is installed.
pub enum State {
    Uninitialized,
    Dashboard(Dashboard),
    Game(Game),
}

/// Mathematical model of a record's content.
#[verifier::ext_equal]
pub enum StateV {
    Uninitialized,
    Dashboard(Seq<DashboardEntry>),
    Game(GameV),
}

impl View for State {
    type V = StateV;

    open spec fn view(&self) -> StateV {
        match self {
            State::Uninitialized => StateV::Uninitialized,
            State::Dashboard(d) => StateV::Dashboard(d@),
            State::Game(g) => StateV::Game(g@),
        }
    }
}

/// A well-formed content: the dashboard within its capacity, the game with
/// its nine cells.
pub open spec fn wf_state(s: StateV) -> bool {
    match s {
        StateV::Uninitialized => true,
        StateV::Dashboard(d) => wf_dashboard(d),
        StateV::Game(g) => wf_game(g),
    }
}

} // verus!
