use vstd::prelude::*;

use crate::game::{Game, GameV};

verus! {

/// The most entries the dashboard ever holds.
pub const DASHBOARD_CAPACITY: usize = 8;

/// A condensed summary of one game: its record identifier, its players, its
/// result so far and its last activity timestamp.
#[derive(Clone, Copy, Debug, PartialEq, Eq)]
pub struct DashboardEntry {
    pub game_id: u64,
    pub player_one: u64,
    pub player_two: Option<u64>,
    pub outcome: crate::game::Outcome,
    pub last_activity: u64,
}

/// A bounded registry of active and recent games, kept consistent as games
/// progress so a client can discover them without scanning every record.
pub struct Dashboard {
    pub entries: Vec<DashboardEntry>,
}

impl View for Dashboard {
    type V = Seq<DashboardEntry>;

    open spec fn view(&self) -> Seq<DashboardEntry> {
        self.entries@
    }
}

/// A well-formed dashboard never exceeds its capacity.
pub open spec fn wf_dashboard(d: Seq<DashboardEntry>) -> bool {
    d.len() <= DASHBOARD_CAPACITY
}

/// The summary the dashboard keeps for game `game_id` in state `g`.
pub open spec fn entry_of(game_id: u64, g: GameV) -> DashboardEntry {
    DashboardEntry {
        game_id,
        player_one: g.player_one,
        player_two: g.player_two,
        outcome: g.outcome,
        last_activity: g.last_activity,
    }
}

/// The first index holding `game_id`, or -1 if the identifier is absent.
pub open spec fn index_of_game(d: Seq<DashboardEntry>, game_id: u64) -> int
    decreases d.len(),
{
    if d.len() == 0 {
        -1
    } else if d[0].game_id == game_id {
        0
    } else {
        let r = index_of_game(d.drop_first(), game_id);
        if r < 0 {
            -1
        } else {
            r + 1
        }
    }
}

/// The first index attaining the smallest `last_activity`.
pub open spec fn oldest_index(d: Seq<DashboardEntry>) -> int
    decreases d.len(),
{
    if d.len() <= 1 {
        0
    } else {
        let r = oldest_index(d.drop_first());
        if d[0].last_activity <= d[r + 1].last_activity {
            0
        } else {
            r + 1
        }
    }
}

/// Upserting a summary: an entry already keyed by `game_id` is replaced in
/// place; a new identifier is appended, after evicting the entry with the
/// oldest `last_activity` when the registry is at capacity.
pub open spec fn update_spec(d: Seq<DashboardEntry>, game_id: u64, g: GameV) -> Seq<
    DashboardEntry,
> {
    let e = entry_of(game_id, g);
    let i = index_of_game(d, game_id);
    if i >= 0 {
        d.update(i, e)
    } else if d.len() < DASHBOARD_CAPACITY {
        d.push(e)
    } else {
        d.remove(oldest_index(d)).push(e)
    }
}

/// `index_of_game` finds the first occurrence of `game_id`, and -1 exactly
/// when the identifier is absent.
pub proof fn lemma_index_of_game(d: Seq<DashboardEntry>, game_id: u64)
    ensures
        ({
            let r = index_of_game(d, game_id);
            &&& r >= 0 ==> 0 <= r < d.len() && d[r].game_id == game_id && (forall|j: int|
                0 <= j < r ==> d[j].game_id != game_id)
            &&& r < 0 ==> forall|j: int| 0 <= j < d.len() ==> d[j].game_id != game_id
        }),
    decreases d.len(),
{
    if d.len() == 0 {
    } else if d[0].game_id == game_id {
    } else {
        let dd = d.drop_first();
        lemma_index_of_game(dd, game_id);
        let rr = index_of_game(dd, game_id);
        let r = index_of_game(d, game_id);
        if rr >= 0 {
            assert(d[rr + 1] == dd[rr]);
            assert forall|j: int| 0 <= j < r implies d[j].game_id != game_id by {
                if j > 0 {
                    assert(d[j] == dd[j - 1]);
                }
            }
        } else {
            assert forall|j: int| 0 <= j < d.len() implies d[j].game_id != game_id by {
                if j > 0 {
                    assert(d[j] == dd[j - 1]);
                }
            }
        }
    }
}

/// `oldest_index` points at the first entry with the smallest
/// `last_activity`.
pub proof fn lemma_oldest_index(d: Seq<DashboardEntry>)
    requires
        d.len() > 0,
    ensures
        ({
            let r = oldest_index(d);
            &&& 0 <= r < d.len()
            &&& forall|j: int|
                0 <= j < d.len() ==> d[r].last_activity <= d[j].last_activity
            &&& forall|j: int| 0 <= j < r ==> d[j].last_activity > d[r].last_activity
        }),
    decreases d.len(),
{
    if d.len() <= 1 {
    } else {
        let dd = d.drop_first();
        lemma_oldest_index(dd);
        let rr = oldest_index(dd);
        let r = oldest_index(d);
        assert(d[rr + 1] == dd[rr]);
        assert forall|j: int| 0 <= j < d.len() implies d[r].last_activity
            <= d[j].last_activity by {
            if j > 0 {
                assert(d[j] == dd[j - 1]);
            }
        }
        assert forall|j: int| 0 <= j < r implies d[j].last_activity > d[r].last_activity by {
            if j > 0 {
                assert(d[j] == dd[j - 1]);
            }
        }
    }
}

/// Law: an update never pushes the dashboard past its capacity.
pub proof fn lemma_update_capacity(d: Seq<DashboardEntry>, game_id: u64, g: GameV)
    requires
        wf_dashboard(d),
    ensures
        wf_dashboard(update_spec(d, game_id, g)),
        update_spec(d, game_id, g).len() <= DASHBOARD_CAPACITY,
{
    lemma_index_of_game(d, game_id);
    if index_of_game(d, game_id) < 0 && d.len() >= DASHBOARD_CAPACITY {
        lemma_oldest_index(d);
    }
}

/// Law: inserting a new identifier into a full dashboard evicts exactly the
/// first entry with the smallest `last_activity` and keeps the registry at
/// capacity.
pub proof fn lemma_eviction(d: Seq<DashboardEntry>, game_id: u64, g: GameV)
    requires
        d.len() == DASHBOARD_CAPACITY,
        forall|j: int| 0 <= j < d.len() ==> d[j].game_id != game_id,
    ensures
        ({
            let k = oldest_index(d);
            &&& 0 <= k < d.len()
            &&& forall|j: int|
                0 <= j < d.len() ==> d[k].last_activity <= d[j].last_activity
            &&& update_spec(d, game_id, g) == d.remove(k).push(entry_of(game_id, g))
            &&& update_spec(d, game_id, g).len() == DASHBOARD_CAPACITY
        }),
{
    lemma_index_of_game(d, game_id);
    let r = index_of_game(d, game_id);
    if r >= 0 {
        assert(d[r].game_id == game_id);
        assert(false);
    }
    lemma_oldest_index(d);
}

impl Dashboard {
    /// A fresh, empty registry.
    pub fn new() -> (d: Dashboard)
        ensures
            d@ == Seq::<DashboardEntry>::empty(),
            wf_dashboard(d@),
    {
        Dashboard { entries: Vec::new() }
    }

    /// Upsert the summary of game `game_id`, evicting the least recently
    /// active entry when a new identifier would exceed the capacity.
    pub fn update(&mut self, game_id: u64, game: &Game)
        ensures
            final(self)@ == update_spec(old(self)@, game_id, game@),
            wf_dashboard(old(self)@) ==> wf_dashboard(final(self)@),
    {
        proof {
            lemma_index_of_game(self@, game_id);
        }
        let e = DashboardEntry {
            game_id,
            player_one: game.player_one,
            player_two: game.player_two,
            outcome: game.outcome,
            last_activity: game.last_activity,
        };
        let n = self.entries.len();
        let mut i: usize = 0;
        while i < n
            invariant
                self.entries@ == old(self)@,
                n == self.entries.len(),
                i <= n,
                e == entry_of(game_id, game@),
                forall|j: int| 0 <= j < i ==> self.entries@[j].game_id != game_id,
            decreases n - i,
        {
            if self.entries[i].game_id == game_id {
                self.entries[i] = e;
                proof {
                    lemma_index_of_game(old(self)@, game_id);
                }
                return ;
            }
            i = i + 1;
        }
        if n < DASHBOARD_CAPACITY {
            self.entries.push(e);
            return ;
        }
        proof {
            lemma_oldest_index(self@);
        }
        let mut best: usize = 0;
        let mut j: usize = 1;
        while j < n
            invariant
                self.entries@ == old(self)@,
                n == self.entries.len(),
                n > 0,
                best < j,
                j <= n,
                forall|k: int|
                    0 <= k < j ==> self.entries@[best as int].last_activity
                        <= self.entries@[k].last_activity,
                forall|k: int|
                    0 <= k < best ==> self.entries@[k].last_activity
                        > self.entries@[best as int].last_activity,
            decreases n - j,
        {
            if self.entries[j].last_activity < self.entries[best].last_activity {
                best = j;
            }
            j = j + 1;
        }
        self.entries.remove(best);
        self.entries.push(e);
    }
}

} // verus!
