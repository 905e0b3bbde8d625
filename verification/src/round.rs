//! The records of one round as the ledger keeps them: a list of players,
//! the list of their entry counts, the ticket pool and the total.

use vstd::prelude::*;
use crate::accounting::{
    lemma_count_within_sum, lemma_empty_records_agree, lemma_records_agree_after_purchase,
};
use crate::identity::Identity;
use crate::ledger::{copies, held_in, records_agree};

verus! {

/// The entry counts that a list of players and the list of their counts,
/// in the same order, stand for.
pub(crate) open spec fn counts_by_player(players: Seq<Identity>, counts: Seq<u64>) -> Map<Identity, nat> {
    Map::new(
        |who: Identity| players.contains(who),
        |who: Identity| counts[players.index_of(who)] as nat,
    )
}

proof fn lemma_counts_at(players: Seq<Identity>, counts: Seq<u64>, at: int)
    requires
        players.no_duplicates(),
        0 <= at < players.len(),
    ensures
        players.index_of(players[at]) == at,
        counts_by_player(players, counts).contains_key(players[at]),
        counts_by_player(players, counts)[players[at]] == counts[at],
{
}

proof fn lemma_no_players_no_counts()
    ensures
        counts_by_player(Seq::empty(), Seq::empty()) == Map::<Identity, nat>::empty(),
        Seq::<Identity>::empty().to_set() == Set::<Identity>::empty(),
{
    assert(counts_by_player(Seq::empty(), Seq::empty()) =~= Map::<Identity, nat>::empty());
    assert(Seq::<Identity>::empty().to_set() =~= Set::<Identity>::empty());
}

proof fn lemma_counts_after_update(players: Seq<Identity>, counts: Seq<u64>, at: int, count: u64)
    requires
        players.no_duplicates(),
        players.len() == counts.len(),
        0 <= at < players.len(),
    ensures
        counts_by_player(players, counts.update(at, count)) == counts_by_player(
            players,
            counts,
        ).insert(players[at], count as nat),
        players.to_set().insert(players[at]) == players.to_set(),
{
    let before = counts_by_player(players, counts);
    let after = counts_by_player(players, counts.update(at, count));
    assert forall|who: Identity| after.contains_key(who) implies #[trigger] after[who]
        == before.insert(players[at], count as nat)[who] by {
        lemma_counts_at(players, counts, players.index_of(who));
    }
    lemma_counts_at(players, counts, at);
    assert(after =~= before.insert(players[at], count as nat));
    assert(players.to_set().insert(players[at]) =~= players.to_set());
}

proof fn lemma_counts_after_push(
    players: Seq<Identity>,
    counts: Seq<u64>,
    who: Identity,
    count: u64,
)
    requires
        players.no_duplicates(),
        players.len() == counts.len(),
        !players.contains(who),
    ensures
        players.push(who).no_duplicates(),
        players.push(who).to_set() == players.to_set().insert(who),
        counts_by_player(players.push(who), counts.push(count)) == counts_by_player(
            players,
            counts,
        ).insert(who, count as nat),
{
    let longer = players.push(who);
    let before = counts_by_player(players, counts);
    let after = counts_by_player(longer, counts.push(count));
    assert forall|i: int, j: int|
        0 <= i < longer.len() && 0 <= j < longer.len() && i != j implies longer[i]
        != longer[j] by {
        if i < players.len() {
            assert(players.contains(players[i]));
        }
        if j < players.len() {
            assert(players.contains(players[j]));
        }
    }
    assert forall|other: Identity|
        longer.contains(other) <==> (players.contains(other) || other == who) by {
        if players.contains(other) {
            assert(longer[players.index_of(other)] == other);
        }
        if other == who {
            assert(longer[players.len() as int] == who);
        }
    }
    assert(longer.to_set() =~= players.to_set().insert(who));
    assert forall|other: Identity| after.contains_key(other) implies #[trigger] after[other]
        == before.insert(who, count as nat)[other] by {
        let at = longer.index_of(other);
        lemma_counts_at(longer, counts.push(count), at);
        if at < players.len() {
            lemma_counts_at(players, counts, at);
        }
    }
    assert(after =~= before.insert(who, count as nat));
}

/// What one round has gathered.
///
/// The entry counts are kept in `entry_count`, one count for each player
/// in `players` at the same position; no player is listed twice.
#[derive(Debug, PartialEq, Eq)]
pub(crate) struct Round {
    pub(crate) entry_count: Vec<u64>,
    pub(crate) players: Vec<Identity>,
    pub(crate) player_selector: Vec<Identity>,
    pub(crate) total_entries: u64,
}

impl Round {
    /// The entry counts that the round holds.
    pub(crate) open spec fn entry_counts(&self) -> Map<Identity, nat> {
        counts_by_player(self.players@, self.entry_count@)
    }

    /// Whether the lists fit together and the records they stand for
    /// agree.
    pub(crate) open spec fn wf(&self) -> bool {
        &&& self.players@.no_duplicates()
        &&& self.players@.len() == self.entry_count@.len()
        &&& records_agree(
            self.entry_counts(),
            self.players@.to_set(),
            self.player_selector@,
            self.total_entries as nat,
        )
    }

    /// A round in which nobody has entered yet.
    pub(crate) fn empty() -> (round: Round)
        ensures
            round.wf(),
            round.entry_counts() == Map::<Identity, nat>::empty(),
            round.players@.to_set() == Set::<Identity>::empty(),
            round.player_selector@ == Seq::<Identity>::empty(),
            round.total_entries == 0,
    {
        proof {
            lemma_no_players_no_counts();
            lemma_empty_records_agree();
        }
        Round {
            entry_count: Vec::new(),
            players: Vec::new(),
            player_selector: Vec::new(),
            total_entries: 0,
        }
    }

    /// Where `player` stands in the list of players, if at all.
    fn find_player(&self, player: &Identity) -> (found: Option<usize>)
        ensures
            match found {
                Some(at) => at < self.players@.len() && self.players@[at as int] == *player,
                None => !self.players@.contains(*player),
            },
    {
        let mut at: usize = 0;
        while at < self.players.len()
            invariant
                at <= self.players@.len(),
                forall|i: int| 0 <= i < at ==> self.players@[i] != *player,
            decreases self.players@.len() - at,
        {
            if self.players[at].same_as(player) {
                return Some(at);
            }
            at += 1;
        }
        None
    }

    /// The number of entries that `player` holds.
    pub(crate) fn entries_held(&self, player: &Identity) -> (held: u64)
        requires
            self.wf(),
        ensures
            held == held_in(self.entry_counts(), *player),
    {
        match self.find_player(player) {
            Some(at) => {
                proof {
                    lemma_counts_at(self.players@, self.entry_count@, at as int);
                }
                self.entry_count[at]
            },
            None => 0,
        }
    }

    /// Books `count` more entries for `player`: raises the player's count
    /// and the total, lists the player if new, and appends `count` slots to
    /// the pool.
    pub(crate) fn add_entries(&mut self, player: Identity, count: u64)
        requires
            old(self).wf(),
            count >= 1,
            old(self).total_entries + count <= usize::MAX,
        ensures
            final(self).wf(),
            final(self).entry_counts() == old(self).entry_counts().insert(
                player,
                held_in(old(self).entry_counts(), player) + count as nat,
            ),
            final(self).players@.to_set() == old(self).players@.to_set().insert(player),
            final(self).player_selector@ == old(self).player_selector@ + copies(
                player,
                count as nat,
            ),
            final(self).total_entries == old(self).total_entries + count,
    {
        proof {
            lemma_records_agree_after_purchase(
                self.entry_counts(),
                self.players@.to_set(),
                self.player_selector@,
                self.total_entries as nat,
                player,
                count as nat,
            );
        }
        match self.find_player(&player) {
            Some(at) => {
                proof {
                    lemma_counts_at(self.players@, self.entry_count@, at as int);
                    lemma_count_within_sum(self.entry_counts(), player);
                    lemma_counts_after_update(
                        self.players@,
                        self.entry_count@,
                        at as int,
                        (self.entry_count@[at as int] + count) as u64,
                    );
                }
                let held = self.entry_count[at];
                self.entry_count[at] = held + count;
            },
            None => {
                proof {
                    lemma_counts_after_push(self.players@, self.entry_count@, player, count);
                }
                self.players.push(player);
                self.entry_count.push(count);
            },
        }
        self.total_entries = self.total_entries + count;
        push_copies(&mut self.player_selector, player, count);
    }
}

/// Appends `count` slots of `who` to `pool`.
fn push_copies(pool: &mut Vec<Identity>, who: Identity, count: u64)
    ensures
        final(pool)@ == old(pool)@ + copies(who, count as nat),
{
    let mut pushed: u64 = 0;
    while pushed < count
        invariant
            pushed <= count,
            pool@ == old(pool)@ + copies(who, pushed as nat),
        decreases count - pushed,
    {
        pool.push(who);
        pushed += 1;
    }
}

} // verus!
