//! The raffle ledger as a mathematical value, and every operation on it as
//! a function from ledger to ledger.
//!
//! The executable ledger is specified against this model: each of its
//! operations says which rejection the model gives, and on acceptance which
//! ledger the model moves to.

use vstd::prelude::*;
use crate::custody::{FundsTransfer, PrizeAsset, PrizeTransfer};
use crate::error::ErrorCode;
use crate::identity::Identity;

verus! {

/// The state of one raffle.
#[verifier::ext_equal]
pub struct RaffleLedger {
    /// The authority; fixed at creation.
    pub owner: Identity,
    /// Price of one entry.
    pub entry_cost: u64,
    /// The prize held for the current round, if any.
    pub prize_asset: Option<PrizeAsset>,
    /// Whether entries are being taken.
    pub active: bool,
    /// Entries bought so far, by participant.
    pub entry_counts: Map<Identity, nat>,
    /// Everyone who has entered the current round.
    pub participants: Set<Identity>,
    /// One slot per entry bought; the domain a draw picks from.
    pub ticket_pool: Seq<Identity>,
    /// Number of entries bought in the current round.
    pub total_entries: nat,
}

/// One request to buy entries: `count` of them for `who`, paid by someone
/// with `balance` at hand.
pub struct Purchase {
    pub who: Identity,
    pub balance: u64,
    pub count: nat,
}

/// The sum of all the counts in `counts`.
pub open spec fn sum_of_counts(counts: Map<Identity, nat>) -> nat
    decreases counts.dom().len(),
    when counts.dom().finite()
{
    if counts.dom().is_empty() {
        0
    } else {
        let who = counts.dom().choose();
        counts[who] + sum_of_counts(counts.remove(who))
    }
}

/// How many slots of `pool` belong to `who`.
pub open spec fn occurrences(pool: Seq<Identity>, who: Identity) -> nat
    decreases pool.len(),
{
    if pool.len() == 0 {
        0
    } else {
        occurrences(pool.drop_last(), who) + if pool.last() == who { 1nat } else { 0nat }
    }
}

/// `count` slots, all of them belonging to `who`.
pub open spec fn copies(who: Identity, count: nat) -> Seq<Identity> {
    Seq::new(count, |i: int| who)
}

/// The count that `counts` holds for `who`; zero where it holds none.
pub open spec fn held_in(counts: Map<Identity, nat>, who: Identity) -> nat {
    if counts.contains_key(who) {
        counts[who]
    } else {
        0
    }
}

/// Whether the records of a round agree with one another:
/// the participants are those who hold a count, and each holds at least
/// one entry; the total is the sum of the counts and the length of the
/// ticket pool; every slot of the pool belongs to a participant, and each
/// participant holds as many slots as entries.
pub open spec fn records_agree(
    entry_counts: Map<Identity, nat>,
    participants: Set<Identity>,
    ticket_pool: Seq<Identity>,
    total_entries: nat,
) -> bool {
    &&& entry_counts.dom().finite()
    &&& participants == entry_counts.dom()
    &&& total_entries == sum_of_counts(entry_counts)
    &&& total_entries == ticket_pool.len()
    &&& forall|i: int|
        0 <= i < ticket_pool.len() ==> participants.contains(#[trigger] ticket_pool[i])
    &&& forall|who: Identity| #[trigger] participants.contains(who) ==> entry_counts[who] > 0
    &&& forall|who: Identity| #[trigger] occurrences(ticket_pool, who) == held_in(entry_counts, who)
}

/// Whether two ledgers hold the same records of the round: the same entry
/// counts, participants, ticket pool and total.
pub open spec fn same_round_records(before: RaffleLedger, after: RaffleLedger) -> bool {
    &&& after.entry_counts == before.entry_counts
    &&& after.participants == before.participants
    &&& after.ticket_pool == before.ticket_pool
    &&& after.total_entries == before.total_entries
}

impl RaffleLedger {
    /// The ledger right after creation: nothing entered, no prize, closed.
    pub open spec fn created(owner: Identity, entry_cost: u64) -> RaffleLedger {
        RaffleLedger {
            owner,
            entry_cost,
            prize_asset: None,
            active: false,
            entry_counts: Map::empty(),
            participants: Set::empty(),
            ticket_pool: Seq::empty(),
            total_entries: 0,
        }
    }

    /// Entries that `who` holds; zero for someone who never entered.
    pub open spec fn entries_of(self, who: Identity) -> nat {
        held_in(self.entry_counts, who)
    }

    /// What holds of the ledger before and after every operation: the
    /// records of the round agree, and a round that is open has a prize.
    pub open spec fn consistent(self) -> bool {
        &&& records_agree(
            self.entry_counts,
            self.participants,
            self.ticket_pool,
            self.total_entries,
        )
        &&& self.active ==> self.prize_asset is Some
    }

    // ---- assigning a prize -------------------------------------------------

    /// Why `caller` may not put `asset` up as the prize, if anything.
    pub open spec fn prize_rejection(self, caller: Identity, asset: PrizeAsset) -> Option<
        ErrorCode,
    > {
        if self.active {
            Some(ErrorCode::AlreadyActive)
        } else if self.prize_asset is Some {
            Some(ErrorCode::PrizeAlreadySet)
        } else if caller != asset.address {
            Some(ErrorCode::NotAssetOwner)
        } else {
            None
        }
    }

    /// The ledger once `asset` is the prize: the round is open.
    pub open spec fn with_prize(self, asset: PrizeAsset) -> RaffleLedger {
        RaffleLedger { prize_asset: Some(asset), active: true, ..self }
    }

    // ---- buying entries ----------------------------------------------------

    /// What `count` entries cost.
    pub open spec fn price_of(self, count: nat) -> nat {
        self.entry_cost as nat * count
    }

    /// Why a payer with `balance` at hand may not buy `count` entries, if
    /// anything.
    pub open spec fn purchase_rejection(self, balance: u64, count: nat) -> Option<ErrorCode> {
        if !self.active {
            Some(ErrorCode::RaffleInactive)
        } else if balance < self.price_of(count) {
            Some(ErrorCode::InsufficientFunds)
        } else {
            None
        }
    }

    /// The ledger once `who` holds `count` more entries.
    pub open spec fn with_entries(self, who: Identity, count: nat) -> RaffleLedger {
        RaffleLedger {
            entry_counts: self.entry_counts.insert(who, self.entries_of(who) + count),
            participants: self.participants.insert(who),
            ticket_pool: self.ticket_pool + copies(who, count),
            total_entries: self.total_entries + count,
            ..self
        }
    }

    /// The ledger after one request to buy entries, accepted or not.
    pub open spec fn after_purchase(self, request: Purchase) -> RaffleLedger {
        if self.purchase_rejection(request.balance, request.count) is None {
            self.with_entries(request.who, request.count)
        } else {
            self
        }
    }

    /// The ledger after a series of requests to buy entries.
    pub open spec fn after_purchases(self, requests: Seq<Purchase>) -> RaffleLedger
        decreases requests.len(),
    {
        if requests.len() == 0 {
            self
        } else {
            self.after_purchases(requests.drop_last()).after_purchase(requests.last())
        }
    }

    // ---- closing the round -------------------------------------------------

    /// Why `caller` may not close the round, if anything.
    pub open spec fn close_rejection(self, caller: Identity) -> Option<ErrorCode> {
        if caller != self.owner {
            Some(ErrorCode::NotAuthority)
        } else if !self.active {
            Some(ErrorCode::RaffleInactive)
        } else {
            None
        }
    }

    /// The ledger once the round is closed; what was entered stays.
    pub open spec fn with_entries_closed(self) -> RaffleLedger {
        RaffleLedger { active: false, ..self }
    }

    // ---- drawing the winner ------------------------------------------------

    /// Why `caller` may not have a winner drawn, if anything.
    pub open spec fn draw_rejection(self, caller: Identity) -> Option<ErrorCode> {
        if caller != self.owner {
            Some(ErrorCode::NotAuthority)
        } else if self.active {
            Some(ErrorCode::RaffleStillActive)
        } else if self.ticket_pool.len() == 0 {
            Some(ErrorCode::NoParticipants)
        } else if self.prize_asset is None {
            Some(ErrorCode::NoPrizeSet)
        } else {
            None
        }
    }

    /// The slot that a draw with the random word `entropy` lands on.
    pub open spec fn slot_for(self, entropy: nat) -> int {
        entropy as int % self.ticket_pool.len() as int
    }

    /// The hand-over of the prize to the holder of slot `slot`.
    pub open spec fn prize_transfer(self, slot: int) -> PrizeTransfer {
        PrizeTransfer {
            asset: self.prize_asset->0,
            from: self.owner,
            to: self.ticket_pool[slot],
        }
    }

    /// Of the random words below `bound`, how many make the draw hand the
    /// prize to `who`.
    pub open spec fn wins_below(self, who: Identity, bound: nat) -> nat
        decreases bound,
    {
        if bound == 0 {
            0
        } else {
            let word = (bound - 1) as nat;
            self.wins_below(who, word) + if self.prize_transfer(self.slot_for(word)).to == who {
                1nat
            } else {
                0nat
            }
        }
    }

    /// The ledger once the winner is drawn: the round is wiped and the
    /// prize is gone.
    pub open spec fn with_round_settled(self) -> RaffleLedger {
        RaffleLedger {
            prize_asset: None,
            entry_counts: Map::empty(),
            participants: Set::empty(),
            ticket_pool: Seq::empty(),
            total_entries: 0,
            ..self
        }
    }

    // ---- administration ----------------------------------------------------

    /// Why `caller` may not change the entry cost, if anything.
    pub open spec fn entry_cost_rejection(self, caller: Identity) -> Option<ErrorCode> {
        if caller != self.owner {
            Some(ErrorCode::NotAuthority)
        } else if self.active {
            Some(ErrorCode::RaffleActive)
        } else {
            None
        }
    }

    /// The ledger once an entry costs `entry_cost`.
    pub open spec fn with_entry_cost(self, entry_cost: u64) -> RaffleLedger {
        RaffleLedger { entry_cost, ..self }
    }

    /// Why `caller` may not withdraw a collected balance of `collected`, if
    /// anything.
    pub open spec fn withdrawal_rejection(self, caller: Identity, collected: u64) -> Option<
        ErrorCode,
    > {
        if caller != self.owner {
            Some(ErrorCode::NotAuthority)
        } else if collected == 0 {
            Some(ErrorCode::NothingToWithdraw)
        } else {
            None
        }
    }

    /// The pay-out of the whole collected balance to the authority.
    pub open spec fn withdrawal(self, collected: u64) -> FundsTransfer {
        FundsTransfer { amount: collected, to: self.owner }
    }

    /// Why `caller` may not reset the ledger, if anything.
    pub open spec fn reset_rejection(self, caller: Identity) -> Option<ErrorCode> {
        if caller != self.owner {
            Some(ErrorCode::NotAuthority)
        } else {
            None
        }
    }

    /// The ledger after a reset: zeroed throughout, under the same authority.
    pub open spec fn zeroed(self) -> RaffleLedger {
        RaffleLedger::created(self.owner, 0)
    }
}

} // verus!
