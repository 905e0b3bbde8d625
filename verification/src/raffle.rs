//! The executable raffle ledger.

use vstd::prelude::*;
use crate::accounting::lemma_empty_records_agree;
use crate::custody::{FundsTransfer, PrizeAsset, PrizeTransfer};
use crate::entropy::random_word;
use crate::error::ErrorCode;
use crate::identity::Identity;
use crate::laws::lemma_slot_holder_has_entries;
use crate::ledger::{copies, Purchase, RaffleLedger};
use crate::round::Round;

verus! {

/// One raffle: who entered how often, the pool a winner is drawn from, the
/// prize held and the phase of the round.
///
/// A value of this type always stands for a consistent ledger.
#[derive(Debug, PartialEq, Eq)]
pub struct NFTRaffle {
    owner: Identity,
    round: Round,
    raffle_status: bool,
    entry_cost: u64,
    prize: Option<PrizeAsset>,
}

impl NFTRaffle {
    /// The ledger that this value stands for.
    pub closed spec fn view(&self) -> RaffleLedger {
        RaffleLedger {
            owner: self.owner,
            entry_cost: self.entry_cost,
            prize_asset: self.prize,
            active: self.raffle_status,
            entry_counts: self.round.entry_counts(),
            participants: self.round.players@.to_set(),
            ticket_pool: self.round.player_selector@,
            total_entries: self.round.total_entries as nat,
        }
    }

    #[verifier::type_invariant]
    spec fn well_formed(&self) -> bool {
        &&& self.round.wf()
        &&& self.raffle_status ==> self.prize is Some
    }

    /// Creates the ledger of a new raffle under the authority `owner`.
    pub fn new(owner: Identity, entry_cost: u64) -> (raffle: NFTRaffle)
        ensures
            raffle@ == RaffleLedger::created(owner, entry_cost),
            raffle@.consistent(),
    {
        NFTRaffle { owner, round: Round::empty(), raffle_status: false, entry_cost, prize: None }
    }

    /// Rebuilds the ledger that a store holds: the authority, the entry
    /// cost, the prize, the phase and the ticket pool. The entry counts,
    /// participants and total are those that the pool stands for.
    ///
    /// There is no such ledger where the round is open without a prize.
    pub fn restore(
        owner: Identity,
        entry_cost: u64,
        prize: Option<PrizeAsset>,
        raffle_status: bool,
        player_selector: &Vec<Identity>,
    ) -> (restored: Option<NFTRaffle>)
        ensures
            restored is Some <==> (raffle_status ==> prize is Some),
            restored matches Some(raffle) ==> {
                &&& raffle@.consistent()
                &&& raffle@.owner == owner
                &&& raffle@.entry_cost == entry_cost
                &&& raffle@.prize_asset == prize
                &&& raffle@.active == raffle_status
                &&& raffle@.ticket_pool == player_selector@
            },
    {
        if raffle_status && prize.is_none() {
            return None;
        }
        let mut round = Round::empty();
        let mut at: usize = 0;
        while at < player_selector.len()
            invariant
                at <= player_selector@.len(),
                round.wf(),
                round.total_entries == at,
                round.player_selector@ == player_selector@.take(at as int),
            decreases player_selector@.len() - at,
        {
            round.add_entries(player_selector[at], 1);
            at += 1;
            proof {
                assert(copies(player_selector@[at - 1], 1) =~= seq![player_selector@[at - 1]]);
                assert(round.player_selector@ =~= player_selector@.take(at as int));
            }
        }
        proof {
            assert(player_selector@.take(at as int) =~= player_selector@);
        }
        Some(NFTRaffle { owner, round, raffle_status, entry_cost, prize })
    }

    /// The authority of this raffle.
    pub fn owner(&self) -> (owner: Identity)
        ensures
            owner == self@.owner,
            self@.consistent(),
    {
        proof {
            use_type_invariant(self);
        }
        self.owner
    }

    /// The price of one entry.
    pub fn entry_cost(&self) -> (entry_cost: u64)
        ensures
            entry_cost == self@.entry_cost,
            self@.consistent(),
    {
        proof {
            use_type_invariant(self);
        }
        self.entry_cost
    }

    /// Whether entries are being taken.
    pub fn raffle_status(&self) -> (active: bool)
        ensures
            active == self@.active,
            self@.consistent(),
    {
        proof {
            use_type_invariant(self);
        }
        self.raffle_status
    }

    /// The prize held for the current round, if any.
    pub fn prize(&self) -> (prize: Option<PrizeAsset>)
        ensures
            prize == self@.prize_asset,
            self@.consistent(),
    {
        proof {
            use_type_invariant(self);
        }
        self.prize
    }

    /// The number of entries bought in the current round.
    pub fn total_entries(&self) -> (total: u64)
        ensures
            total == self@.total_entries,
            self@.consistent(),
    {
        proof {
            use_type_invariant(self);
        }
        self.round.total_entries
    }

    /// The number of entries that `player` holds.
    pub fn entry_count(&self, player: Identity) -> (held: u64)
        ensures
            held == self@.entries_of(player),
            self@.consistent(),
    {
        proof {
            use_type_invariant(self);
        }
        self.round.entries_held(&player)
    }

    /// Everyone who has entered the current round, each listed once.
    pub fn players(&self) -> (players: &Vec<Identity>)
        ensures
            players@.to_set() == self@.participants,
            players@.no_duplicates(),
            self@.consistent(),
    {
        proof {
            use_type_invariant(self);
        }
        &self.round.players
    }

    /// The ticket pool: one slot per entry bought, in the order of purchase.
    pub fn player_selector(&self) -> (pool: &Vec<Identity>)
        ensures
            pool@ == self@.ticket_pool,
            self@.consistent(),
    {
        proof {
            use_type_invariant(self);
        }
        &self.round.player_selector
    }

    /// Puts `nft_id` at `nft_address` up as the prize, on behalf of `caller`,
    /// and opens the round.
    pub fn initialize_raffle(
        &mut self,
        caller: Identity,
        nft_address: Identity,
        nft_id: u64,
    ) -> (outcome: Result<(), ErrorCode>)
        ensures
            old(self)@.consistent(),
            final(self)@.consistent(),
            outcome is Ok <==> old(self)@.prize_rejection(
                caller,
                (PrizeAsset { address: nft_address, id: nft_id }),
            ) is None,
            match outcome {
                Ok(_) => final(self)@ == old(self)@.with_prize(
                    (PrizeAsset { address: nft_address, id: nft_id }),
                ),
                Err(error) => {
                    &&& old(self)@.prize_rejection(
                        caller,
                        (PrizeAsset { address: nft_address, id: nft_id }),
                    ) == Some(error)
                    &&& final(self)@ == old(self)@
                },
            },
    {
        proof {
            use_type_invariant(&*self);
        }
        if self.raffle_status {
            return Err(ErrorCode::AlreadyActive);
        }
        if self.prize.is_some() {
            return Err(ErrorCode::PrizeAlreadySet);
        }
        if !caller.same_as(&nft_address) {
            return Err(ErrorCode::NotAssetOwner);
        }
        self.prize = Some(PrizeAsset { address: nft_address, id: nft_id });
        self.raffle_status = true;
        Ok(())
    }

    /// Buys `number_of_entries` entries for `player`, to be paid by someone
    /// with `payer_balance` at hand, and returns the payment that is to be
    /// moved into custody.
    ///
    /// At least one entry is to be asked for, and the ticket pool, which
    /// holds one slot per entry, must be able to take them.
    pub fn buy_entry(
        &mut self,
        player: Identity,
        payer_balance: u64,
        number_of_entries: u64,
    ) -> (outcome: Result<u64, ErrorCode>)
        requires
            number_of_entries >= 1,
            old(self)@.total_entries + number_of_entries <= usize::MAX,
        ensures
            old(self)@.consistent(),
            final(self)@.consistent(),
            outcome is Ok <==> old(self)@.purchase_rejection(
                payer_balance,
                number_of_entries as nat,
            ) is None,
            match outcome {
                Ok(payment) => {
                    &&& payment == old(self)@.price_of(number_of_entries as nat)
                    &&& final(self)@ == old(self)@.with_entries(player, number_of_entries as nat)
                },
                Err(error) => {
                    &&& old(self)@.purchase_rejection(payer_balance, number_of_entries as nat)
                        == Some(error)
                    &&& final(self)@ == old(self)@
                },
            },
            final(self)@ == old(self)@.after_purchase(
                (Purchase { who: player, balance: payer_balance, count: number_of_entries as nat }),
            ),
    {
        proof {
            use_type_invariant(&*self);
        }
        if !self.raffle_status {
            return Err(ErrorCode::RaffleInactive);
        }
        let required_amount = match self.entry_cost.checked_mul(number_of_entries) {
            Some(amount) => amount,
            None => {
                return Err(ErrorCode::InsufficientFunds);
            },
        };
        if payer_balance < required_amount {
            return Err(ErrorCode::InsufficientFunds);
        }
        let mut round = Round::empty();
        std::mem::swap(&mut round, &mut self.round);
        round.add_entries(player, number_of_entries);
        self.round = round;
        Ok(required_amount)
    }

    /// Closes the round on behalf of `caller`. What was entered stays, so
    /// that a winner can be drawn.
    pub fn end_raffle(&mut self, caller: Identity) -> (outcome: Result<(), ErrorCode>)
        ensures
            old(self)@.consistent(),
            final(self)@.consistent(),
            outcome is Ok <==> old(self)@.close_rejection(caller) is None,
            match outcome {
                Ok(_) => final(self)@ == old(self)@.with_entries_closed(),
                Err(error) => {
                    &&& old(self)@.close_rejection(caller) == Some(error)
                    &&& final(self)@ == old(self)@
                },
            },
    {
        proof {
            use_type_invariant(&*self);
        }
        if !caller.same_as(&self.owner) {
            return Err(ErrorCode::NotAuthority);
        }
        if !self.raffle_status {
            return Err(ErrorCode::RaffleInactive);
        }
        self.raffle_status = false;
        Ok(())
    }

    /// The prize at stake if `caller` may have a winner drawn now, else the
    /// reason why not.
    fn check_draw(&self, caller: &Identity) -> (outcome: Result<PrizeAsset, ErrorCode>)
        ensures
            match outcome {
                Ok(asset) => {
                    &&& self@.draw_rejection(*caller) is None
                    &&& self@.prize_asset == Some(asset)
                },
                Err(error) => self@.draw_rejection(*caller) == Some(error),
            },
    {
        if !caller.same_as(&self.owner) {
            return Err(ErrorCode::NotAuthority);
        }
        if self.raffle_status {
            return Err(ErrorCode::RaffleStillActive);
        }
        if self.round.player_selector.len() == 0 {
            return Err(ErrorCode::NoParticipants);
        }
        match self.prize {
            Some(asset) => Ok(asset),
            None => Err(ErrorCode::NoPrizeSet),
        }
    }

    /// Hands `asset` to the holder of the slot that `entropy` lands on and
    /// wipes the round.
    fn settle_round(&mut self, asset: PrizeAsset, entropy: usize) -> (transfer: PrizeTransfer)
        requires
            !old(self)@.active,
            old(self)@.prize_asset == Some(asset),
            old(self)@.ticket_pool.len() > 0,
        ensures
            transfer == old(self)@.prize_transfer(old(self)@.slot_for(entropy as nat)),
            final(self)@ == old(self)@.with_round_settled(),
    {
        let winner_index = entropy % self.round.player_selector.len();
        let winner = self.round.player_selector[winner_index];
        self.round = Round::empty();
        self.prize = None;
        PrizeTransfer { asset, from: self.owner, to: winner }
    }

    /// Draws the winner on behalf of `caller` with the random word
    /// `entropy`: the prize goes to the holder of slot `entropy` modulo the
    /// length of the ticket pool, and the round is wiped.
    ///
    /// The transfer that comes back is to be carried out together with
    /// this change of the ledger or not at all.
    pub fn select_winner_with(&mut self, caller: Identity, entropy: usize) -> (outcome: Result<
        PrizeTransfer,
        ErrorCode,
    >)
        ensures
            old(self)@.consistent(),
            final(self)@.consistent(),
            outcome is Ok <==> old(self)@.draw_rejection(caller) is None,
            match outcome {
                Ok(transfer) => {
                    &&& transfer == old(self)@.prize_transfer(
                        old(self)@.slot_for(entropy as nat),
                    )
                    &&& old(self)@.entries_of(transfer.to) >= 1
                    &&& final(self)@ == old(self)@.with_round_settled()
                },
                Err(error) => {
                    &&& old(self)@.draw_rejection(caller) == Some(error)
                    &&& final(self)@ == old(self)@
                },
            },
    {
        proof {
            use_type_invariant(&*self);
        }
        match self.check_draw(&caller) {
            Ok(asset) => {
                proof {
                    lemma_slot_holder_has_entries(self@, self@.slot_for(entropy as nat));
                    lemma_empty_records_agree();
                }
                Ok(self.settle_round(asset, entropy))
            },
            Err(error) => Err(error),
        }
    }

    /// Draws the winner on behalf of `caller` with a random word of its
    /// own: the prize goes to the holder of some slot of the ticket pool,
    /// and the round is wiped.
    ///
    /// The transfer that comes back is to be carried out together with
    /// this change of the ledger or not at all.
    pub fn select_winner(&mut self, caller: Identity) -> (outcome: Result<PrizeTransfer, ErrorCode>)
        ensures
            old(self)@.consistent(),
            final(self)@.consistent(),
            outcome is Ok <==> old(self)@.draw_rejection(caller) is None,
            match outcome {
                Ok(transfer) => {
                    &&& exists|slot: int|
                        0 <= slot < old(self)@.ticket_pool.len() && transfer == #[trigger] old(
                            self,
                        )@.prize_transfer(slot)
                    &&& old(self)@.entries_of(transfer.to) >= 1
                    &&& final(self)@ == old(self)@.with_round_settled()
                },
                Err(error) => {
                    &&& old(self)@.draw_rejection(caller) == Some(error)
                    &&& final(self)@ == old(self)@
                },
            },
    {
        proof {
            use_type_invariant(&*self);
        }
        match self.check_draw(&caller) {
            Ok(asset) => {
                let entropy = random_word();
                proof {
                    lemma_slot_holder_has_entries(self@, self@.slot_for(entropy as nat));
                    lemma_empty_records_agree();
                }
                Ok(self.settle_round(asset, entropy))
            },
            Err(error) => Err(error),
        }
    }

    /// Sets the price of an entry to `new_entry_cost` on behalf of `caller`.
    pub fn change_entry_cost(&mut self, caller: Identity, new_entry_cost: u64) -> (outcome: Result<
        (),
        ErrorCode,
    >)
        ensures
            old(self)@.consistent(),
            final(self)@.consistent(),
            outcome is Ok <==> old(self)@.entry_cost_rejection(caller) is None,
            match outcome {
                Ok(_) => final(self)@ == old(self)@.with_entry_cost(new_entry_cost),
                Err(error) => {
                    &&& old(self)@.entry_cost_rejection(caller) == Some(error)
                    &&& final(self)@ == old(self)@
                },
            },
    {
        proof {
            use_type_invariant(&*self);
        }
        if !caller.same_as(&self.owner) {
            return Err(ErrorCode::NotAuthority);
        }
        if self.raffle_status {
            return Err(ErrorCode::RaffleActive);
        }
        self.entry_cost = new_entry_cost;
        Ok(())
    }

    /// Asks on behalf of `caller` for the pay-out of the entry fees
    /// collected so far, of which custody holds `collected_balance`. The
    /// ledger itself keeps no account of them and stays as it is.
    pub fn withdraw_balance(&self, caller: Identity, collected_balance: u64) -> (outcome: Result<
        FundsTransfer,
        ErrorCode,
    >)
        ensures
            self@.consistent(),
            outcome is Ok <==> self@.withdrawal_rejection(caller, collected_balance) is None,
            match outcome {
                Ok(transfer) => transfer == self@.withdrawal(collected_balance),
                Err(error) => self@.withdrawal_rejection(caller, collected_balance) == Some(error),
            },
    {
        proof {
            use_type_invariant(self);
        }
        if !caller.same_as(&self.owner) {
            return Err(ErrorCode::NotAuthority);
        }
        if collected_balance == 0 {
            return Err(ErrorCode::NothingToWithdraw);
        }
        Ok(FundsTransfer { amount: collected_balance, to: self.owner })
    }

    /// Forces the ledger back to the zeroed, closed state on behalf of
    /// `caller`, whatever state it is in. The authority stays.
    pub fn reset_contract(&mut self, caller: Identity) -> (outcome: Result<(), ErrorCode>)
        ensures
            old(self)@.consistent(),
            final(self)@.consistent(),
            outcome is Ok <==> old(self)@.reset_rejection(caller) is None,
            match outcome {
                Ok(_) => final(self)@ == old(self)@.zeroed(),
                Err(error) => {
                    &&& old(self)@.reset_rejection(caller) == Some(error)
                    &&& final(self)@ == old(self)@
                },
            },
    {
        proof {
            use_type_invariant(&*self);
            lemma_empty_records_agree();
        }
        if !caller.same_as(&self.owner) {
            return Err(ErrorCode::NotAuthority);
        }
        self.raffle_status = false;
        self.round = Round::empty();
        self.prize = None;
        self.entry_cost = 0;
        Ok(())
    }
}

} // verus!
