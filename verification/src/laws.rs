//! What holds of the ledger whatever is done to it.

use vstd::prelude::*;
use crate::accounting::{
    lemma_count_within_sum, lemma_empty_records_agree, lemma_records_agree_after_purchase,
    lemma_slot_holder_occurs,
};
use crate::custody::PrizeAsset;
use crate::error::ErrorCode;
use crate::identity::Identity;
use crate::ledger::{occurrences, same_round_records, sum_of_counts, Purchase, RaffleLedger};

verus! {

/// A ledger is consistent when it is created.
pub proof fn lemma_created_is_consistent(owner: Identity, entry_cost: u64)
    ensures
        RaffleLedger::created(owner, entry_cost).consistent(),
{
    lemma_empty_records_agree();
}

/// Buying entries keeps the ledger consistent: the total still equals both
/// the sum of the entry counts and the length of the ticket pool, and
/// every participant still holds as many slots as entries.
pub proof fn lemma_purchase_keeps_consistency(ledger: RaffleLedger, who: Identity, count: nat)
    requires
        ledger.consistent(),
        count >= 1,
    ensures
        ledger.with_entries(who, count).consistent(),
{
    lemma_records_agree_after_purchase(
        ledger.entry_counts,
        ledger.participants,
        ledger.ticket_pool,
        ledger.total_entries,
        who,
        count,
    );
}

/// Whatever purchases are asked for in whatever order, accepted or not,
/// after each of them the total number of entries equals the sum of the
/// entry counts and the length of the ticket pool.
pub proof fn lemma_purchases_keep_accounts(
    ledger: RaffleLedger,
    purchases: Seq<Purchase>,
    calls: int,
)
    requires
        ledger.consistent(),
        forall|i: int| 0 <= i < purchases.len() ==> (#[trigger] purchases[i]).count >= 1,
        0 <= calls <= purchases.len(),
    ensures
        ({
            let now = ledger.after_purchases(purchases.take(calls));
            &&& now.consistent()
            &&& now.total_entries == sum_of_counts(now.entry_counts)
            &&& now.total_entries == now.ticket_pool.len()
        }),
    decreases calls,
{
    if calls > 0 {
        lemma_purchases_keep_accounts(ledger, purchases, calls - 1);
        let earlier = ledger.after_purchases(purchases.take(calls - 1));
        let call = purchases[calls - 1];
        assert(purchases.take(calls).drop_last() =~= purchases.take(calls - 1));
        assert(purchases.take(calls).last() == call);
        if earlier.purchase_rejection(call.balance, call.count) is None {
            lemma_purchase_keeps_consistency(earlier, call.who, call.count);
        }
    }
}

/// Every operation but a purchase keeps the ledger consistent as well.
pub proof fn lemma_lifecycle_keeps_consistency(
    ledger: RaffleLedger,
    asset: PrizeAsset,
    entry_cost: u64,
)
    requires
        ledger.consistent(),
    ensures
        ledger.with_prize(asset).consistent(),
        ledger.with_entries_closed().consistent(),
        ledger.with_entry_cost(entry_cost).consistent(),
        !ledger.active ==> ledger.with_round_settled().consistent(),
        ledger.zeroed().consistent(),
{
    lemma_empty_records_agree();
}

/// A draw cannot land on someone without entries: whoever holds a slot of
/// the ticket pool is a participant with at least one entry.
pub proof fn lemma_slot_holder_has_entries(ledger: RaffleLedger, slot: int)
    requires
        ledger.consistent(),
        0 <= slot < ledger.ticket_pool.len(),
    ensures
        ledger.participants.contains(ledger.ticket_pool[slot]),
        ledger.entries_of(ledger.ticket_pool[slot]) >= 1,
{
    lemma_slot_holder_occurs(ledger.ticket_pool, slot);
}

/// The weight of a participant in a draw: of the `total_entries` slots
/// that a draw picks from, exactly as many belong to `who` as `who` has
/// bought entries.
pub proof fn lemma_slots_match_entries(ledger: RaffleLedger, who: Identity)
    requires
        ledger.consistent(),
    ensures
        ledger.ticket_pool.len() == ledger.total_entries,
        occurrences(ledger.ticket_pool, who) == ledger.entries_of(who),
        ledger.entries_of(who) <= ledger.total_entries,
{
    if ledger.entry_counts.contains_key(who) {
        lemma_count_within_sum(ledger.entry_counts, who);
    }
}

/// Within one pass of the random words through the ticket pool, the words
/// that make `who` win are as many as the slots of `who` passed so far.
proof fn lemma_wins_within_pass(ledger: RaffleLedger, who: Identity, passes: nat, slots: nat)
    requires
        slots <= ledger.ticket_pool.len(),
    ensures
        ledger.wins_below(who, passes * ledger.ticket_pool.len() + slots) == ledger.wins_below(
            who,
            passes * ledger.ticket_pool.len(),
        ) + occurrences(ledger.ticket_pool.take(slots as int), who),
    decreases slots,
{
    let pool = ledger.ticket_pool;
    if slots > 0 {
        let word = (passes * pool.len() + slots - 1) as nat;
        lemma_wins_within_pass(ledger, who, passes, (slots - 1) as nat);
        vstd::arithmetic::div_mod::lemma_fundamental_div_mod_converse_mod(
            word as int,
            pool.len() as int,
            passes as int,
            slots - 1,
        );
        assert(ledger.slot_for(word) == slots - 1);
        assert(pool.take(slots as int).drop_last() =~= pool.take(slots - 1));
    }
}

/// A draw weighs the participants by their entries: of the random words
/// below any whole number of passes through the ticket pool, the share
/// that makes `who` win is exactly the entries of `who` out of the total.
pub proof fn lemma_draw_weighs_by_entries(ledger: RaffleLedger, who: Identity, passes: nat)
    requires
        ledger.consistent(),
    ensures
        ledger.wins_below(who, passes * ledger.total_entries) == passes * ledger.entries_of(who),
    decreases passes,
{
    let total = ledger.total_entries;
    let held = ledger.entries_of(who);
    if passes > 0 {
        let earlier = (passes - 1) as nat;
        lemma_draw_weighs_by_entries(ledger, who, earlier);
        lemma_wins_within_pass(ledger, who, earlier, total);
        assert(ledger.ticket_pool.take(total as int) =~= ledger.ticket_pool);
        assert(occurrences(ledger.ticket_pool, who) == held);
        assert(earlier * total + total == passes * total) by (nonlinear_arith)
            requires
                earlier + 1 == passes,
        ;
        assert(earlier * held + held == passes * held) by (nonlinear_arith)
            requires
                earlier + 1 == passes,
        ;
    } else {
        assert(passes * total == 0) by (nonlinear_arith)
            requires
                passes == 0,
        ;
        assert(passes * held == 0) by (nonlinear_arith)
            requires
                passes == 0,
        ;
    }
}

/// Once a winner is drawn nothing of the round is left: nobody holds an
/// entry, the ticket pool is empty and no prize is held.
pub proof fn lemma_settled_round_is_wiped(ledger: RaffleLedger, who: Identity)
    ensures
        ledger.with_round_settled().entry_counts == Map::<Identity, nat>::empty(),
        ledger.with_round_settled().participants == Set::<Identity>::empty(),
        ledger.with_round_settled().ticket_pool == Seq::<Identity>::empty(),
        ledger.with_round_settled().total_entries == 0,
        ledger.with_round_settled().prize_asset is None,
        ledger.with_round_settled().entries_of(who) == 0,
        ledger.with_round_settled().active == ledger.active,
{
}

/// Offering a prize, closing the round and changing the entry cost leave
/// the records of the round alone.
pub proof fn lemma_lifecycle_keeps_round_records(
    ledger: RaffleLedger,
    asset: PrizeAsset,
    entry_cost: u64,
)
    ensures
        same_round_records(ledger, ledger.with_prize(asset)),
        same_round_records(ledger, ledger.with_entries_closed()),
        same_round_records(ledger, ledger.with_entry_cost(entry_cost)),
{
}

/// A change of the entry cost shows in the price of the entries bought
/// afterwards and nowhere else: every other operation is accepted or
/// rejected as before and does to the ledger what it did before, and a
/// purchase is judged by the new price.
pub proof fn lemma_entry_cost_changes_pricing_only(
    ledger: RaffleLedger,
    entry_cost: u64,
    caller: Identity,
    asset: PrizeAsset,
    who: Identity,
    balance: u64,
    count: nat,
)
    ensures
        ({
            let repriced = ledger.with_entry_cost(entry_cost);
            &&& repriced.price_of(count) == entry_cost * count
            &&& repriced.purchase_rejection(balance, count) == (if !ledger.active {
                Some(ErrorCode::RaffleInactive)
            } else if balance < entry_cost * count {
                Some(ErrorCode::InsufficientFunds)
            } else {
                None
            })
            &&& repriced.with_entries(who, count) == ledger.with_entries(
                who,
                count,
            ).with_entry_cost(entry_cost)
            &&& repriced.prize_rejection(caller, asset) == ledger.prize_rejection(caller, asset)
            &&& repriced.with_prize(asset) == ledger.with_prize(asset).with_entry_cost(entry_cost)
            &&& repriced.close_rejection(caller) == ledger.close_rejection(caller)
            &&& repriced.with_entries_closed() == ledger.with_entries_closed().with_entry_cost(
                entry_cost,
            )
            &&& repriced.draw_rejection(caller) == ledger.draw_rejection(caller)
            &&& repriced.with_round_settled() == ledger.with_round_settled().with_entry_cost(
                entry_cost,
            )
            &&& forall|slot: int| repriced.prize_transfer(slot) == ledger.prize_transfer(slot)
            &&& repriced.withdrawal_rejection(caller, balance) == ledger.withdrawal_rejection(
                caller,
                balance,
            )
            &&& repriced.withdrawal(balance) == ledger.withdrawal(balance)
        }),
{
}

/// The ticket pool holds the whole round: two consistent ledgers with the
/// same pool have the same entry counts, participants and total.
pub proof fn lemma_ticket_pool_determines_round(one: RaffleLedger, other: RaffleLedger)
    requires
        one.consistent(),
        other.consistent(),
        one.ticket_pool == other.ticket_pool,
    ensures
        same_round_records(one, other),
{
    assert forall|who: Identity| one.entry_counts.contains_key(who) implies #[trigger]
        other.entry_counts.contains_key(who) && other.entry_counts[who]
        == one.entry_counts[who] by {
        assert(one.participants.contains(who));
        assert(occurrences(one.ticket_pool, who) == one.entries_of(who));
        assert(occurrences(other.ticket_pool, who) == other.entries_of(who));
    }
    assert forall|who: Identity| other.entry_counts.contains_key(who) implies #[trigger]
        one.entry_counts.contains_key(who) by {
        assert(other.participants.contains(who));
        assert(occurrences(one.ticket_pool, who) == one.entries_of(who));
        assert(occurrences(other.ticket_pool, who) == other.entries_of(who));
    }
    assert(one.entry_counts =~= other.entry_counts);
}

} // verus!
