//! Facts about sums of entry counts and about slots in a ticket pool, on
//! which the proofs that an operation keeps the ledger consistent rest.

use vstd::prelude::*;
use crate::identity::Identity;
use crate::ledger::{copies, held_in, occurrences, records_agree, sum_of_counts};

verus! {

/// The sum of the counts is the count of any one participant plus the sum
/// of the others.
pub proof fn lemma_sum_splits_at(counts: Map<Identity, nat>, who: Identity)
    requires
        counts.dom().finite(),
        counts.contains_key(who),
    ensures
        sum_of_counts(counts) == counts[who] + sum_of_counts(counts.remove(who)),
    decreases counts.dom().len(),
{
    let first = counts.dom().choose();
    if first != who {
        let rest = counts.remove(first);
        lemma_sum_splits_at(rest, who);
        lemma_sum_splits_at(counts.remove(who), first);
        assert(rest.remove(who) =~= counts.remove(who).remove(first));
    }
}

/// No participant holds more entries than all of them together.
pub proof fn lemma_count_within_sum(counts: Map<Identity, nat>, who: Identity)
    requires
        counts.dom().finite(),
        counts.contains_key(who),
    ensures
        counts[who] <= sum_of_counts(counts),
{
    lemma_sum_splits_at(counts, who);
}

/// Setting the count of `who` to `value` changes the sum by the difference
/// to what `who` held before.
pub proof fn lemma_sum_after_insert(counts: Map<Identity, nat>, who: Identity, value: nat)
    requires
        counts.dom().finite(),
    ensures
        sum_of_counts(counts.insert(who, value)) + (if counts.contains_key(who) {
            counts[who]
        } else {
            0
        }) == sum_of_counts(counts) + value,
{
    let after = counts.insert(who, value);
    lemma_sum_splits_at(after, who);
    assert(after.remove(who) =~= counts.remove(who));
    if counts.contains_key(who) {
        lemma_sum_splits_at(counts, who);
    } else {
        assert(counts.remove(who) =~= counts);
    }
}

/// Appending `count` slots of `who` to a pool gives `who` that many more
/// slots and nobody else any.
pub proof fn lemma_occurrences_after_copies(
    pool: Seq<Identity>,
    who: Identity,
    count: nat,
    other: Identity,
)
    ensures
        occurrences(pool + copies(who, count), other) == occurrences(pool, other) + (if other
            == who {
            count
        } else {
            0
        }),
    decreases count,
{
    if count == 0 {
        assert(pool + copies(who, count) =~= pool);
    } else {
        let shorter = pool + copies(who, (count - 1) as nat);
        lemma_occurrences_after_copies(pool, who, (count - 1) as nat, other);
        assert((pool + copies(who, count)).drop_last() =~= shorter);
    }
}

/// Whoever holds a slot of the pool occurs in it at least once.
pub proof fn lemma_slot_holder_occurs(pool: Seq<Identity>, slot: int)
    requires
        0 <= slot < pool.len(),
    ensures
        occurrences(pool, pool[slot]) >= 1,
    decreases pool.len(),
{
    if slot < pool.len() - 1 {
        lemma_slot_holder_occurs(pool.drop_last(), slot);
    }
}

/// Records that agree still agree once `who` has bought `count` more
/// entries.
pub proof fn lemma_records_agree_after_purchase(
    entry_counts: Map<Identity, nat>,
    participants: Set<Identity>,
    ticket_pool: Seq<Identity>,
    total_entries: nat,
    who: Identity,
    count: nat,
)
    requires
        records_agree(entry_counts, participants, ticket_pool, total_entries),
        count >= 1,
    ensures
        records_agree(
            entry_counts.insert(who, held_in(entry_counts, who) + count),
            participants.insert(who),
            ticket_pool + copies(who, count),
            total_entries + count,
        ),
{
    let counts_after = entry_counts.insert(who, held_in(entry_counts, who) + count);
    let participants_after = participants.insert(who);
    let pool_after = ticket_pool + copies(who, count);
    lemma_sum_after_insert(entry_counts, who, held_in(entry_counts, who) + count);
    assert(participants_after =~= counts_after.dom());
    assert forall|other: Identity| #[trigger]
        occurrences(pool_after, other) == held_in(counts_after, other) by {
        lemma_occurrences_after_copies(ticket_pool, who, count, other);
        assert(occurrences(ticket_pool, other) == held_in(entry_counts, other));
    }
    assert forall|i: int| 0 <= i < pool_after.len() implies participants_after.contains(
        #[trigger] pool_after[i],
    ) by {
        if i < ticket_pool.len() {
            assert(participants.contains(ticket_pool[i]));
        }
    }
}

/// No records at all agree.
pub proof fn lemma_empty_records_agree()
    ensures
        records_agree(Map::empty(), Set::empty(), Seq::empty(), 0),
{
    assert(Set::<Identity>::empty() =~= Map::<Identity, nat>::empty().dom());
}

} // verus!
