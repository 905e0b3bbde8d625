use nft_raffle::{ErrorCode, Identity, NFTRaffle, PrizeAsset, PrizeTransfer};

fn id(tag: u8) -> Identity {
    Identity::new([tag; 32])
}

fn open_raffle(owner: Identity, entry_cost: u64) -> NFTRaffle {
    let mut raffle = NFTRaffle::new(owner, entry_cost);
    assert_eq!(raffle.initialize_raffle(owner, owner, 7), Ok(()));
    raffle
}

fn sum_of_entry_counts(raffle: &NFTRaffle) -> u64 {
    let mut sum = 0;
    for player in raffle.players() {
        sum += raffle.entry_count(*player);
    }
    sum
}

#[test]
fn new_ledger_is_empty_and_closed() {
    let owner = id(1);
    let raffle = NFTRaffle::new(owner, 10);
    assert_eq!(raffle.owner(), owner);
    assert_eq!(raffle.entry_cost(), 10);
    assert!(!raffle.raffle_status());
    assert_eq!(raffle.prize(), None);
    assert_eq!(raffle.total_entries(), 0);
    assert!(raffle.players().is_empty());
    assert!(raffle.player_selector().is_empty());
    assert_eq!(raffle.entry_count(owner), 0);
}

#[test]
fn full_round_with_two_participants() {
    let owner = id(1);
    let a = id(2);
    let b = id(3);
    let mut raffle = NFTRaffle::new(owner, 10);
    assert_eq!(raffle.initialize_raffle(owner, owner, 7), Ok(()));
    assert!(raffle.raffle_status());
    assert_eq!(raffle.prize(), Some(PrizeAsset { address: owner, id: 7 }));

    assert_eq!(raffle.buy_entry(a, 30, 3), Ok(30));
    assert_eq!(raffle.buy_entry(b, 5, 1), Err(ErrorCode::InsufficientFunds));
    assert_eq!(raffle.buy_entry(b, 10, 1), Ok(10));

    assert_eq!(raffle.end_raffle(owner), Ok(()));
    assert!(!raffle.raffle_status());
    assert_eq!(raffle.total_entries(), 4);
    assert_eq!(raffle.player_selector(), &vec![a, a, a, b]);
    assert_eq!(raffle.entry_count(a), 3);
    assert_eq!(raffle.entry_count(b), 1);

    let transfer = raffle.select_winner(owner).unwrap();
    assert!(transfer.to == a || transfer.to == b);
    assert_eq!(transfer.from, owner);
    assert_eq!(transfer.asset, PrizeAsset { address: owner, id: 7 });

    assert_eq!(raffle.entry_count(a), 0);
    assert_eq!(raffle.entry_count(b), 0);
    assert_eq!(raffle.total_entries(), 0);
    assert!(raffle.players().is_empty());
    assert!(raffle.player_selector().is_empty());
    assert_eq!(raffle.prize(), None);
    assert!(!raffle.raffle_status());
}

#[test]
fn totals_agree_after_every_purchase() {
    let owner = id(1);
    let mut raffle = open_raffle(owner, 2);
    let purchases: Vec<(u8, u64, u64)> =
        vec![(2, 100, 3), (3, 1, 1), (2, 100, 5), (4, 2, 1), (3, 40, 20), (4, 0, 1), (5, 8, 4)];
    let mut expected_total = 0;
    for (tag, balance, count) in purchases {
        match raffle.buy_entry(id(tag), balance, count) {
            Ok(payment) => {
                assert_eq!(payment, 2 * count);
                expected_total += count;
            }
            Err(error) => assert_eq!(error, ErrorCode::InsufficientFunds),
        }
        assert_eq!(raffle.total_entries(), expected_total);
        assert_eq!(raffle.total_entries(), sum_of_entry_counts(&raffle));
        assert_eq!(raffle.total_entries(), raffle.player_selector().len() as u64);
    }
    assert_eq!(expected_total, 33);
}

#[test]
fn repeated_purchases_add_up_for_one_participant() {
    let owner = id(1);
    let a = id(2);
    let b = id(3);
    let mut raffle = open_raffle(owner, 1);
    assert_eq!(raffle.buy_entry(a, 2, 2), Ok(2));
    assert_eq!(raffle.buy_entry(b, 1, 1), Ok(1));
    assert_eq!(raffle.buy_entry(a, 3, 3), Ok(3));
    assert_eq!(raffle.entry_count(a), 5);
    assert_eq!(raffle.entry_count(b), 1);
    assert_eq!(raffle.players(), &vec![a, b]);
    assert_eq!(raffle.player_selector(), &vec![a, a, b, a, a, a]);
    assert_eq!(raffle.total_entries(), 6);
}

#[test]
fn every_slot_belongs_to_a_participant_with_entries() {
    let owner = id(1);
    let mut raffle = open_raffle(owner, 1);
    assert_eq!(raffle.buy_entry(id(2), 9, 4), Ok(4));
    assert_eq!(raffle.buy_entry(id(3), 9, 2), Ok(2));
    assert_eq!(raffle.buy_entry(id(2), 9, 1), Ok(1));
    for holder in raffle.player_selector() {
        assert!(raffle.players().contains(holder));
        assert!(raffle.entry_count(*holder) >= 1);
        let slots = raffle.player_selector().iter().filter(|slot| *slot == holder).count();
        assert_eq!(slots as u64, raffle.entry_count(*holder));
    }
    assert_eq!(raffle.entry_count(id(4)), 0);
}

#[test]
fn free_entries_need_no_balance() {
    let owner = id(1);
    let mut raffle = open_raffle(owner, 0);
    assert_eq!(raffle.buy_entry(id(2), 0, 5), Ok(0));
    assert_eq!(raffle.total_entries(), 5);
}

#[test]
fn purchase_needs_exactly_the_price() {
    let owner = id(1);
    let mut raffle = open_raffle(owner, 7);
    assert_eq!(raffle.buy_entry(id(2), 20, 3), Err(ErrorCode::InsufficientFunds));
    assert_eq!(raffle.buy_entry(id(2), 21, 3), Ok(21));
}

#[test]
fn price_beyond_any_balance_is_insufficient_funds() {
    let owner = id(1);
    let mut raffle = open_raffle(owner, u64::MAX);
    let expected = open_raffle(owner, u64::MAX);
    assert_eq!(raffle.buy_entry(id(2), u64::MAX, 2), Err(ErrorCode::InsufficientFunds));
    assert_eq!(raffle, expected);
    assert_eq!(raffle.buy_entry(id(2), u64::MAX, 1), Ok(u64::MAX));
}

#[test]
fn entry_cost_changes_only_while_closed() {
    let owner = id(1);
    let a = id(2);
    let mut raffle = open_raffle(owner, 10);
    assert_eq!(raffle.change_entry_cost(owner, 4), Err(ErrorCode::RaffleActive));
    assert_eq!(raffle.entry_cost(), 10);
    assert_eq!(raffle.buy_entry(a, 100, 2), Ok(20));
    assert_eq!(raffle.end_raffle(owner), Ok(()));

    assert_eq!(raffle.change_entry_cost(owner, 4), Ok(()));
    assert_eq!(raffle.entry_cost(), 4);
    assert_eq!(raffle.total_entries(), 2);
    assert_eq!(raffle.entry_count(a), 2);
    assert_eq!(raffle.players(), &vec![a]);
    assert_eq!(raffle.player_selector(), &vec![a, a]);
    assert_eq!(raffle.prize(), Some(PrizeAsset { address: owner, id: 7 }));
    assert!(!raffle.raffle_status());

    assert_eq!(
        raffle.select_winner_with(owner, 0),
        Ok(PrizeTransfer { asset: PrizeAsset { address: owner, id: 7 }, from: owner, to: a })
    );
    assert_eq!(raffle.initialize_raffle(owner, owner, 8), Ok(()));
    assert_eq!(raffle.buy_entry(a, 11, 3), Err(ErrorCode::InsufficientFunds));
    assert_eq!(raffle.buy_entry(a, 12, 3), Ok(12));
}

#[test]
fn closing_keeps_what_was_entered() {
    let owner = id(1);
    let mut raffle = open_raffle(owner, 1);
    assert_eq!(raffle.buy_entry(id(2), 5, 2), Ok(2));
    assert_eq!(raffle.end_raffle(owner), Ok(()));
    assert_eq!(raffle.total_entries(), 2);
    assert_eq!(raffle.entry_count(id(2)), 2);
    assert_eq!(raffle.prize(), Some(PrizeAsset { address: owner, id: 7 }));
    assert_eq!(raffle.buy_entry(id(2), 5, 1), Err(ErrorCode::RaffleInactive));
}

#[test]
fn reset_zeroes_the_ledger_from_any_state() {
    let owner = id(1);
    let mut raffle = open_raffle(owner, 10);
    assert_eq!(raffle.buy_entry(id(2), 50, 5), Ok(50));
    assert_eq!(raffle.reset_contract(owner), Ok(()));
    assert_eq!(raffle, NFTRaffle::new(owner, 0));
    assert_eq!(raffle.owner(), owner);
    assert_eq!(raffle.entry_cost(), 0);
    assert!(!raffle.raffle_status());
    assert_eq!(raffle.prize(), None);
    assert_eq!(raffle.total_entries(), 0);

    let mut fresh = NFTRaffle::new(owner, 3);
    assert_eq!(fresh.reset_contract(owner), Ok(()));
    assert_eq!(fresh, NFTRaffle::new(owner, 0));
}

#[test]
fn a_new_round_can_follow_a_draw() {
    let owner = id(1);
    let mut raffle = open_raffle(owner, 1);
    assert_eq!(raffle.buy_entry(id(2), 1, 1), Ok(1));
    assert_eq!(raffle.end_raffle(owner), Ok(()));
    assert!(raffle.select_winner(owner).is_ok());
    assert_eq!(raffle.initialize_raffle(owner, owner, 9), Ok(()));
    assert_eq!(raffle.prize(), Some(PrizeAsset { address: owner, id: 9 }));
    assert_eq!(raffle.buy_entry(id(3), 1, 1), Ok(1));
    assert_eq!(raffle.players(), &vec![id(3)]);
}

#[test]
fn restored_ledger_equals_the_one_stored() {
    let owner = id(1);
    let a = id(2);
    let b = id(3);
    let mut raffle = open_raffle(owner, 5);
    assert_eq!(raffle.buy_entry(a, 10, 2), Ok(10));
    assert_eq!(raffle.buy_entry(b, 5, 1), Ok(5));
    assert_eq!(raffle.buy_entry(a, 5, 1), Ok(5));

    let restored = NFTRaffle::restore(
        raffle.owner(),
        raffle.entry_cost(),
        raffle.prize(),
        raffle.raffle_status(),
        raffle.player_selector(),
    )
    .unwrap();
    assert_eq!(restored, raffle);
    assert_eq!(restored.entry_count(a), 3);
    assert_eq!(restored.entry_count(b), 1);
    assert_eq!(restored.players(), &vec![a, b]);
    assert_eq!(restored.total_entries(), 4);
    assert_eq!(restored.player_selector(), &vec![a, a, b, a]);

    let empty = NFTRaffle::restore(owner, 9, None, false, &Vec::new()).unwrap();
    assert_eq!(empty, NFTRaffle::new(owner, 9));
}

#[test]
fn open_round_without_a_prize_cannot_be_restored() {
    let owner = id(1);
    assert_eq!(NFTRaffle::restore(owner, 5, None, true, &vec![id(2)]), None);
    assert_eq!(NFTRaffle::restore(owner, 5, None, true, &Vec::new()), None);
    let prize = PrizeAsset { address: owner, id: 7 };
    assert!(NFTRaffle::restore(owner, 5, Some(prize), true, &vec![id(2)]).is_some());
    assert!(NFTRaffle::restore(owner, 5, Some(prize), false, &vec![id(2)]).is_some());
}

#[test]
fn closed_round_without_a_prize_has_no_winner() {
    let owner = id(1);
    let mut raffle = NFTRaffle::restore(owner, 5, None, false, &vec![id(2), id(3)]).unwrap();
    assert_eq!(raffle.total_entries(), 2);
    assert_eq!(raffle.select_winner(owner), Err(ErrorCode::NoPrizeSet));
    assert_eq!(raffle.select_winner_with(owner, 1), Err(ErrorCode::NoPrizeSet));
    assert_eq!(raffle.total_entries(), 2);
    assert_eq!(raffle.player_selector(), &vec![id(2), id(3)]);
}
