use nft_raffle::{ErrorCode, Identity, NFTRaffle, PrizeAsset, PrizeTransfer};

fn id(tag: u8) -> Identity {
    Identity::new([tag; 32])
}

/// A closed raffle in which `a` holds three entries and `b` one.
fn three_to_one(owner: Identity, a: Identity, b: Identity) -> NFTRaffle {
    let mut raffle = NFTRaffle::new(owner, 10);
    assert_eq!(raffle.initialize_raffle(owner, owner, 7), Ok(()));
    assert_eq!(raffle.buy_entry(a, 30, 3), Ok(30));
    assert_eq!(raffle.buy_entry(b, 10, 1), Ok(10));
    assert_eq!(raffle.end_raffle(owner), Ok(()));
    raffle
}

#[test]
fn entropy_picks_the_slot_by_remainder() {
    let owner = id(1);
    let a = id(2);
    let b = id(3);
    let prize = PrizeAsset { address: owner, id: 7 };
    let cases: Vec<(usize, Identity)> = vec![
        (0, a),
        (1, a),
        (2, a),
        (3, b),
        (4, a),
        (7, b),
        (10, a),
        (usize::MAX, b),
        (usize::MAX - 1, a),
    ];
    for (entropy, winner) in cases {
        let mut raffle = three_to_one(owner, a, b);
        assert_eq!(
            raffle.select_winner_with(owner, entropy),
            Ok(PrizeTransfer { asset: prize, from: owner, to: winner })
        );
    }
}

#[test]
fn draw_wipes_the_round_and_clears_the_prize() {
    let owner = id(1);
    let a = id(2);
    let b = id(3);
    let mut raffle = three_to_one(owner, a, b);
    assert!(raffle.select_winner_with(owner, 2).is_ok());
    assert_eq!(raffle, NFTRaffle::new(owner, 10));
    assert_eq!(raffle.entry_count(a), 0);
    assert_eq!(raffle.entry_count(b), 0);
    assert!(raffle.players().is_empty());
    assert!(raffle.player_selector().is_empty());
    assert_eq!(raffle.total_entries(), 0);
    assert_eq!(raffle.prize(), None);
    assert!(!raffle.raffle_status());
    assert_eq!(raffle.select_winner_with(owner, 2), Err(ErrorCode::NoParticipants));
}

#[test]
fn slots_are_shared_out_in_proportion_to_entries() {
    let owner = id(1);
    let a = id(2);
    let b = id(3);
    let mut wins_of_a = 0;
    let mut wins_of_b = 0;
    for entropy in 0..4000usize {
        let mut raffle = three_to_one(owner, a, b);
        let winner = raffle.select_winner_with(owner, entropy).unwrap().to;
        if winner == a {
            wins_of_a += 1;
        } else {
            assert_eq!(winner, b);
            wins_of_b += 1;
        }
    }
    assert_eq!(wins_of_a, 3000);
    assert_eq!(wins_of_b, 1000);
}

#[test]
fn random_draw_lands_on_a_participant_with_entries() {
    let owner = id(1);
    let a = id(2);
    let b = id(3);
    for _ in 0..200 {
        let mut raffle = three_to_one(owner, a, b);
        let holders = raffle.player_selector().clone();
        let transfer = raffle.select_winner(owner).unwrap();
        assert!(holders.contains(&transfer.to));
        assert_ne!(transfer.to, owner);
        assert_eq!(transfer.from, owner);
        assert_eq!(transfer.asset, PrizeAsset { address: owner, id: 7 });
        assert_eq!(raffle, NFTRaffle::new(owner, 10));
    }
}

#[test]
fn random_draw_frequencies_follow_the_entries() {
    let owner = id(1);
    let a = id(2);
    let b = id(3);
    let trials = 8000;
    let mut wins_of_a = 0;
    for _ in 0..trials {
        let mut raffle = three_to_one(owner, a, b);
        if raffle.select_winner(owner).unwrap().to == a {
            wins_of_a += 1;
        }
    }
    let share_of_a = wins_of_a as f64 / trials as f64;
    let expected = 3.0 / 4.0;
    assert!((share_of_a - expected).abs() < 0.05, "share of a: {}", share_of_a);
}

#[test]
fn random_draws_do_not_repeat_one_slot() {
    let owner = id(1);
    let mut winners = Vec::new();
    for _ in 0..64 {
        let mut raffle = NFTRaffle::new(owner, 0);
        assert_eq!(raffle.initialize_raffle(owner, owner, 7), Ok(()));
        for tag in 2..18u8 {
            assert_eq!(raffle.buy_entry(id(tag), 0, 1), Ok(0));
        }
        assert_eq!(raffle.end_raffle(owner), Ok(()));
        winners.push(raffle.select_winner(owner).unwrap().to);
    }
    assert!(winners.iter().any(|winner| *winner != winners[0]));
}

#[test]
fn sole_participant_always_wins() {
    let owner = id(1);
    let a = id(2);
    for entropy in [0usize, 1, 2, 99, usize::MAX] {
        let mut raffle = NFTRaffle::new(owner, 1);
        assert_eq!(raffle.initialize_raffle(owner, owner, 7), Ok(()));
        assert_eq!(raffle.buy_entry(a, 2, 2), Ok(2));
        assert_eq!(raffle.end_raffle(owner), Ok(()));
        assert_eq!(raffle.select_winner_with(owner, entropy).unwrap().to, a);
    }
}
