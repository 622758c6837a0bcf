use hanabi_search::cards::{Card, CardId, IdentitySet, Rank, Suit};
use hanabi_search::future_card_quality::{FutureCardQuality, SecuredCardQuality};
use hanabi_search::h_group::admission::VisibleCard;
use hanabi_search::h_group::frontier_value::{
    can_play_soon, consecutive_save_pressure, critical, narrow, secured_card_quality, unseen,
};

fn hands(identities: &[&[Option<Card>]]) -> Vec<Vec<VisibleCard>> {
    let mut next = 0u8;
    identities
        .iter()
        .map(|hand| {
            hand.iter()
                .map(|identity| {
                    next += 1;
                    VisibleCard { id: CardId::new(next), identity: *identity, rank_clued: false }
                })
                .collect()
        })
        .collect()
}

fn card(suit: Suit, rank: Rank) -> Card {
    Card::new(suit, rank)
}

#[test]
fn contingent_second_save_accounts_for_token_shortfall() {
    assert_eq!(consecutive_save_pressure(2), 1);
    assert_eq!(consecutive_save_pressure(1), 2);
    assert_eq!(consecutive_save_pressure(0), 3);
}

#[test]
fn save_pressure_is_flat_with_spare_tokens_and_counts_saturate() {
    assert_eq!(consecutive_save_pressure(8), 1);
    assert_eq!(narrow(7), 7);
    assert_eq!(narrow(255), 255);
    assert_eq!(narrow(1000), 255);
}

#[test]
fn unseen_copies_exclude_visible_discarded_and_played_ones() {
    let r1 = card(Suit::Red, Rank::One);
    let table = hands(&[&[None, Some(r1)], &[Some(card(Suit::Blue, Rank::Two))]]);
    assert_eq!(unseen(&table, &vec![r1], [0; 5], r1), 1);
    assert_eq!(unseen(&table, &vec![r1], [1, 0, 0, 0, 0], r1), 0);
    assert_eq!(unseen(&table, &vec![], [0; 5], card(Suit::Green, Rank::Five)), 1);
    assert_eq!(unseen(&table, &vec![r1, r1, r1], [0; 5], r1), 0);
}

#[test]
fn a_useful_identity_with_its_other_copies_discarded_is_critical() {
    let b2 = card(Suit::Blue, Rank::Two);
    let b1 = card(Suit::Blue, Rank::One);
    let useful = IdentitySet::all();
    assert!(critical(useful, &vec![b2], b2));
    assert!(!critical(useful, &vec![], b2));
    assert!(!critical(useful, &vec![b1], b1));
    assert!(critical(useful, &vec![b1, b1], b1));
    assert!(critical(useful, &vec![], card(Suit::Red, Rank::Five)));
    assert!(!critical(IdentitySet::empty(), &vec![b2], b2));
}

#[test]
fn a_saved_card_can_play_soon_when_its_predecessors_are_reachable() {
    let r2 = card(Suit::Red, Rank::Two);
    let r3 = card(Suit::Red, Rank::Three);
    let domain = IdentitySet::singleton(r3);
    let useful = IdentitySet::all();
    let empty = hands(&[&[None]]);
    let heights = [1, 0, 0, 0, 0];
    assert!(!can_play_soon(&empty, heights, useful, domain, IdentitySet::empty()));
    assert!(can_play_soon(&empty, heights, useful, domain, IdentitySet::singleton(r2)));
    assert!(can_play_soon(&hands(&[&[Some(r2)]]), heights, useful, domain, IdentitySet::empty()));
    assert!(can_play_soon(&empty, [2, 0, 0, 0, 0], useful, domain, IdentitySet::empty()));
    assert!(!can_play_soon(&empty, heights, useful, IdentitySet::empty(), IdentitySet::empty()));
    // An identity no longer useful does not hold the hand back.
    assert!(can_play_soon(&empty, heights, IdentitySet::empty(), domain, IdentitySet::empty()));
}

#[test]
fn secured_quality_counts_missing_predecessors_and_a_visible_successor() {
    let r1 = card(Suit::Red, Rank::One);
    let r3 = card(Suit::Red, Rank::Three);
    let r4 = card(Suit::Red, Rank::Four);
    let table = hands(&[&[Some(r1)], &[Some(r4)]]);
    let quality = secured_card_quality(&table, [0; 5], IdentitySet::singleton(r3));
    let expected = SecuredCardQuality::from_cards(vec![FutureCardQuality {
        rank: Rank::Three,
        missing_predecessors: 1,
        visible_successor: true,
    }]);
    assert_eq!(quality, expected);
    let none = secured_card_quality(&table, [0; 5], IdentitySet::empty());
    assert_eq!(none, SecuredCardQuality::new());
}
