use hanabi_search::cards::{Card, CardId, IdentitySet, PlayerId, Rank, Suit};
use hanabi_search::h_group::admission::VisibleCard;
use hanabi_search::h_group::epistemic::{BeliefProvenance, EpistemicState};

fn card(id: u8, identity: Option<Card>) -> VisibleCard {
    VisibleCard { id: CardId::new(id), identity, rank_clued: false }
}

fn set(cards: &[Card]) -> IdentitySet {
    cards.iter().fold(IdentitySet::empty(), |s, c| s.union(IdentitySet::singleton(*c)))
}

#[test]
fn beliefs_separate_own_logic_conventions_and_visible_cards() {
    let r1 = Card::new(Suit::Red, Rank::One);
    let r2 = Card::new(Suit::Red, Rank::Two);
    let b3 = Card::new(Suit::Blue, Rank::Three);
    let hands = vec![
        vec![card(1, None), card(2, None), card(3, None)],
        vec![card(10, Some(b3)), card(11, None)],
    ];
    let logical = vec![
        (CardId::new(1), set(&[r1, r2])),
        (CardId::new(2), set(&[r1, r2])),
        (CardId::new(3), set(&[r2])),
    ];
    let notes = vec![(CardId::new(1), set(&[r1])), (CardId::new(2), set(&[b3]))];
    let state = EpistemicState::from_analysis(&hands, PlayerId::new(0), &logical, &notes);

    let first = state.belief(CardId::new(1)).unwrap();
    assert_eq!(first.identities, set(&[r1]));
    assert_eq!(first.provenance, BeliefProvenance::Convention);
    assert_eq!(first.known_identity(), Some(r1));
    // A note contradicting the logical domain leaves the logical domain.
    let second = state.belief(CardId::new(2)).unwrap();
    assert_eq!(second.identities, set(&[r1, r2]));
    assert_eq!(second.provenance, BeliefProvenance::Convention);
    assert_eq!(second.known_identity(), None);
    let third = state.belief(CardId::new(3)).unwrap();
    assert_eq!(third.provenance, BeliefProvenance::Logical);
    let seen = state.belief(CardId::new(10)).unwrap();
    assert_eq!(seen.identities, IdentitySet::singleton(b3));
    assert_eq!(seen.provenance, BeliefProvenance::Visible);
    assert_eq!(seen.owner, PlayerId::new(1));
    // Another player's unresolved card is not filled in.
    assert!(state.belief(CardId::new(11)).is_none());

    let own: Vec<u8> = state.own_beliefs().iter().map(|b| b.card.id).collect();
    assert_eq!(own, vec![1, 2, 3]);
}
