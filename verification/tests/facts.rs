use hanabi_search::cards::{Card, CardId, PlayerId, Rank, Suit};
use hanabi_search::h_group::facts::{
    ConventionFacts, ConventionIdentityClaim, IdentityClaimRelation,
};
use hanabi_search::h_group::{HGroupMoveKind, HGroupSignal};

fn signal(kind: HGroupMoveKind, card: CardId, identity: Option<Card>) -> HGroupSignal {
    HGroupSignal {
        turn: 1,
        actor: PlayerId::new(0),
        target: None,
        kind,
        cards: vec![card],
        identity,
    }
}

#[test]
fn current_facts_are_distinct_from_signal_history() {
    let card = CardId::new(3);
    let red_one = Card::new(Suit::Red, Rank::One);
    let signals = vec![
        signal(HGroupMoveKind::FixClue, card, Some(red_one)),
        signal(HGroupMoveKind::PlayClue, card, Some(red_one)),
    ];
    let facts = ConventionFacts::from_signals(&signals);
    assert!(!facts.fixed_cards().contains(&card));
    assert_eq!(facts.known_identity(card), Some(red_one));
}

#[test]
fn elimination_identity_is_retained_as_a_disjunction() {
    let red_one = Card::new(Suit::Red, Rank::One);
    let mut elimination = signal(
        HGroupMoveKind::EliminationFinesse,
        CardId::new(3),
        Some(red_one),
    );
    elimination.cards.push(CardId::new(4));
    let facts = ConventionFacts::from_signals(&vec![elimination]);

    assert_eq!(facts.known_identity(CardId::new(3)), None);
    assert_eq!(facts.known_identity(CardId::new(4)), None);
    assert_eq!(
        facts.identity_claims(),
        &vec![ConventionIdentityClaim {
            turn: 1,
            actor: PlayerId::new(0),
            target: None,
            source: HGroupMoveKind::EliminationFinesse,
            cards: vec![CardId::new(3), CardId::new(4)],
            identity: red_one,
            relation: IdentityClaimRelation::OneOf,
        }]
    );
}

#[test]
fn retraction_turns_a_disproved_identity_into_negative_knowledge() {
    let card = CardId::new(3);
    let purple_two = Card::new(Suit::Purple, Rank::Two);
    let facts = ConventionFacts::from_signals(&vec![
        signal(HGroupMoveKind::Prompt, card, Some(purple_two)),
        signal(HGroupMoveKind::Retraction, card, Some(purple_two)),
    ]);

    assert_eq!(facts.known_identity(card), None);
    assert!(facts.excluded_identities(card).contains(purple_two));
    assert!(facts.identity_claims().is_empty());
}

#[test]
fn applying_a_signal_twice_changes_nothing_more() {
    let red_two = Card::new(Suit::Red, Rank::Two);
    let mut layered = signal(HGroupMoveKind::LayeredFinesse, CardId::new(5), Some(red_two));
    layered.cards.push(CardId::new(6));
    let mut once = ConventionFacts::default();
    once.apply_signal(&layered);
    let mut twice = ConventionFacts::default();
    twice.apply_signal(&layered);
    twice.apply_signal(&layered);
    assert_eq!(once.identity_claims(), twice.identity_claims());
    assert_eq!(twice.identity_claims().len(), 1);
    assert_eq!(twice.known_identity(CardId::new(6)), Some(red_two));
    assert_eq!(twice.demonstrated_layer(CardId::new(5)), None);
    assert_eq!(twice.demonstrated_layer(CardId::new(6)), Some(red_two));
    assert!(twice.validate().is_ok());
}

#[test]
fn conflicting_claims_clear_the_known_identity_and_priority_toggles() {
    let card = CardId::new(7);
    let facts = ConventionFacts::from_signals(&vec![
        signal(HGroupMoveKind::Prompt, card, Some(Card::new(Suit::Blue, Rank::One))),
        signal(HGroupMoveKind::Finesse, card, Some(Card::new(Suit::Blue, Rank::Two))),
        signal(HGroupMoveKind::Priority, CardId::new(8), None),
    ]);
    assert_eq!(facts.known_identity(card), None);
    assert!(facts.active_priority().contains(&CardId::new(8)));
    let mut facts = facts;
    facts.apply_signal(&signal(HGroupMoveKind::Retraction, CardId::new(8), None));
    assert!(!facts.active_priority().contains(&CardId::new(8)));
}
