use hanabi_search::cards::{Card, CardId, CardSet, Clue, IdentitySet, PlayerId, Rank, Suit};
use hanabi_search::h_group::admission::VisibleCard;
use hanabi_search::h_group::bluff::{
    bluff_connector_is_promised, bluff_is_queued, bluff_play_connects, bluff_target_kind_at,
    bluff_target_order_is_legal, bluff_through_clued_cards, literal_identity_through,
    BluffTargetKind, ClueEvent,
};
use hanabi_search::h_group::connection::{
    ConnectionManager, ConnectionObligation, HGroupConnectionKind, PromiseId,
};

#[test]
fn rank_bluffs_only_connect_on_consecutive_ranks() {
    assert!(!bluff_play_connects(
        Clue::Rank(Rank::Three),
        Card::new(Suit::Yellow, Rank::One),
    ));
    assert!(bluff_play_connects(
        Clue::Rank(Rank::Three),
        Card::new(Suit::Red, Rank::Two),
    ));
}

#[test]
fn an_empty_stack_rank_three_is_the_special_future_target() {
    assert_eq!(
        bluff_target_kind_at(
            [0; 5],
            Clue::Rank(Rank::Three),
            Card::new(Suit::Yellow, Rank::Three),
        ),
        Some(BluffTargetKind::Three),
    );
}

#[test]
fn ordinary_targets_are_one_beyond_playable() {
    assert_eq!(
        bluff_target_kind_at([1, 0, 0, 0, 0], Clue::Suit(Suit::Red), Card::new(Suit::Red, Rank::Three)),
        Some(BluffTargetKind::Ordinary),
    );
    assert_eq!(
        bluff_target_kind_at([0; 5], Clue::Suit(Suit::Red), Card::new(Suit::Red, Rank::Three)),
        None,
    );
    assert_eq!(
        bluff_target_kind_at([3, 0, 0, 0, 0], Clue::Rank(Rank::Three), Card::new(Suit::Red, Rank::Three)),
        None,
    );
    assert!(bluff_play_connects(Clue::Suit(Suit::Blue), Card::new(Suit::Blue, Rank::Four)));
    assert!(!bluff_play_connects(Clue::Suit(Suit::Blue), Card::new(Suit::Green, Rank::Four)));
}

#[test]
fn self_bluffs_need_a_rank_clue() {
    let alice = PlayerId::new(0);
    let bob = PlayerId::new(1);
    assert!(bluff_target_order_is_legal(Clue::Suit(Suit::Red), alice, bob));
    assert!(bluff_target_order_is_legal(Clue::Rank(Rank::Two), bob, bob));
    assert!(!bluff_target_order_is_legal(Clue::Suit(Suit::Red), bob, bob));
}

#[test]
fn bluffs_through_clued_cards_need_every_higher_connector() {
    let red3 = Card::new(Suit::Red, Rank::Three);
    let red4 = Card::new(Suit::Red, Rank::Four);
    let focus = Card::new(Suit::Red, Rank::Five);
    let both = IdentitySet::singleton(red3).union(IdentitySet::singleton(red4));
    assert!(bluff_through_clued_cards(1, focus, both));
    assert!(!bluff_through_clued_cards(1, focus, IdentitySet::singleton(red4)));
    // The missing connector is present: a truthful chain, not a Bluff.
    let with_two = both.union(IdentitySet::singleton(Card::new(Suit::Red, Rank::Two)));
    assert!(!bluff_through_clued_cards(1, focus, with_two));
    // One rank beyond playable needs no clued connector.
    assert!(bluff_through_clued_cards(3, focus, IdentitySet::empty()));
    assert!(!bluff_through_clued_cards(4, focus, IdentitySet::empty()));
}

fn event(turn: u32, clue: Clue, touched: &[u8], untouched: &[u8]) -> ClueEvent {
    ClueEvent {
        turn,
        clue,
        touched: touched.iter().map(|c| CardId::new(*c)).collect(),
        untouched: untouched.iter().map(|c| CardId::new(*c)).collect(),
    }
}

#[test]
fn literal_identity_comes_only_from_clues_up_to_the_turn() {
    let events = vec![
        event(1, Clue::Suit(Suit::Red), &[5], &[6]),
        event(3, Clue::Rank(Rank::One), &[5, 6], &[]),
        event(9, Clue::Rank(Rank::Two), &[6], &[5]),
    ];
    assert_eq!(literal_identity_through(&events, CardId::new(5), 3), Some(Card::new(Suit::Red, Rank::One)));
    // Before the rank clue the red card could be any red rank.
    assert_eq!(literal_identity_through(&events, CardId::new(5), 2), None);
    // Card 6 is a 1 but not red: four identities remain.
    assert_eq!(literal_identity_through(&events, CardId::new(6), 3), None);
    // Contradictory later clues leave no identity.
    assert_eq!(literal_identity_through(&events, CardId::new(6), 9), None);
}

fn step(actor: u8, focus: u8, expected: Card, kind: HGroupConnectionKind) -> ConnectionObligation {
    ConnectionObligation {
        promise: PromiseId::unassigned(),
        actor: PlayerId::new(actor),
        cards: vec![CardId::new(20 + actor)],
        expected,
        focus_identity: expected,
        kind,
        focus: CardId::new(focus),
        step: 0,
    }
}

#[test]
fn a_due_connector_is_promised() {
    let r1 = Card::new(Suit::Red, Rank::One);
    let seen = vec![vec![VisibleCard { id: CardId::new(3), identity: Some(r1), rank_clued: false }]];
    let hands = vec![vec![CardId::new(3)]];
    let mut playing = CardSet::new();
    playing.insert(CardId::new(3));
    let none = ConnectionManager::default();
    assert!(bluff_connector_is_promised(&seen, &hands, &playing, &none, &vec![], r1, None));
    assert!(!bluff_connector_is_promised(&seen, &hands, &CardSet::new(), &none, &vec![], r1, None));
    let b1 = Card::new(Suit::Blue, Rank::One);
    let mut pending = ConnectionManager::default();
    pending.start(1, step(1, 9, b1, HGroupConnectionKind::Finesse));
    assert!(bluff_connector_is_promised(&seen, &hands, &CardSet::new(), &pending, &vec![true], b1, None));
    assert!(!bluff_connector_is_promised(&seen, &hands, &CardSet::new(), &pending, &vec![false], b1, None));
    // A Finesse from this very clue is the alternative under consideration.
    let same = Some(CardId::new(9));
    assert!(!bluff_connector_is_promised(&seen, &hands, &CardSet::new(), &pending, &vec![true], b1, same));
    let mut prompt = ConnectionManager::default();
    prompt.start(1, step(1, 9, b1, HGroupConnectionKind::Prompt));
    assert!(bluff_connector_is_promised(&seen, &hands, &CardSet::new(), &prompt, &vec![true], b1, same));
}

#[test]
fn a_bluff_cannot_queue_behind_an_older_finesse() {
    let b1 = Card::new(Suit::Blue, Rank::One);
    let mut pending = ConnectionManager::default();
    pending.start(1, step(1, 9, b1, HGroupConnectionKind::Finesse));
    assert!(bluff_is_queued(&pending, &vec![true], PlayerId::new(1), None));
    assert!(!bluff_is_queued(&pending, &vec![true], PlayerId::new(2), None));
    assert!(!bluff_is_queued(&pending, &vec![true], PlayerId::new(1), Some(CardId::new(9))));
    assert!(!bluff_is_queued(&pending, &vec![false], PlayerId::new(1), None));
    let mut prompt = ConnectionManager::default();
    prompt.start(1, step(1, 9, b1, HGroupConnectionKind::Prompt));
    assert!(!bluff_is_queued(&prompt, &vec![true], PlayerId::new(1), None));
}
