use hanabi_search::cards::{Card, CardId, PlayerId, Rank, Suit};
use hanabi_search::h_group::connection::{
    ConnectionManager, ConnectionObligation, ConnectionStatus, ConnectionTransitionReason,
    HGroupConnectionKind, PromiseId,
};

fn obligation(cards: Vec<CardId>) -> ConnectionObligation {
    ConnectionObligation {
        promise: PromiseId::unassigned(),
        actor: PlayerId::new(1),
        cards,
        expected: Card::new(Suit::Red, Rank::Two),
        focus_identity: Card::new(Suit::Red, Rank::Three),
        kind: HGroupConnectionKind::Prompt,
        focus: CardId::new(9),
        step: 0,
    }
}

#[test]
fn successful_connection_releases_alternatives_and_records_completion() {
    let mut manager = ConnectionManager::default();
    manager.start(3, obligation(vec![CardId::new(5), CardId::new(7)]));
    let result = manager.advance_play(
        4,
        PlayerId::new(1),
        CardId::new(5),
        Card::new(Suit::Red, Rank::Two),
        true,
    );
    assert_eq!(result.released_candidates, [CardId::new(7)]);
    assert!(manager.is_empty());
    assert_eq!(
        manager.transitions().last().map(|transition| transition.to),
        Some(ConnectionStatus::Satisfied)
    );
}

#[test]
fn a_new_interpretation_supersedes_the_same_connection_step() {
    let mut manager = ConnectionManager::default();
    let original = obligation(vec![CardId::new(5), CardId::new(7)]);
    manager.start(3, original.clone());
    let replacement = ConnectionObligation {
        cards: vec![CardId::new(8)],
        expected: Card::new(Suit::Blue, Rank::One),
        ..original
    };

    manager.start(3, replacement.clone());

    assert_eq!(manager.len(), 1);
    assert_eq!(manager.active()[0].cards, replacement.cards);
    assert_eq!(manager.active()[0].expected, replacement.expected);
    assert_ne!(manager.active()[0].promise, PromiseId::unassigned());
    assert_eq!(
        manager
            .provenance(manager.active()[0].promise)
            .map(|origin| origin.created_turn),
        Some(3)
    );
    assert!(manager.validate().is_ok());
    assert!(manager.transitions().iter().any(|transition| {
        transition.reason == ConnectionTransitionReason::Superseded
            && transition.to == ConnectionStatus::Cancelled
    }));
}

#[test]
fn a_successful_layer_records_demonstration_without_completing_the_promise() {
    let mut manager = ConnectionManager::default();
    let focus = CardId::new(9);
    manager.start(3, obligation(vec![CardId::new(5), CardId::new(7)]));

    manager.advance_play(
        4,
        PlayerId::new(1),
        CardId::new(5),
        Card::new(Suit::Blue, Rank::One),
        true,
    );

    assert_eq!(manager.len(), 1);
    assert_eq!(manager.active()[0].cards, [CardId::new(7)]);
    assert_eq!(
        manager.demonstrated_focus_identity(focus),
        Some(Card::new(Suit::Red, Rank::Three))
    );
    assert!(manager.transitions().iter().any(|transition| {
        transition.reason == ConnectionTransitionReason::PlayedAlternative
            && transition.from == ConnectionStatus::Pending
            && transition.to == ConnectionStatus::Pending
    }));
}

#[test]
fn historical_queue_state_survives_later_completion() {
    let mut manager = ConnectionManager::default();
    let red_two = Card::new(Suit::Red, Rank::Two);
    let red_three = Card::new(Suit::Red, Rank::Three);
    manager.start(3, obligation(vec![CardId::new(5)]));
    manager.advance_play(5, PlayerId::new(1), CardId::new(5), red_two, true);

    assert!(manager.identity_was_queued_at(red_two, 4));
    assert!(manager.identity_was_queued_at(red_three, 4));
    assert!(!manager.identity_was_queued_at(red_two, 5));
}

#[test]
fn starting_the_same_duty_twice_keeps_one_promise() {
    let mut manager = ConnectionManager::new();
    let first = manager.start(2, obligation(vec![CardId::new(5)]));
    let again = manager.start(3, obligation(vec![CardId::new(5)]));
    assert_eq!(first, again);
    assert_eq!(manager.len(), 1);
    assert_eq!(manager.transitions().len(), 1);
    assert!(manager.was_created_on(&manager.active()[0].clone(), 2));
    assert!(manager.actor_had_pending_before(PlayerId::new(1), 4, CardId::new(1)));
    assert!(!manager.actor_had_pending_before(PlayerId::new(1), 4, CardId::new(9)));
    assert!(!manager.actor_had_pending_before(PlayerId::new(1), 2, CardId::new(1)));
}

#[test]
fn discards_misplays_and_fixes_end_or_narrow_obligations() {
    let mut manager = ConnectionManager::new();
    manager.start(1, obligation(vec![CardId::new(5), CardId::new(7)]));
    manager.discard(2, PlayerId::new(1), CardId::new(7));
    assert_eq!(manager.active()[0].cards, [CardId::new(5)]);
    manager.discard(3, PlayerId::new(1), CardId::new(5));
    assert!(manager.is_empty());
    assert_eq!(
        manager.transitions().last().map(|t| (t.to, t.reason)),
        Some((ConnectionStatus::Invalidated, ConnectionTransitionReason::FocusInvalidated))
    );

    let mut manager = ConnectionManager::new();
    manager.start(1, obligation(vec![CardId::new(5), CardId::new(7)]));
    let result = manager.advance_play(2, PlayerId::new(1), CardId::new(5), Card::new(Suit::Red, Rank::Two), false);
    assert_eq!(result.released_candidates, [CardId::new(7)]);
    assert!(manager.is_empty());

    let mut manager = ConnectionManager::new();
    manager.start(1, obligation(vec![CardId::new(5), CardId::new(7)]));
    manager.reveal_identity(2, PlayerId::new(1), CardId::new(7), Card::new(Suit::Green, Rank::Four));
    assert_eq!(manager.active()[0].cards, [CardId::new(5)]);
    manager.repair_actor(3, PlayerId::new(1), &vec![CardId::new(5)], &vec![Some(CardId::new(6))]);
    assert_eq!(manager.active()[0].cards, [CardId::new(6)]);
    let promise = manager.active()[0].promise;
    let layered = manager.prepend_layers(4, promise, &vec![CardId::new(2), CardId::new(6)]);
    assert_eq!(layered.map(|o| o.cards), Some(vec![CardId::new(2), CardId::new(6)]));
    assert_eq!(
        manager.transitions().last().map(|t| t.reason),
        Some(ConnectionTransitionReason::LayerExtended)
    );
    assert!(manager.promise_was_demonstrated_after(promise, 0) == false);
    assert!(!manager.identity_was_demonstrated_after(Card::new(Suit::Red, Rank::Three), 0));
}

#[test]
fn managers_built_by_the_lifecycle_operations_validate() {
    let mut manager = ConnectionManager::default();
    assert!(manager.validate().is_ok());
    let first = obligation(vec![CardId::new(5), CardId::new(7)]);
    let second = ConnectionObligation {
        actor: PlayerId::new(2),
        cards: vec![CardId::new(11)],
        focus: CardId::new(12),
        ..first.clone()
    };
    let promise = manager.start(3, first);
    manager.start(3, second);
    assert!(manager.validate().is_ok());
    manager.prepend_layers(4, promise, &vec![CardId::new(4)]);
    assert!(manager.validate().is_ok());
    manager.reveal_identity(5, PlayerId::new(1), CardId::new(4), Card::new(Suit::Blue, Rank::One));
    assert!(manager.validate().is_ok());
    manager.repair_actor(6, PlayerId::new(1), &vec![CardId::new(5)], &vec![None, None]);
    assert!(manager.validate().is_ok());
    manager.discard(7, PlayerId::new(2), CardId::new(11));
    assert!(manager.validate().is_ok());
    manager.advance_play(8, PlayerId::new(1), CardId::new(7), Card::new(Suit::Red, Rank::Two), true);
    assert!(manager.validate().is_ok());
    assert!(manager.is_empty());
}
