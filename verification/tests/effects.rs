use hanabi_search::cards::{Card, CardId, PlayerId, Rank, Suit};
use hanabi_search::h_group::effects::{ConventionJournal, ConventionReducer, EffectBatch};
use hanabi_search::h_group::{HGroupMoveKind, HGroupSignal};
use hanabi_search::h_group::effects::push_signal;

#[test]
fn reducer_is_idempotent_for_the_same_recognized_effect() {
    let signal = HGroupSignal {
        turn: 4,
        actor: PlayerId::new(0),
        target: None,
        kind: HGroupMoveKind::Priority,
        cards: vec![CardId::new(2)],
        identity: None,
    };
    let mut journal = ConventionJournal::default();
    ConventionReducer::apply(EffectBatch::recognized(signal.clone()), &mut journal);
    ConventionReducer::apply(EffectBatch::recognized(signal), &mut journal);
    assert_eq!(journal.len(), 1);
    assert!(journal.facts().active_priority().contains(&CardId::new(2)));
}

#[test]
fn history_queries_find_signals_by_kind_and_turn() {
    let make = |turn: u32, kind: HGroupMoveKind, card: u8| HGroupSignal {
        turn,
        actor: PlayerId::new(1),
        target: Some(PlayerId::new(2)),
        kind,
        cards: vec![CardId::new(card)],
        identity: Some(Card::new(Suit::Green, Rank::One)),
    };
    let mut journal = ConventionJournal::new();
    ConventionReducer::apply(EffectBatch::recognized(make(1, HGroupMoveKind::PlayClue, 4)), &mut journal);
    ConventionReducer::apply(EffectBatch::recognized(make(2, HGroupMoveKind::Finesse, 5)), &mut journal);
    ConventionReducer::apply(EffectBatch::recognized(make(3, HGroupMoveKind::PlayClue, 6)), &mut journal);
    let history = journal.history();
    assert_eq!(history.of_kind(HGroupMoveKind::PlayClue), vec![0, 2]);
    assert_eq!(history.at_turn(3, HGroupMoveKind::PlayClue), vec![2]);
    assert!(history.has_at_turn(2, HGroupMoveKind::Finesse));
    assert!(!history.has_at_turn(2, HGroupMoveKind::PlayClue));
    assert_eq!(history.latest(HGroupMoveKind::PlayClue).map(|s| s.turn), Some(3));
    assert!(history.latest(HGroupMoveKind::Bluff).is_none());
    assert_eq!(
        journal.facts().known_identity(CardId::new(5)),
        Some(Card::new(Suit::Green, Rank::One))
    );
    let (signals, facts) = journal.into_parts();
    assert_eq!(signals.into_vec().len(), 3);
    assert!(facts.validate().is_ok());
}

#[test]
fn pushing_the_same_signal_twice_records_it_once() {
    let mut journal = ConventionJournal::new();
    let red_four = Card::new(Suit::Red, Rank::Four);
    for _ in 0..2 {
        push_signal(
            &mut journal,
            7,
            PlayerId::new(2),
            Some(PlayerId::new(0)),
            HGroupMoveKind::FixClue,
            vec![CardId::new(11)],
            Some(red_four),
        );
    }
    assert_eq!(journal.len(), 1);
    assert!(journal.facts().fixed_cards().contains(&CardId::new(11)));
    assert_eq!(journal.facts().known_identity(CardId::new(11)), Some(red_four));
    assert_eq!(journal.facts().identity_claims().len(), 1);
}
