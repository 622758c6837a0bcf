use hanabi_search::baseline::{
    assess_card, ConventionAgnosticPolicy, PolicyError, PolicyObservation,
};
use hanabi_search::cards::{Action, Card, CardId, IdentitySet, PlayerId, Rank, Suit};

fn single(suit: Suit, rank: Rank) -> IdentitySet {
    IdentitySet::singleton(Card::new(suit, rank))
}

#[test]
fn assessment_uses_stacks_and_exhausted_ranks() {
    let heights = [1, 0, 0, 0, 0];
    let mut discarded = [0u8; 25];
    // Both green 2s are gone: green 3 and above can never be played.
    discarded[Card::new(Suit::Green, Rank::Two).index()] = 2;
    let r2 = assess_card(heights, discarded, Some(single(Suit::Red, Rank::Two))).unwrap();
    assert!(r2.certainly_playable && !r2.certainly_useless);
    let r1 = assess_card(heights, discarded, Some(single(Suit::Red, Rank::One))).unwrap();
    assert!(!r1.certainly_playable && r1.certainly_useless);
    let g3 = assess_card(heights, discarded, Some(single(Suit::Green, Rank::Three))).unwrap();
    assert!(g3.certainly_useless);
    let either = single(Suit::Red, Rank::Two).union(single(Suit::Blue, Rank::Two));
    let e = assess_card(heights, discarded, Some(either)).unwrap();
    assert!(!e.certainly_playable && !e.certainly_useless);
    assert_eq!(assess_card(heights, discarded, None), None);
}

fn observation(tokens: u8, possibilities: Vec<Option<IdentitySet>>) -> PolicyObservation {
    PolicyObservation {
        observer: PlayerId::new(0),
        current_player: PlayerId::new(0),
        in_progress: true,
        clue_tokens: tokens,
        stack_heights: [1, 0, 0, 0, 0],
        discarded_counts: [0; 25],
        hands: vec![vec![CardId::new(0), CardId::new(1), CardId::new(2)], vec![]],
        possibilities,
    }
}

#[test]
fn the_baseline_plays_then_discards_trash_then_the_oldest_card() {
    let policy = ConventionAgnosticPolicy;
    assert!(!policy.uses_history());
    let all = Some(IdentitySet::all());
    let playable = Some(single(Suit::Red, Rank::Two));
    let trash = Some(single(Suit::Red, Rank::One));
    assert_eq!(
        policy.select_action(&observation(3, vec![all, trash, playable])),
        Ok(Action::Play(CardId::new(2)))
    );
    assert_eq!(
        policy.select_action(&observation(3, vec![all, trash, all])),
        Ok(Action::Discard(CardId::new(1)))
    );
    assert_eq!(
        policy.select_action(&observation(3, vec![all, all, all])),
        Ok(Action::Discard(CardId::new(0)))
    );
    // At full clue tokens discarding is illegal: blind-play the newest card.
    assert_eq!(
        policy.select_action(&observation(8, vec![all, all, all])),
        Ok(Action::Play(CardId::new(2)))
    );
    assert_eq!(
        policy.select_action(&observation(3, vec![all, None, all])),
        Err(PolicyError::MissingPossibilities(CardId::new(1)))
    );
    let mut other = observation(3, vec![all, all, all]);
    other.current_player = PlayerId::new(1);
    assert_eq!(policy.select_action(&other), Err(PolicyError::NotCurrentPlayer));
    let mut missing = observation(3, vec![all, all, all]);
    missing.observer = PlayerId::new(5);
    missing.current_player = PlayerId::new(5);
    assert_eq!(policy.select_action(&missing), Err(PolicyError::MissingOwnHand));
    let mut empty = observation(3, vec![]);
    empty.hands[0].clear();
    assert_eq!(policy.select_action(&empty), Err(PolicyError::EmptyOwnHand));
}
