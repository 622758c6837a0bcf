use hanabi_search::cards::{Card, CardId, CardSet, IdentitySet, PlayerId, Rank, Suit};
use hanabi_search::h_group::admission::VisibleCard;
use hanabi_search::h_group::claims::IdentityClaims;
use hanabi_search::h_group::connection::{
    ConnectionManager, ConnectionObligation, HGroupConnectionKind, PromiseId,
};
use hanabi_search::h_group::facts::ConventionFacts;
use hanabi_search::h_group::action_schedule::{
    ActionObligation, ActionSchedule, ObligationSource, ScheduledAction, StackHorizon,
    StackTimeline,
};

fn play(actor: u8, card: u8, identities: IdentitySet, promised: Option<Card>) -> ActionObligation {
    ActionObligation {
        actor: PlayerId::new(actor),
        card: CardId::new(card),
        action: ScheduledAction::Play,
        identities,
        promised_identity: promised,
        source: ObligationSource::DirectPlay,
    }
}

#[test]
fn forced_plays_advance_the_stacks_before_the_observer_acts() {
    let r1 = Card::new(Suit::Red, Rank::One);
    let r2 = Card::new(Suit::Red, Rank::Two);
    let discard = ActionObligation {
        actor: PlayerId::new(1),
        card: CardId::new(3),
        action: ScheduledAction::Discard,
        identities: IdentitySet::empty(),
        promised_identity: None,
        source: ObligationSource::RequiredDiscard,
    };
    let schedule = ActionSchedule::new(
        vec![
            play(0, 1, IdentitySet::empty(), Some(r1)),
            play(1, 2, IdentitySet::singleton(r2), None),
            discard,
        ],
        CardSet::new(),
    );
    let visible = vec![None; 50];
    let heights = schedule.stack_heights_before([0; 5], PlayerId::new(0), PlayerId::new(2), 3, &visible);
    assert_eq!(heights, [2, 0, 0, 0, 0]);
    // Starting at the observer, nobody plays first.
    assert_eq!(
        schedule.stack_heights_before([0; 5], PlayerId::new(2), PlayerId::new(2), 3, &visible),
        [0; 5]
    );
    // Wrapping around the table: seats 1 and 2 act before seat 0.
    assert_eq!(
        schedule.stack_heights_before([1, 0, 0, 0, 0], PlayerId::new(1), PlayerId::new(0), 3, &visible),
        [2, 0, 0, 0, 0]
    );
    assert_eq!(schedule.plays_for(PlayerId::new(1)).len(), 1);
    assert_eq!(schedule.required_discards_for(PlayerId::new(1)), vec![CardId::new(3)]);
    assert_eq!(schedule.blocked_cards().len(), 0);
}

#[test]
fn ambiguous_or_unknown_plays_do_not_advance() {
    let b1 = Card::new(Suit::Blue, Rank::One);
    let g1 = Card::new(Suit::Green, Rank::One);
    let schedule = ActionSchedule::new(
        vec![
            play(0, 1, IdentitySet::empty(), Some(b1)),
            play(0, 2, IdentitySet::empty(), Some(g1)),
            play(1, 4, IdentitySet::all(), None),
        ],
        CardSet::new(),
    );
    let mut visible = vec![None; 50];
    assert_eq!(
        schedule.stack_heights_before([0; 5], PlayerId::new(0), PlayerId::new(2), 3, &visible),
        [0; 5]
    );
    // The observer sees card 4 as yellow 1.
    visible[4] = Some(Card::new(Suit::Yellow, Rank::One));
    assert_eq!(
        schedule.stack_heights_before([0; 5], PlayerId::new(1), PlayerId::new(2), 3, &visible),
        [0, 1, 0, 0, 0]
    );
    let at = StackTimeline::at_clue(4, [1, 0, 0, 0, 0]);
    assert_eq!(at.heights(), [1, 0, 0, 0, 0]);
    assert_eq!(at.horizon, StackHorizon::AtClue(4));
    assert_eq!(IdentitySet::singleton(g1).sole(), Some(g1));
    assert_eq!(IdentitySet::all().sole(), None);
}

fn ids(raw: &[u8]) -> Vec<CardId> {
    raw.iter().map(|r| CardId::new(*r)).collect()
}

fn set_of(raw: &[u8]) -> CardSet {
    let mut s = CardSet::new();
    for r in raw {
        s.insert(CardId::new(*r));
    }
    s
}

fn replay_claims() -> IdentityClaims {
    let mut pending = ConnectionManager::default();
    pending.start(
        2,
        ConnectionObligation {
            promise: PromiseId::unassigned(),
            actor: PlayerId::new(1),
            cards: ids(&[4, 5]),
            expected: Card::new(Suit::Blue, Rank::One),
            focus_identity: Card::new(Suit::Blue, Rank::Two),
            kind: HGroupConnectionKind::Prompt,
            focus: CardId::new(9),
            step: 0,
        },
    );
    IdentityClaims {
        hands: vec![
            vec![VisibleCard { id: CardId::new(2), identity: None, rank_clued: false }],
            vec![VisibleCard {
                id: CardId::new(6),
                identity: Some(Card::new(Suit::Red, Rank::Two)),
                rank_clued: false,
            }],
        ],
        facts: ConventionFacts::new(),
        clues: vec![],
        already_playing: set_of(&[4, 3]),
        pending,
        replay_hands: vec![ids(&[2, 3]), ids(&[4, 5, 6]), ids(&[9])],
        invalidated_focuses: CardSet::new(),
    }
}

#[test]
fn the_schedule_orders_connections_forced_and_direct_plays_then_discards() {
    let claims = replay_claims();
    let promise = claims.pending.active()[0].promise;
    let schedule = ActionSchedule::from_replay(
        &claims,
        &set_of(&[6]),
        &ids(&[2, 40]),
        &vec![true],
        &vec![false],
        PlayerId::new(1),
    );
    let seat1 = schedule.plays_for(PlayerId::new(1));
    assert_eq!(seat1.len(), 2);
    assert_eq!(seat1[0].card, CardId::new(4));
    assert_eq!(seat1[0].promised_identity, Some(Card::new(Suit::Blue, Rank::One)));
    assert_eq!(seat1[0].identities, IdentitySet::singleton(Card::new(Suit::Blue, Rank::One)));
    assert_eq!(seat1[0].source, ObligationSource::Connection(promise));
    assert_eq!(seat1[1].card, CardId::new(6));
    assert_eq!(seat1[1].source, ObligationSource::ForcedPlay);
    assert_eq!(seat1[1].identities, IdentitySet::singleton(Card::new(Suit::Red, Rank::Two)));
    let seat0 = schedule.plays_for(PlayerId::new(0));
    assert_eq!(seat0.len(), 1);
    assert_eq!(seat0[0].card, CardId::new(3));
    assert_eq!(seat0[0].source, ObligationSource::DirectPlay);
    assert_eq!(seat0[0].identities, IdentitySet::empty());
    assert_eq!(schedule.required_discards_for(PlayerId::new(0)), ids(&[2]));
    // The observer's active step blocks its later candidates and its focus.
    assert!(schedule.blocked_cards().contains(&CardId::new(5)));
    assert!(schedule.blocked_cards().contains(&CardId::new(9)));
    assert!(!schedule.blocked_cards().contains(&CardId::new(4)));
}

#[test]
fn inactive_or_transferred_steps_schedule_nothing() {
    let claims = replay_claims();
    let inactive = ActionSchedule::from_replay(
        &claims,
        &CardSet::new(),
        &vec![],
        &vec![false],
        &vec![false],
        PlayerId::new(1),
    );
    // Card 4 is then scheduled as a direct play instead.
    assert_eq!(inactive.plays_for(PlayerId::new(1))[0].source, ObligationSource::DirectPlay);
    // An inactive observer step blocks every candidate.
    assert!(inactive.blocked_cards().contains(&CardId::new(4)));
    let transferred = ActionSchedule::from_replay(
        &claims,
        &CardSet::new(),
        &vec![],
        &vec![true],
        &vec![true],
        PlayerId::new(0),
    );
    assert_eq!(transferred.blocked_cards().len(), 0);
    // Another player's step blocks only its focus.
    let other = ActionSchedule::from_replay(
        &claims,
        &CardSet::new(),
        &vec![],
        &vec![true],
        &vec![false],
        PlayerId::new(0),
    );
    assert!(other.blocked_cards().contains(&CardId::new(9)));
    assert!(!other.blocked_cards().contains(&CardId::new(5)));
}
