use hanabi_search::cards::{Card, CardId, CardSet, PlayerId, Rank, Suit};
use hanabi_search::h_group::admission::VisibleCard;
use hanabi_search::h_group::connection::{
    ConnectionManager, ConnectionObligation, HGroupConnectionKind, PromiseId,
};
use hanabi_search::h_group::facts::ConventionFacts;
use hanabi_search::h_group::queue::{
    identity_is_queued_before_target, is_conditional_connection, owner_of,
    pending_card_allows_identity,
};
use hanabi_search::h_group::{HGroupMoveKind, HGroupSignal};

fn signal(kind: HGroupMoveKind, card: u8, identity: Card) -> HGroupSignal {
    HGroupSignal {
        turn: 1,
        actor: PlayerId::new(0),
        target: None,
        kind,
        cards: vec![CardId::new(card)],
        identity: Some(identity),
    }
}

fn step(actor: u8, cards: &[u8], expected: Card, focus: u8, focus_identity: Card) -> ConnectionObligation {
    ConnectionObligation {
        promise: PromiseId::unassigned(),
        actor: PlayerId::new(actor),
        cards: cards.iter().map(|c| CardId::new(*c)).collect(),
        expected,
        focus_identity,
        kind: HGroupConnectionKind::Prompt,
        focus: CardId::new(focus),
        step: 0,
    }
}

fn red(rank: Rank) -> Card {
    Card::new(Suit::Red, rank)
}

fn blue(rank: Rank) -> Card {
    Card::new(Suit::Blue, rank)
}

#[test]
fn bluffs_and_finesses_are_conditional_but_direct_clues_are_not() {
    assert!(is_conditional_connection(HGroupMoveKind::Finesse));
    assert!(is_conditional_connection(HGroupMoveKind::PurgeBluff));
    assert!(is_conditional_connection(HGroupMoveKind::Prompt));
    assert!(!is_conditional_connection(HGroupMoveKind::PlayClue));
    assert!(!is_conditional_connection(HGroupMoveKind::FixClue));
}

#[test]
fn a_fixed_card_cannot_become_a_prompt() {
    let facts = ConventionFacts::from_signals(&vec![signal(HGroupMoveKind::FixClue, 3, red(Rank::One))]);
    let pending = ConnectionManager::default();
    assert!(!pending_card_allows_identity(&pending, &facts, CardId::new(3), red(Rank::One), [0; 5]));
    assert!(pending_card_allows_identity(&pending, &facts, CardId::new(4), red(Rank::One), [0; 5]));
}

#[test]
fn a_hard_claim_decides_the_identity() {
    let facts = ConventionFacts::from_signals(&vec![signal(HGroupMoveKind::PlayClue, 3, red(Rank::Two))]);
    let mut pending = ConnectionManager::default();
    // A live single-card step expecting something else does not erase the
    // identity the direct clue established.
    pending.start(2, step(1, &[3], blue(Rank::Three), 9, blue(Rank::Four)));
    assert!(pending_card_allows_identity(&pending, &facts, CardId::new(3), red(Rank::Two), [0; 5]));
    assert!(!pending_card_allows_identity(&pending, &facts, CardId::new(3), blue(Rank::One), [0; 5]));
}

#[test]
fn a_conditional_claim_does_not_conflict() {
    let facts = ConventionFacts::from_signals(&vec![signal(HGroupMoveKind::Finesse, 3, red(Rank::Two))]);
    let pending = ConnectionManager::default();
    assert!(pending_card_allows_identity(&pending, &facts, CardId::new(3), blue(Rank::One), [0; 5]));
}

#[test]
fn a_single_card_step_blocks_other_identities_unless_playable() {
    let facts = ConventionFacts::new();
    let mut pending = ConnectionManager::default();
    pending.start(2, step(1, &[3], blue(Rank::Three), 9, blue(Rank::Four)));
    // Red two is not playable on empty stacks.
    assert!(!pending_card_allows_identity(&pending, &facts, CardId::new(3), red(Rank::Two), [0; 5]));
    // Red one is.
    assert!(pending_card_allows_identity(&pending, &facts, CardId::new(3), red(Rank::One), [0; 5]));
    // The expected identity itself is allowed.
    assert!(pending_card_allows_identity(&pending, &facts, CardId::new(3), blue(Rank::Three), [0; 5]));
    // A two-card step does not block.
    let mut wide = ConnectionManager::default();
    wide.start(2, step(1, &[3, 4], blue(Rank::Three), 9, blue(Rank::Four)));
    assert!(pending_card_allows_identity(&wide, &facts, CardId::new(3), red(Rank::Two), [0; 5]));
}

fn seen(id: u8, identity: Option<Card>) -> VisibleCard {
    VisibleCard { id: CardId::new(id), identity, rank_clued: false }
}

fn table() -> Vec<Vec<VisibleCard>> {
    vec![
        vec![seen(0, None), seen(1, None)],
        vec![seen(2, Some(red(Rank::One))), seen(3, Some(blue(Rank::Two)))],
        vec![seen(4, Some(red(Rank::Two))), seen(5, Some(blue(Rank::One)))],
        vec![seen(6, Some(red(Rank::Three))), seen(7, None)],
    ]
}

#[test]
fn owners_are_found_by_seat() {
    let hands = table();
    assert_eq!(owner_of(&hands, CardId::new(5)), Some(2));
    assert_eq!(owner_of(&hands, CardId::new(0)), Some(0));
    assert_eq!(owner_of(&hands, CardId::new(40)), None);
}

#[test]
fn a_step_counts_only_when_its_actor_plays_before_the_target() {
    let hands = table();
    let none = CardSet::new();
    let mut pending = ConnectionManager::default();
    pending.start(2, step(1, &[2], red(Rank::One), 4, red(Rank::Two)));
    let giver = PlayerId::new(0);
    // Seat 1 acts before seat 3.
    assert!(identity_is_queued_before_target(&hands, giver, PlayerId::new(3), &none, &pending, red(Rank::One)));
    // The focus (held by seat 2) is promised to be red two.
    assert!(identity_is_queued_before_target(&hands, giver, PlayerId::new(3), &none, &pending, red(Rank::Two)));
    // Seat 2 acts after target seat 1.
    assert!(!identity_is_queued_before_target(&hands, giver, PlayerId::new(1), &none, &pending, red(Rank::Two)));
    // From giver seat 2, seat 1 acts after target seat 3.
    assert!(!identity_is_queued_before_target(&hands, PlayerId::new(2), PlayerId::new(3), &none, &pending, red(Rank::One)));
    assert!(!identity_is_queued_before_target(&hands, giver, PlayerId::new(3), &none, &pending, blue(Rank::Five)));
}

#[test]
fn a_visible_card_already_playing_is_queued() {
    let hands = table();
    let pending = ConnectionManager::default();
    let mut playing = CardSet::new();
    playing.insert(CardId::new(5));
    let giver = PlayerId::new(1);
    assert!(identity_is_queued_before_target(&hands, giver, PlayerId::new(3), &playing, &pending, blue(Rank::One)));
    // The giver's own seat is not in between.
    assert!(!identity_is_queued_before_target(&hands, PlayerId::new(2), PlayerId::new(3), &playing, &pending, blue(Rank::One)));
    // An unseen card already playing is no visible promise.
    let mut hidden = CardSet::new();
    hidden.insert(CardId::new(7));
    assert!(!identity_is_queued_before_target(&hands, giver, PlayerId::new(0), &hidden, &pending, blue(Rank::One)));
}

#[test]
fn an_excluded_identity_is_not_allowed() {
    let facts = ConventionFacts::from_signals(&vec![signal(HGroupMoveKind::Retraction, 5, red(Rank::One))]);
    let pending = ConnectionManager::default();
    assert!(!pending_card_allows_identity(&pending, &facts, CardId::new(5), red(Rank::One), [0; 5]));
    assert!(pending_card_allows_identity(&pending, &facts, CardId::new(5), red(Rank::Two), [0; 5]));
}
