use hanabi_search::cards::{Card, CardId, CardSet, IdentitySet, PlayerId, Rank, Suit};
use hanabi_search::h_group::admission::VisibleCard;
use hanabi_search::h_group::claims::{
    claimed_identities_at_clue, convention_focus_is_live_identity, ClueReading, IdentityClaims,
};
use hanabi_search::h_group::connection::{
    ConnectionManager, ConnectionObligation, HGroupConnectionKind, PromiseId,
};
use hanabi_search::h_group::facts::ConventionFacts;
use hanabi_search::h_group::{HGroupMoveKind, HGroupSignal};

fn id(raw: u8) -> CardId {
    CardId::new(raw)
}

fn card(suit: Suit, rank: Rank) -> Card {
    Card::new(suit, rank)
}

fn seen(raw: u8, identity: Option<Card>) -> VisibleCard {
    VisibleCard { id: id(raw), identity, rank_clued: false }
}

fn set(raw: &[u8]) -> CardSet {
    let mut s = CardSet::new();
    for r in raw {
        s.insert(id(*r));
    }
    s
}

fn reading(focus: u8, focus_identities: IdentitySet, play_identities: IdentitySet) -> ClueReading {
    ClueReading { focus: id(focus), focus_identities, play_identities }
}

fn claims() -> IdentityClaims {
    let facts = ConventionFacts::from_signals(&vec![HGroupSignal {
        turn: 1,
        actor: PlayerId::new(1),
        target: Some(PlayerId::new(0)),
        kind: HGroupMoveKind::PlayClue,
        cards: vec![id(1)],
        identity: Some(card(Suit::Green, Rank::One)),
    }]);
    IdentityClaims {
        hands: vec![
            vec![seen(0, None), seen(1, None), seen(2, None)],
            vec![seen(3, Some(card(Suit::Red, Rank::One))), seen(4, Some(card(Suit::Blue, Rank::Two)))],
        ],
        facts,
        clues: vec![
            reading(2, IdentitySet::singleton(card(Suit::Yellow, Rank::One)), IdentitySet::empty()),
            reading(
                0,
                IdentitySet::singleton(card(Suit::Purple, Rank::Two)),
                IdentitySet::singleton(card(Suit::Purple, Rank::Two)),
            ),
            // A later clue on card 2 leaves its focus ambiguous.
            reading(
                2,
                IdentitySet::singleton(card(Suit::Yellow, Rank::One))
                    .union(IdentitySet::singleton(card(Suit::Yellow, Rank::Two))),
                IdentitySet::singleton(card(Suit::Yellow, Rank::One)),
            ),
        ],
        already_playing: set(&[3]),
        pending: ConnectionManager::default(),
        replay_hands: vec![vec![id(0), id(1), id(2)], vec![id(3), id(4)]],
        invalidated_focuses: CardSet::new(),
    }
}

#[test]
fn exact_identity_prefers_sight_then_facts_then_the_latest_clue() {
    let c = claims();
    assert_eq!(c.exact_identity(id(3)), Some(card(Suit::Red, Rank::One)));
    assert_eq!(c.exact_identity(id(1)), Some(card(Suit::Green, Rank::One)));
    assert_eq!(c.exact_identity(id(0)), Some(card(Suit::Purple, Rank::Two)));
    // The latest clue on card 2 is ambiguous; the older exact one is stale.
    assert_eq!(c.exact_identity(id(2)), None);
    assert_eq!(c.exact_identity(id(9)), None);
}

#[test]
fn a_card_already_playing_claims_its_identity() {
    let c = claims();
    assert!(c.identity_claimed_elsewhere(id(0), card(Suit::Red, Rank::One)));
    assert!(!c.identity_claimed_elsewhere(id(3), card(Suit::Red, Rank::One)));
}

#[test]
fn an_exact_play_promise_in_a_hand_claims_its_identity() {
    let mut c = claims();
    assert!(c.identity_claimed_elsewhere(id(4), card(Suit::Purple, Rank::Two)));
    assert!(!c.identity_claimed_elsewhere(id(0), card(Suit::Purple, Rank::Two)));
    assert!(c.identity_claimed_elsewhere(id(4), card(Suit::Yellow, Rank::One)));
    // An invalidated focus no longer promises anything.
    c.invalidated_focuses.insert(id(0));
    assert!(!c.identity_claimed_elsewhere(id(4), card(Suit::Purple, Rank::Two)));
}

#[test]
fn a_live_step_claims_its_expected_identity_unless_it_involves_the_card() {
    let mut c = claims();
    c.pending.start(
        2,
        ConnectionObligation {
            promise: PromiseId::unassigned(),
            actor: PlayerId::new(1),
            cards: vec![id(4)],
            expected: card(Suit::Blue, Rank::One),
            focus_identity: card(Suit::Blue, Rank::Two),
            kind: HGroupConnectionKind::Prompt,
            focus: id(0),
            step: 0,
        },
    );
    assert!(c.identity_claimed_elsewhere(id(3), card(Suit::Blue, Rank::One)));
    assert!(!c.identity_claimed_elsewhere(id(4), card(Suit::Blue, Rank::One)));
    assert!(!c.identity_claimed_elsewhere(id(3), card(Suit::Blue, Rank::Three)));
}

#[test]
fn claims_at_a_clue_collect_exact_promises_of_other_gotten_cards() {
    let hands = vec![vec![id(0), id(1)], vec![id(2), id(3)], vec![id(4)]];
    let mut historical = vec![None; 50];
    historical[2] = Some(card(Suit::Red, Rank::Three));
    historical[0] = Some(card(Suit::Blue, Rank::Four));
    let mut logical = vec![IdentitySet::all(); 50];
    logical[1] = IdentitySet::singleton(card(Suit::Green, Rank::Two));
    let clues = vec![reading(
        3,
        IdentitySet::singleton(card(Suit::Yellow, Rank::Five)),
        IdentitySet::singleton(card(Suit::Yellow, Rank::Five)),
    )];
    let facts = ConventionFacts::new();
    // Card 0 is held by the giver, so its historical identity is not used.
    let claimed = claimed_identities_at_clue(
        id(4),
        PlayerId::new(0),
        &hands,
        &historical,
        &logical,
        &facts,
        &clues,
        &set(&[0, 1, 2, 3, 4, 7]),
    );
    let expected = IdentitySet::singleton(card(Suit::Green, Rank::Two))
        .union(IdentitySet::singleton(card(Suit::Red, Rank::Three)))
        .union(IdentitySet::singleton(card(Suit::Yellow, Rank::Five)));
    assert_eq!(claimed, expected);
}

#[test]
fn fixed_cards_and_the_focus_claim_nothing_at_a_clue() {
    let hands = vec![vec![id(0)], vec![id(2)]];
    let mut historical = vec![None; 50];
    historical[2] = Some(card(Suit::Red, Rank::Three));
    let logical = vec![IdentitySet::all(); 50];
    let fixed = ConventionFacts::from_signals(&vec![HGroupSignal {
        turn: 1,
        actor: PlayerId::new(0),
        target: Some(PlayerId::new(1)),
        kind: HGroupMoveKind::FixClue,
        cards: vec![id(2)],
        identity: None,
    }]);
    let none = claimed_identities_at_clue(
        id(0),
        PlayerId::new(0),
        &hands,
        &historical,
        &logical,
        &fixed,
        &vec![],
        &set(&[0, 2]),
    );
    assert_eq!(none, IdentitySet::empty());
    let focus_only = claimed_identities_at_clue(
        id(2),
        PlayerId::new(0),
        &hands,
        &historical,
        &logical,
        &ConventionFacts::new(),
        &vec![],
        &set(&[2]),
    );
    assert_eq!(focus_only, IdentitySet::empty());
}

fn ids(identities: &[Card]) -> IdentitySet {
    identities.iter().fold(IdentitySet::empty(), |s, c| s.union(IdentitySet::singleton(*c)))
}

#[test]
fn a_focus_stays_live_once_other_playing_cards_claim_the_alternatives() {
    let r1 = card(Suit::Red, Rank::One);
    let r2 = card(Suit::Red, Rank::Two);
    let b1 = card(Suit::Blue, Rank::One);
    let hands = vec![vec![seen(0, None)], vec![seen(1, Some(b1)), seen(2, None)]];
    let clues = vec![
        reading(0, ids(&[r1, r2, b1]), ids(&[r1, r2, b1])),
        reading(2, ids(&[r2]), ids(&[r1, r2])),
    ];
    // Red one is already played, so card 2's clue asks exactly red two.
    let heights = [1, 0, 0, 0, 0];
    let playing = set(&[1, 2]);
    assert!(convention_focus_is_live_identity(id(0), b1, &hands, &clues, &CardSet::new(), heights, true));
    assert!(!convention_focus_is_live_identity(id(0), b1, &hands, &clues, &CardSet::new(), heights, false));
    // Card 1 visibly claims blue one and card 2 claims red two: nothing is left.
    assert!(!convention_focus_is_live_identity(id(0), b1, &hands, &clues, &playing, heights, true));
    let only_two = set(&[1]);
    assert!(convention_focus_is_live_identity(id(0), r2, &hands, &clues, &only_two, heights, false));
    // No clue on the card: not live.
    assert!(!convention_focus_is_live_identity(id(1), b1, &hands, &clues, &playing, heights, true));
}
