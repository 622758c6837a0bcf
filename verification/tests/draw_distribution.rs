use hanabi_search::cards::{Action, Card, CardId, Clue, IdentitySet, PlayerId, Rank, Suit};
use hanabi_search::h_group::admission::VisibleCard;
use hanabi_search::h_group::candidate::{ClueSchedule, ClueValue, CluePurpose, CompiledClueAction};
use hanabi_search::h_group::draw_distribution::{discard_priority, DrawDistributionEvidence, NextPlayerOutcome};

fn card(id: u8, identity: Option<Card>, rank_clued: bool) -> VisibleCard {
    VisibleCard { id: CardId::new(id), identity, rank_clued }
}

fn play_clue(target: u8, score: u16) -> CompiledClueAction {
    CompiledClueAction::new(
        Action::Clue { target: PlayerId::new(target), clue: Clue::Suit(Suit::Yellow) },
        None,
        ClueValue::new(score),
        CluePurpose::Play,
        ClueSchedule::new(false, true),
        0,
    )
}

fn free() -> NextPlayerOutcome {
    NextPlayerOutcome {
        has_connection: false,
        has_playable: false,
        has_required_discard: false,
        same_clue_immediate: true,
    }
}

fn evidence() -> DrawDistributionEvidence {
    let red = |rank| Card::new(Suit::Red, rank);
    DrawDistributionEvidence {
        end_game_rules: true,
        observer: PlayerId::new(0),
        hands: vec![
            vec![card(0, None, false), card(1, None, false)],
            vec![card(10, Some(red(Rank::Two)), true), card(11, Some(Card::new(Suit::Green, Rank::Three)), false)],
            vec![card(20, Some(Card::new(Suit::Yellow, Rank::One)), false)],
        ],
        stack_heights: [0; 5],
        discard_pile: vec![],
        deck_size: 30,
        clue_tokens: 4,
        has_playable: false,
        has_connection: false,
        must_clue: false,
        candidates: vec![play_clue(2, 300)],
        useful: IdentitySet::singleton(red(Rank::One)),
        known_own: IdentitySet::empty(),
        suit_clued: vec![],
        possibilities: vec![
            (CardId::new(0), IdentitySet::singleton(Card::new(Suit::Blue, Rank::Three))),
            (CardId::new(1), IdentitySet::singleton(Card::new(Suit::Green, Rank::Four))),
        ],
        next_outcomes: vec![(Card::new(Suit::Blue, Rank::Three), free())],
    }
}

#[test]
fn a_safe_discard_hands_the_clue_to_the_holder_of_the_successor() {
    // Only the red 1 is missing; Bob holds the clued red 2 and can give the
    // same yellow Play Clue after the discard.
    assert_eq!(discard_priority(&evidence(), CardId::new(0)), Some(401));
}

#[test]
fn the_handoff_needs_every_identity_to_keep_the_next_player_free() {
    let e = DrawDistributionEvidence {
        next_outcomes: vec![(Card::new(Suit::Blue, Rank::Three), NextPlayerOutcome { has_playable: true, ..free() })],
        ..evidence()
    };
    assert_eq!(discard_priority(&e, CardId::new(0)), None);
    // A discard whose identities cannot be projected is no handoff either.
    assert_eq!(discard_priority(&evidence(), CardId::new(1)), None);
}

#[test]
fn the_handoff_is_not_for_a_clue_to_the_next_player_or_an_early_deck() {
    let to_next = DrawDistributionEvidence { candidates: vec![play_clue(1, 300)], ..evidence() };
    assert_eq!(discard_priority(&to_next, CardId::new(0)), None);
    let short_deck = DrawDistributionEvidence { deck_size: 20, ..evidence() };
    assert_eq!(discard_priority(&short_deck, CardId::new(0)), None);
    let strong = DrawDistributionEvidence { candidates: vec![play_clue(2, 425)], ..evidence() };
    assert_eq!(discard_priority(&strong, CardId::new(0)), None);
}
