use hanabi_search::cards::{Action, Card, CardId, Clue, IdentitySet, PlayerId, Rank, Suit};
use hanabi_search::h_group::admission::VisibleCard;
use hanabi_search::h_group::root_opportunities::{
    add_root_opportunities, RootCandidate, RootInputs, RootOpportunities, SaveProjection,
};

fn seen(id: u8, suit: Suit, rank: Rank) -> VisibleCard {
    VisibleCard { id: CardId::new(id), identity: Some(Card::new(suit, rank)), rank_clued: false }
}

fn unknown(id: u8) -> VisibleCard {
    VisibleCard { id: CardId::new(id), identity: None, rank_clued: false }
}

fn zero() -> RootOpportunities {
    RootOpportunities {
        foregone_blind_plays: 0,
        conditional_prompt_chains: 0,
        finesse_opportunities: 0,
        save_pressure: 0,
        foregone_touch_opportunities: 0,
    }
}

fn inputs(hands: Vec<Vec<VisibleCard>>, target_len: usize, candidate: Option<RootCandidate>) -> RootInputs {
    RootInputs {
        hands,
        stack_heights: [0; 5],
        discard_pile: vec![],
        useful: IdentitySet::all(),
        clued_before: vec![],
        deck_size: 20,
        clue_tokens: 1,
        candidate,
        save_projection: None,
        own_claimed: IdentitySet::empty(),
        possibilities: vec![IdentitySet::all(); target_len],
    }
}

#[test]
fn a_play_clue_leaves_the_next_card_on_finesse_position() {
    let hands = vec![
        vec![unknown(0)],
        vec![seen(10, Suit::Red, Rank::One)],
        vec![seen(20, Suit::Blue, Rank::Three), seen(21, Suit::Red, Rank::Two)],
    ];
    let candidate = RootCandidate {
        immediate_play: true,
        is_save: false,
        foregone_blind_plays: 2,
        conditional_prompt_chains: 1,
    };
    let e = inputs(hands, 1, Some(candidate));
    let mut value = zero();
    let root = Action::Clue { target: PlayerId::new(1), clue: Clue::Rank(Rank::One) };
    assert_eq!(add_root_opportunities(&e, root, &mut value), Some(()));
    assert_eq!(value.finesse_opportunities, 1);
    assert_eq!(value.foregone_blind_plays, 2);
    assert_eq!(value.conditional_prompt_chains, 1);

    // Once the red 2 was clued before, it no longer sits on Finesse position.
    let clued = RootInputs { clued_before: vec![CardId::new(21)], ..e };
    let mut again = zero();
    assert_eq!(add_root_opportunities(&clued, root, &mut again), Some(()));
    assert_eq!(again.finesse_opportunities, 0);
}

#[test]
fn a_save_measures_pressure_and_forgone_touches() {
    let hands = vec![
        vec![unknown(0)],
        vec![seen(10, Suit::Blue, Rank::Five), seen(11, Suit::Green, Rank::Four)],
    ];
    let candidate = RootCandidate {
        immediate_play: false,
        is_save: true,
        foregone_blind_plays: 0,
        conditional_prompt_chains: 0,
    };
    let e = RootInputs {
        discard_pile: vec![Card::new(Suit::Green, Rank::Four)],
        save_projection: Some(SaveProjection {
            owner_playable: vec![CardId::new(99)],
            owner_gotten: vec![],
            after_playable: vec![],
        }),
        ..inputs(hands, 2, Some(candidate))
    };
    let mut value = zero();
    let root = Action::Clue { target: PlayerId::new(1), clue: Clue::Rank(Rank::Five) };
    assert_eq!(add_root_opportunities(&e, root, &mut value), Some(()));
    // The next chop, the green 4, is critical: one clue token leaves a
    // shortfall of one.
    assert_eq!(value.save_pressure, 2);
    // The four other 5s could still be touched.
    assert_eq!(value.foregone_touch_opportunities, 4);
}

#[test]
fn an_unjudged_root_clue_reports_none() {
    let e = inputs(vec![vec![unknown(0)], vec![unknown(1)]], 1, None);
    let mut value = zero();
    let root = Action::Clue { target: PlayerId::new(1), clue: Clue::Suit(Suit::Red) };
    assert_eq!(add_root_opportunities(&e, root, &mut value), None);
    assert_eq!(add_root_opportunities(&e, Action::Play(CardId::new(0)), &mut value), Some(()));
    assert_eq!(value, zero());
}
