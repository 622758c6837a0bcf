use hanabi_search::cards::{Action, CardId, Clue, PlayerId, Rank};
use hanabi_search::h_group::action_analysis::{CompiledHGroupAction, HGroupActionKind, HGroupActionSet};
use hanabi_search::h_group::action_preference::ConventionPolicyTier;
use hanabi_search::h_group::selection::{select_h_group_action_from_analysis, SelectionEvidence};

fn analysed(action: Action) -> CompiledHGroupAction {
    CompiledHGroupAction {
        action,
        kind: HGroupActionKind::Fallback,
        policy_tier: ConventionPolicyTier::Admitted,
        priority: 100,
    }
}

fn clue() -> Action {
    Action::Clue { target: PlayerId::new(1), clue: Clue::Rank(Rank::One) }
}

fn evidence(preferred: Option<Action>, actions: Vec<Action>) -> SelectionEvidence {
    SelectionEvidence {
        decision: HGroupActionSet {
            actions: actions.into_iter().map(analysed).collect(),
            preferred,
            predictable: None,
        },
        last_strike: false,
        logically_playable: vec![],
        playable_now: vec![],
        planning_safe: vec![Action::Play(CardId::new(3)), Action::Play(CardId::new(4)), clue()],
        clue_tokens: 4,
        known_trash: None,
        chop: Some(CardId::new(1)),
        saved: vec![],
        gotten: vec![],
        own_hand: vec![CardId::new(1), CardId::new(2), CardId::new(3), CardId::new(4)],
        agnostic_action: Some(Action::Discard(CardId::new(1))),
        legal_actions: vec![Action::Play(CardId::new(1)), Action::Discard(CardId::new(1)), clue()],
    }
}

#[test]
fn the_preferred_action_is_taken() {
    let e = evidence(Some(Action::Play(CardId::new(3))), vec![]);
    assert_eq!(select_h_group_action_from_analysis(&e), Some(Action::Play(CardId::new(3))));
}

#[test]
fn without_a_preference_the_agnostic_policy_decides_or_a_clue_at_max_tokens() {
    let e = evidence(None, vec![]);
    assert_eq!(select_h_group_action_from_analysis(&e), Some(Action::Discard(CardId::new(1))));
    let full = SelectionEvidence { clue_tokens: 8, ..evidence(None, vec![]) };
    assert_eq!(select_h_group_action_from_analysis(&full), Some(clue()));
}

#[test]
fn the_last_strike_refuses_an_uncertain_play() {
    // The preferred play of card 3 is not certainly playable; card 4 is.
    let e = SelectionEvidence {
        last_strike: true,
        logically_playable: vec![CardId::new(4)],
        ..evidence(
            Some(Action::Play(CardId::new(3))),
            vec![Action::Play(CardId::new(3)), Action::Play(CardId::new(4))],
        )
    };
    assert_eq!(select_h_group_action_from_analysis(&e), Some(Action::Play(CardId::new(4))));
}

#[test]
fn the_last_strike_falls_back_to_a_safe_discard() {
    let e = SelectionEvidence {
        last_strike: true,
        saved: vec![CardId::new(1)],
        gotten: vec![CardId::new(2)],
        ..evidence(Some(Action::Play(CardId::new(3))), vec![Action::Play(CardId::new(3))])
    };
    // The chop is saved and card 2 is gotten, so the oldest free card is 3.
    assert_eq!(select_h_group_action_from_analysis(&e), Some(Action::Discard(CardId::new(3))));
    let full = SelectionEvidence { clue_tokens: 8, ..e };
    assert_eq!(select_h_group_action_from_analysis(&full), Some(clue()));
}
