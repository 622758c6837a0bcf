use hanabi_search::cards::{Action, CardId, Clue, PlayerId, Rank};
use hanabi_search::h_group::decision::{ClueAdjustmentEvidence, PriorityEvidence};
use hanabi_search::h_group::ordering::{
    ordered_h_group_actions_from_analysis, ActionEvidence, ClueOption, DamageKey, OrderingEvidence,
};

fn no_priority() -> PriorityEvidence {
    PriorityEvidence {
        forced_play: false,
        connection_play: false,
        paused_priority_play: false,
        defers_connection: false,
        required_discard: false,
        known_play: false,
        scored_discard: None,
        completes_without_extra_token: false,
        handoff_priority: None,
        draw_distribution_priority: None,
        deferred_teamwork_priority: None,
        clue_score: None,
        endgame_progress: None,
    }
}

fn no_adjustment() -> ClueAdjustmentEvidence {
    ClueAdjustmentEvidence {
        is_candidate: false,
        has_forced_play: false,
        hard_clue_obligation: false,
        has_playable: false,
        can_preempt_play: false,
        completed_focus_due: false,
        lie_component: false,
        preserved_for_free_teammate: false,
        preserves_visible_continuation: false,
        useful_touched: 0,
        suit_clue: false,
        preempts_play_obligation: false,
    }
}

fn clue_one() -> Action {
    Action::Clue { target: PlayerId::new(1), clue: Clue::Rank(Rank::One) }
}

fn clue_two() -> Action {
    Action::Clue { target: PlayerId::new(2), clue: Clue::Rank(Rank::Two) }
}

fn evidence() -> OrderingEvidence {
    let legal = vec![Action::Play(CardId::new(1)), Action::Discard(CardId::new(2)), clue_one(), clue_two()];
    OrderingEvidence {
        first_turn_damage: vec![
            DamageKey { damage: 0, first_tie_break: 0, second_tie_break: 0 };
            legal.len()
        ],
        legal_actions: legal,
        clue_candidates: vec![
            ClueOption { action: clue_two(), score: 200, target: PlayerId::new(2), play_or_save: true },
            ClueOption { action: clue_one(), score: 300, target: PlayerId::new(1), play_or_save: true },
        ],
        required_first_five_stall: None,
        must_clue: false,
        connection_actions: None,
        permission_to_discard_target: None,
        early_game: false,
        end_game: false,
        discard_now: vec![],
        has_playable: true,
        ordered_playable: vec![CardId::new(1)],
        scored_discard: Some(CardId::new(2)),
        fresh_trash_chop_move_focus: None,
        transfer: None,
        ordinary_chop: Some(CardId::new(2)),
        known_trash: None,
        positional_valid: vec![],
        evidence: vec![
            ActionEvidence {
                action: Action::Play(CardId::new(1)),
                priority: PriorityEvidence { known_play: true, ..no_priority() },
                adjustment: no_adjustment(),
            },
            ActionEvidence {
                action: Action::Discard(CardId::new(2)),
                priority: PriorityEvidence { scored_discard: Some(7), ..no_priority() },
                adjustment: no_adjustment(),
            },
            ActionEvidence {
                action: clue_one(),
                priority: PriorityEvidence { clue_score: Some(300), ..no_priority() },
                adjustment: ClueAdjustmentEvidence { has_playable: true, preempts_play_obligation: true, ..no_adjustment() },
            },
            ActionEvidence {
                action: clue_two(),
                priority: PriorityEvidence { clue_score: Some(200), ..no_priority() },
                adjustment: ClueAdjustmentEvidence { has_playable: true, preempts_play_obligation: true, ..no_adjustment() },
            },
        ],
        clue_tokens_below_max: true,
        deck_at_most_players: false,
        own_hand: vec![CardId::new(1), CardId::new(2)],
        gotten: vec![],
        saved: vec![],
        first_turn_at_max: false,
    }
}

#[test]
fn candidates_are_ranked_by_priority() {
    // Known play 525, the clues 400 and 300, the chosen discard 107.
    assert_eq!(
        ordered_h_group_actions_from_analysis(&evidence()),
        vec![Action::Play(CardId::new(1)), clue_one(), clue_two(), Action::Discard(CardId::new(2))]
    );
}

#[test]
fn a_player_who_must_clue_gives_the_best_clue_first() {
    let e = OrderingEvidence { must_clue: true, ..evidence() };
    assert_eq!(ordered_h_group_actions_from_analysis(&e), vec![clue_one(), clue_two()]);
}

#[test]
fn the_early_game_withholds_an_ordinary_discard() {
    let e = OrderingEvidence { early_game: true, has_playable: false, ordered_playable: vec![], ..evidence() };
    assert_eq!(ordered_h_group_actions_from_analysis(&e), vec![clue_one(), clue_two()]);
}

#[test]
fn the_end_game_admits_only_chop_trash_or_positional_discards() {
    let e = OrderingEvidence { end_game: true, ordinary_chop: None, ..evidence() };
    assert_eq!(
        ordered_h_group_actions_from_analysis(&e),
        vec![Action::Play(CardId::new(1)), clue_one(), clue_two()]
    );
}

#[test]
fn without_candidates_the_unsaved_chop_is_discarded() {
    let e = OrderingEvidence {
        clue_candidates: vec![],
        ordered_playable: vec![],
        scored_discard: None,
        ..evidence()
    };
    assert_eq!(ordered_h_group_actions_from_analysis(&e), vec![Action::Discard(CardId::new(2))]);
    let saved = OrderingEvidence { saved: vec![CardId::new(2)], ..e };
    assert_eq!(ordered_h_group_actions_from_analysis(&saved), vec![Action::Discard(CardId::new(1))]);
}

#[test]
fn a_live_connection_decides_the_actions() {
    let e = OrderingEvidence { connection_actions: Some(vec![Action::Play(CardId::new(1))]), ..evidence() };
    assert_eq!(ordered_h_group_actions_from_analysis(&e), vec![Action::Play(CardId::new(1))]);
}
