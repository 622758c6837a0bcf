use hanabi_search::cards::{Action, CardId, Clue, PlayerId, Rank};
use hanabi_search::convention::ConventionActionReason;
use hanabi_search::h_group::action_analysis::HGroupActionKind;
use hanabi_search::h_group::candidate::{ClueSchedule, ClueValue, CluePurpose, CompiledClueAction};
use hanabi_search::h_group::decision::{
    candidate_is_five_stall, convention_action_reason, deferred_teamwork_action_count,
};
use hanabi_search::h_group::{
    clue_permits_direct_play_deferral, guided_blind_play, h_group_phase_at, is_connection_claim,
    HGroupMoveKind, HGroupPhase, HGroupSignal,
};
use hanabi_search::h_group::action_preference::TerminalPlanProgress;
use hanabi_search::h_group::decision::{
    adjust_clue_priority, raw_h_group_action_priority, ClueAdjustmentEvidence, PriorityEvidence,
    KNOWN_PLAY_PRIORITY,
};


#[test]
fn phase_follows_pace_discards_and_score() {
    // 2 players, 30 cards left, nothing played: plenty of pace.
    assert_eq!(h_group_phase_at(2, true, 30, [0; 5]), HGroupPhase::EarlyGame);
    assert_eq!(h_group_phase_at(2, false, 30, [1, 1, 0, 0, 0]), HGroupPhase::LowScore);
    assert_eq!(h_group_phase_at(2, false, 30, [3, 2, 0, 0, 0]), HGroupPhase::Normal);
    // 3 turns left for 25 plays: End Game.
    assert_eq!(h_group_phase_at(2, true, 1, [0; 5]), HGroupPhase::EndGame);
}

#[test]
fn blind_play_and_connection_families() {
    assert!(guided_blind_play(HGroupMoveKind::Bluff));
    assert!(!guided_blind_play(HGroupMoveKind::Prompt));
    assert!(is_connection_claim(HGroupMoveKind::Prompt));
    assert!(!is_connection_claim(HGroupMoveKind::Bluff));
    let signal = |turn: u32, kind: HGroupMoveKind| HGroupSignal {
        turn,
        actor: PlayerId::new(0),
        target: None,
        kind,
        cards: vec![CardId::new(1)],
        identity: None,
    };
    let signals = vec![signal(3, HGroupMoveKind::Finesse), signal(4, HGroupMoveKind::SaveClue)];
    assert!(clue_permits_direct_play_deferral(&signals, 4));
    assert!(!clue_permits_direct_play_deferral(&signals, 3));
}

#[test]
fn action_reasons_prefer_save_over_play() {
    let target = PlayerId::new(1);
    assert_eq!(
        convention_action_reason(HGroupActionKind::Clue { target, save: true, immediate_play: true }),
        ConventionActionReason::SaveClue
    );
    assert_eq!(
        convention_action_reason(HGroupActionKind::Clue { target, save: false, immediate_play: true }),
        ConventionActionReason::PlayClue
    );
    assert_eq!(
        convention_action_reason(HGroupActionKind::Clue { target, save: false, immediate_play: false }),
        ConventionActionReason::OtherClue
    );
    assert_eq!(convention_action_reason(HGroupActionKind::Fallback), ConventionActionReason::Fallback);
    let clue = Action::Clue { target, clue: Clue::Rank(Rank::Five) };
    let mut stall = CompiledClueAction::new(
        clue,
        Some(HGroupMoveKind::FiveStall),
        ClueValue::new(100),
        CluePurpose::Advanced,
        ClueSchedule::new(false, false),
        0,
    );
    assert!(candidate_is_five_stall(&stall));
    stall.set_compiled_line(3, None, None);
    assert_eq!(deferred_teamwork_action_count(&stall), 1);
    let mut line = CompiledClueAction::new(clue, None, ClueValue::new(1), CluePurpose::Play, ClueSchedule::default(), 2);
    line.set_compiled_line(3, None, None);
    assert_eq!(deferred_teamwork_action_count(&line), 3);
}

#[test]
fn priorities_follow_the_convention_precedence() {
    let none = PriorityEvidence {
        forced_play: false,
        connection_play: false,
        paused_priority_play: false,
        defers_connection: false,
        required_discard: false,
        known_play: false,
        scored_discard: None,
        completes_without_extra_token: false,
        handoff_priority: None,
        draw_distribution_priority: None,
        deferred_teamwork_priority: None,
        clue_score: None,
        endgame_progress: None,
    };
    let quiet = ClueAdjustmentEvidence {
        is_candidate: false,
        has_forced_play: false,
        hard_clue_obligation: false,
        has_playable: false,
        can_preempt_play: false,
        completed_focus_due: false,
        lie_component: false,
        preserved_for_free_teammate: false,
        preserves_visible_continuation: false,
        useful_touched: 0,
        suit_clue: false,
        preempts_play_obligation: false,
    };
    assert_eq!(raw_h_group_action_priority(&none, &quiet), 25);
    assert_eq!(raw_h_group_action_priority(&PriorityEvidence { forced_play: true, connection_play: true, ..none }, &quiet), 900);
    assert_eq!(raw_h_group_action_priority(&PriorityEvidence { defers_connection: true, ..none }, &quiet), 850);
    assert_eq!(raw_h_group_action_priority(&PriorityEvidence { known_play: true, ..none }, &quiet), KNOWN_PLAY_PRIORITY);
    // A non-urgent save (400) ranks below a known play; an emergency save (450) above.
    assert!(raw_h_group_action_priority(&PriorityEvidence { clue_score: Some(400), ..none }, &quiet) < KNOWN_PLAY_PRIORITY);
    assert!(raw_h_group_action_priority(&PriorityEvidence { clue_score: Some(450), ..none }, &quiet) > KNOWN_PLAY_PRIORITY);
    assert_eq!(
        raw_h_group_action_priority(&PriorityEvidence {
            clue_score: Some(300),
            endgame_progress: Some(TerminalPlanProgress::new(4, 30)),
            ..none
        }, &quiet),
        135
    );
    assert_eq!(raw_h_group_action_priority(&PriorityEvidence { scored_discard: Some(7), ..none }, &quiet), 107);
    assert_eq!(
        raw_h_group_action_priority(&PriorityEvidence {
            scored_discard: Some(7),
            completes_without_extra_token: true,
            handoff_priority: Some(3),
            ..none
        }, &quiet),
        KNOWN_PLAY_PRIORITY - 1
    );

    let plain = ClueAdjustmentEvidence {
        is_candidate: true,
        has_forced_play: false,
        hard_clue_obligation: false,
        has_playable: false,
        can_preempt_play: false,
        completed_focus_due: false,
        lie_component: false,
        preserved_for_free_teammate: false,
        preserves_visible_continuation: false,
        useful_touched: 0,
        suit_clue: true,
        preempts_play_obligation: false,
    };
    assert_eq!(adjust_clue_priority(700, &plain), 700);
    assert_eq!(adjust_clue_priority(700, &ClueAdjustmentEvidence { has_forced_play: true, ..plain }), 500);
    assert_eq!(
        adjust_clue_priority(700, &ClueAdjustmentEvidence { has_forced_play: true, hard_clue_obligation: true, ..plain }),
        700
    );
    let preempting = ClueAdjustmentEvidence { has_playable: true, can_preempt_play: true, ..plain };
    assert_eq!(adjust_clue_priority(300, &preempting), 551);
    assert_eq!(
        adjust_clue_priority(300, &ClueAdjustmentEvidence { preserves_visible_continuation: true, useful_touched: 3, ..preempting }),
        553
    );
    assert_eq!(
        adjust_clue_priority(600, &ClueAdjustmentEvidence { preserved_for_free_teammate: true, ..preempting }),
        KNOWN_PLAY_PRIORITY - 1
    );
    assert_eq!(adjust_clue_priority(540, &ClueAdjustmentEvidence { has_playable: true, ..plain }), 500);
    assert_eq!(
        adjust_clue_priority(540, &ClueAdjustmentEvidence { has_playable: true, preempts_play_obligation: true, ..plain }),
        540
    );
}

#[test]
fn a_clue_candidate_priority_includes_play_obligation_precedence() {
    let none = PriorityEvidence {
        forced_play: false,
        connection_play: false,
        paused_priority_play: false,
        defers_connection: false,
        required_discard: false,
        known_play: false,
        scored_discard: None,
        completes_without_extra_token: false,
        handoff_priority: None,
        draw_distribution_priority: None,
        deferred_teamwork_priority: None,
        clue_score: None,
        endgame_progress: None,
    };
    let forced = ClueAdjustmentEvidence {
        is_candidate: true,
        has_forced_play: true,
        hard_clue_obligation: false,
        has_playable: true,
        can_preempt_play: false,
        completed_focus_due: false,
        lie_component: false,
        preserved_for_free_teammate: false,
        preserves_visible_continuation: false,
        useful_touched: 0,
        suit_clue: false,
        preempts_play_obligation: false,
    };
    // A clue worth 700 is capped at 500 while the actor has a forced play.
    let clue = PriorityEvidence { clue_score: Some(600), ..none };
    assert_eq!(raw_h_group_action_priority(&clue, &forced), 500);
    // A hard Fix or endangered Save, which preempts the play, keeps its value.
    assert_eq!(
        raw_h_group_action_priority(&clue, &ClueAdjustmentEvidence { hard_clue_obligation: true, preempts_play_obligation: true, ..forced }),
        700
    );
    // An action that is no clue candidate is not adjusted.
    assert_eq!(raw_h_group_action_priority(&none, &forced), 25);
    // A clue that may preempt a known play rises to at least 550.
    let preempting = ClueAdjustmentEvidence { has_forced_play: false, can_preempt_play: true, suit_clue: true, ..forced };
    assert_eq!(raw_h_group_action_priority(&PriorityEvidence { clue_score: Some(100), ..none }, &preempting), 551);
}
