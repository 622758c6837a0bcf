use hanabi_search::cards::{Action, CardId, Clue, PlayerId, Rank};
use hanabi_search::h_group::candidate::{
    ClueRecognition, CluePurpose, ClueSchedule, ClueValue, CompiledClueAction,
};
use hanabi_search::h_group::HGroupMoveKind;

fn clue() -> Action {
    Action::Clue { target: PlayerId::new(2), clue: Clue::Rank(Rank::Five) }
}

#[test]
fn clue_value_saturates_and_penalties_only_lower_the_total() {
    let mut value = ClueValue::new(400);
    value.add_information(30);
    value.reward_teamwork(10);
    assert_eq!(value.semantic_strength(), 440);
    value.penalize_teamwork(15);
    value.penalize_delay(5);
    value.penalize_complexity(20);
    assert_eq!(value.total(), 400);
    value.penalize_delay(u16::MAX);
    assert_eq!(value.total(), 0);
    assert_eq!(value.semantic_strength(), 440);
    let mut big = ClueValue::new(u16::MAX);
    big.add_information(1);
    assert_eq!(big.semantic_strength(), u16::MAX);
    big.set_base(3);
    assert_eq!(big.total(), 4);
    assert_eq!(ClueValue::default(), ClueValue::new(0));
}

#[test]
fn urgency_predicates_follow_strength_and_schedule() {
    let mut value = ClueValue::new(420);
    value.penalize_delay(100);
    let save = CompiledClueAction::new(
        clue(),
        Some(HGroupMoveKind::SaveClue),
        value,
        CluePurpose::Save,
        ClueSchedule::new(true, false),
        0,
    );
    assert!(save.is_urgent_save());
    assert!(save.is_save());
    assert!(!save.can_defer_demonstrated_layer());
    assert!(!save.is_urgent_for_next_player());
    assert_eq!(save.score(), 320);
    assert_eq!(save.target(), PlayerId::new(2));
    assert_eq!(save.recognition(), ClueRecognition::GeneratorProof);

    let mut play = CompiledClueAction::new(
        clue(),
        Some(HGroupMoveKind::PlayClue),
        ClueValue::new(460),
        CluePurpose::Play,
        ClueSchedule::new(false, true),
        2,
    );
    assert!(play.is_urgent_for_next_player());
    assert!(!play.can_preempt_ordinary_play());
    play.set_compiled_line(300, Some(2), None);
    assert_eq!(play.action_coverage(), 255);
    assert_eq!(play.convention_action_count(), Some(2));
    assert_eq!(play.convention_connection_steps(), None);
    assert!(play.can_preempt_ordinary_play());
    play.set_preserves_visible_continuation(true);
    assert!(play.preserves_visible_continuation());
    assert!(play.immediate_play());
    play.set_recognition(ClueRecognition::RecipientReplay);
    assert_eq!(play.recognition(), ClueRecognition::RecipientReplay);
    assert_eq!(play.connection_steps(), 2);
    assert_eq!(play.move_kind(), Some(HGroupMoveKind::PlayClue));
    assert_eq!(play.purpose(), CluePurpose::Play);
}

#[test]
fn validation_requires_a_clue_and_matching_fix_or_tempo_semantics() {
    let fix = CompiledClueAction::new(clue(), None, ClueValue::new(1), CluePurpose::Fix, ClueSchedule::default(), 0);
    assert_eq!(fix.validate(), Err("Fix purpose lacks FixClue semantics"));
    let tempo = CompiledClueAction::new(clue(), Some(HGroupMoveKind::PlayClue), ClueValue::new(1), CluePurpose::Tempo, ClueSchedule::default(), 0);
    assert_eq!(tempo.validate(), Err("Tempo purpose lacks TempoClue semantics"));
    let mut ok = CompiledClueAction::new(clue(), Some(HGroupMoveKind::TempoClue), ClueValue::new(1), CluePurpose::Tempo, ClueSchedule::default(), 0);
    assert_eq!(ok.validate(), Ok(()));
    ok.action = Action::Play(CardId::new(1));
    assert_eq!(ok.validate(), Err("compiled clue action contains a non-clue action"));
}
