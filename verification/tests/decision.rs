use hanabi_search::cards::{Action, CardId, Clue, PlayerId, Rank};
use hanabi_search::h_group::action_analysis::{CompiledHGroupAction, HGroupActionKind};
use hanabi_search::h_group::action_preference::ConventionPolicyTier;
use hanabi_search::h_group::candidate::{ClueSchedule, ClueValue, CluePurpose, CompiledClueAction};
use hanabi_search::h_group::constraints::ConventionRequirementKind;
use hanabi_search::h_group::decision::{derive_convention_constraints, ConstraintEvidence};

fn clue(target: u8, rank: Rank, immediate: bool) -> CompiledClueAction {
    CompiledClueAction::new(
        Action::Clue { target: PlayerId::new(target), clue: Clue::Rank(rank) },
        None,
        ClueValue::new(300),
        CluePurpose::Save,
        ClueSchedule::new(false, immediate),
        0,
    )
}

fn analyzed(action: Action, kind: HGroupActionKind) -> CompiledHGroupAction {
    CompiledHGroupAction { action, kind, policy_tier: ConventionPolicyTier::Admitted, priority: 0 }
}

fn nothing() -> ConstraintEvidence {
    ConstraintEvidence {
        emergency_discard_required: false,
        has_forced_play: false,
        observer_must_clue: false,
        has_connection: false,
        first_five_stall: None,
        discard_now: vec![],
    }
}

#[test]
fn constraints_follow_the_obligation_precedence() {
    let clues = vec![clue(1, Rank::Two, false), clue(1, Rank::Five, true), clue(2, Rank::Two, false)];
    let hard = vec![false, false, true];
    let play = Action::Play(CardId::new(4));
    let discard = Action::Discard(CardId::new(5));
    let actions = vec![
        analyzed(play, HGroupActionKind::Connection),
        analyzed(discard, HGroupActionKind::Discard),
        analyzed(clues[0].action, HGroupActionKind::Clue { target: PlayerId::new(1), save: true, immediate_play: false }),
    ];
    let allowed = vec![false, false, true];

    let none = derive_convention_constraints(&nothing(), &clues, &vec![false; 3], &actions, &allowed);
    assert_eq!(none.kind(), None);
    assert!(none.allows(discard));

    let emergency = ConstraintEvidence { emergency_discard_required: true, ..nothing() };
    let c = derive_convention_constraints(&emergency, &clues, &hard, &actions, &allowed);
    assert_eq!(c.kind(), Some(ConventionRequirementKind::UrgentProtection));
    assert_eq!(c.single_required(), Some(discard));

    // The hard Save to seat 2 is urgent; the other clues go to seat 1.
    let c = derive_convention_constraints(&nothing(), &clues, &hard, &actions, &allowed);
    assert_eq!(c.kind(), Some(ConventionRequirementKind::UrgentProtection));
    assert_eq!(c.single_required(), Some(clues[2].action));
    // The urgent Save to seat 1 also admits the immediate play clue to seat 1.
    let c = derive_convention_constraints(&nothing(), &clues, &vec![true, false, false], &actions, &allowed);
    assert!(c.allows(clues[0].action) && c.allows(clues[1].action) && !c.allows(clues[2].action));
    // A forced play suspends hard clue obligations.
    let forced = ConstraintEvidence { has_forced_play: true, has_connection: true, ..nothing() };
    let c = derive_convention_constraints(&forced, &clues, &hard, &actions, &allowed);
    assert_eq!(c.kind(), Some(ConventionRequirementKind::ConnectionResponse));
    assert!(c.allows(play) && c.allows(clues[0].action) && !c.allows(discard));

    let must = ConstraintEvidence { observer_must_clue: true, has_connection: true, ..nothing() };
    let c = derive_convention_constraints(&must, &clues, &vec![false; 3], &actions, &allowed);
    assert_eq!(c.kind(), Some(ConventionRequirementKind::MustClue));
    let stall = ConstraintEvidence { first_five_stall: Some(vec![clues[1].action]), discard_now: vec![CardId::new(5)], ..nothing() };
    let c = derive_convention_constraints(&stall, &clues, &vec![false; 3], &actions, &allowed);
    assert_eq!(c.kind(), Some(ConventionRequirementKind::EarlyFiveStall));
    let discard_now = ConstraintEvidence { discard_now: vec![CardId::new(5), CardId::new(5)], ..nothing() };
    let c = derive_convention_constraints(&discard_now, &clues, &vec![false; 3], &actions, &allowed);
    assert_eq!(c.kind(), Some(ConventionRequirementKind::RequiredDiscard));
    assert_eq!(c.single_required(), Some(discard));
    // Obliged to clue with no clue available: no requirement.
    let c = derive_convention_constraints(&ConstraintEvidence { observer_must_clue: true, ..nothing() }, &vec![], &vec![], &actions, &allowed);
    assert_eq!(c.kind(), None);
}
