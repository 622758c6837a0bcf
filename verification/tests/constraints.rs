use hanabi_search::cards::{Action, CardId};
use hanabi_search::h_group::constraints::{ConventionConstraints, ConventionRequirementKind};

#[test]
fn unavailable_obligation_does_not_forbid_every_emergency_action() {
    let constraints = ConventionConstraints::require(ConventionRequirementKind::MustClue, vec![]);
    assert!(constraints.allows(Action::Discard(CardId::new(1))));
    assert_eq!(constraints.kind(), None);
}

#[test]
fn hard_requirement_excludes_a_higher_scored_unrelated_action() {
    let required = Action::Play(CardId::new(1));
    let constraints = ConventionConstraints::require(
        ConventionRequirementKind::ConnectionResponse,
        vec![required],
    );
    assert!(constraints.allows(required));
    assert!(!constraints.allows(Action::Discard(CardId::new(2))));
    assert_eq!(
        constraints.kind(),
        Some(ConventionRequirementKind::ConnectionResponse)
    );
}

#[test]
fn repeated_alternatives_still_leave_a_single_forced_response() {
    let play = Action::Play(CardId::new(3));
    let discard = Action::Discard(CardId::new(4));
    let forced = ConventionConstraints::require(
        ConventionRequirementKind::UrgentProtection,
        vec![play, play, play],
    );
    assert_eq!(forced.single_required(), Some(play));
    let open = ConventionConstraints::require(
        ConventionRequirementKind::RequiredDiscard,
        vec![play, discard, play],
    );
    assert_eq!(open.single_required(), None);
    assert!(open.allows(discard) && open.allows(play));
    assert!(!open.allows(Action::Play(CardId::new(5))));
    let none = ConventionConstraints::default();
    assert_eq!(none.single_required(), None);
    assert_eq!(none.kind(), None);
    assert!(none.allows(play));
}
