use hanabi_search::h_group::action_preference::{
    ActionPreference, ConventionPolicyTier, TerminalPlanProgress,
};

#[test]
fn terminal_plan_progress_is_a_distinct_comparison_dimension() {
    assert!(ActionPreference::new(1, true) > ActionPreference::new(10_000, false));
}

#[test]
fn policy_tier_outranks_terminal_progress_and_priority() {
    let mut required = ActionPreference::new(-5, false);
    required.set_policy_tier(ConventionPolicyTier::Required);
    assert_eq!(required.policy_tier(), ConventionPolicyTier::Required);
    assert!(!required.advances_terminal_plan());
    assert_eq!(required.within_category(), -5);
    assert!(required > ActionPreference::new(10_000, true));
    let mut fallback = ActionPreference::new(10_000, true);
    fallback.set_policy_tier(ConventionPolicyTier::Fallback);
    let mut deferred = ActionPreference::new(0, false);
    deferred.set_policy_tier(ConventionPolicyTier::Deferred);
    assert!(fallback < deferred);
    assert!(deferred < ActionPreference::new(0, false));
    assert!(ActionPreference::new(3, false) > ActionPreference::new(2, false));
    assert_eq!(
        ActionPreference::new(3, false).partial_cmp(&ActionPreference::new(3, false)),
        Some(core::cmp::Ordering::Equal)
    );
}

#[test]
fn terminal_progress_encodings() {
    let progress = TerminalPlanProgress::new(7, 20);
    assert_eq!(progress.within_category(), 120);
    assert_eq!(progress.encoded_priority(), 128);
}
