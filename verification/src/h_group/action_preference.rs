//! Structured comparison keys for convention actions.

use core::cmp::Ordering;

use vstd::prelude::*;
use vstd::std_specs::cmp::PartialOrdSpecImpl;

verus! {

/// How strongly the convention stands behind an action, in ascending order:
/// a fallback loses to a deferred early save, which loses to an ordinary
/// admitted action, which loses to an action the convention requires.
#[derive(Clone, Copy, Debug, PartialEq, Eq, Structural, Hash, PartialOrd, Ord)]
pub enum ConventionPolicyTier {
    Fallback,
    Deferred,
    Admitted,
    Required,
}

impl ConventionPolicyTier {
    /// Position of the tier in ascending order.
    pub open spec fn spec_rank(self) -> int {
        match self {
            ConventionPolicyTier::Fallback => 0,
            ConventionPolicyTier::Deferred => 1,
            ConventionPolicyTier::Admitted => 2,
            ConventionPolicyTier::Required => 3,
        }
    }

    /// Position of the tier in ascending order.
    pub fn rank(self) -> (r: u8)
        ensures
            r == self.spec_rank(),
    {
        match self {
            ConventionPolicyTier::Fallback => 0,
            ConventionPolicyTier::Deferred => 1,
            ConventionPolicyTier::Admitted => 2,
            ConventionPolicyTier::Required => 3,
        }
    }
}

/// Structured comparison key for convention actions. Numeric priority remains
/// available for diagnostics, but semantic categories are compared
/// explicitly: first the policy tier, then whether the action advances the
/// terminal plan, then the priority within its category.
#[derive(Clone, Copy, Debug, PartialEq, Eq, Structural, Hash, Ord)]
pub struct ActionPreference {
    policy_tier: ConventionPolicyTier,
    advances_terminal_plan: bool,
    within_category: i32,
}

/// Three-way comparison of two integers.
pub open spec fn int_order(a: int, b: int) -> Ordering {
    if a < b {
        Ordering::Less
    } else if a > b {
        Ordering::Greater
    } else {
        Ordering::Equal
    }
}

/// The lexicographic order on (tier, terminal progress, within-category
/// priority).
pub open spec fn preference_order(a: ActionPreference, b: ActionPreference) -> Ordering {
    if a.spec_policy_tier() != b.spec_policy_tier() {
        int_order(a.spec_policy_tier().spec_rank(), b.spec_policy_tier().spec_rank())
    } else if a.spec_advances_terminal_plan() != b.spec_advances_terminal_plan() {
        if a.spec_advances_terminal_plan() {
            Ordering::Greater
        } else {
            Ordering::Less
        }
    } else {
        int_order(category_value(a), category_value(b))
    }
}

/// The within-category priority as an integer.
pub open spec fn category_value(p: ActionPreference) -> int {
    p.spec_within_category() as int
}

impl ActionPreference {
    pub closed spec fn spec_policy_tier(self) -> ConventionPolicyTier {
        self.policy_tier
    }

    pub closed spec fn spec_advances_terminal_plan(self) -> bool {
        self.advances_terminal_plan
    }

    pub closed spec fn spec_within_category(self) -> i32 {
        self.within_category
    }

    /// A preference in the ordinary admitted tier.
    pub fn new(within_category: i32, advances_terminal_plan: bool) -> (p: Self)
        ensures
            p.spec_policy_tier() == ConventionPolicyTier::Admitted,
            p.spec_advances_terminal_plan() == advances_terminal_plan,
            p.spec_within_category() == within_category,
    {
        ActionPreference {
            policy_tier: ConventionPolicyTier::Admitted,
            advances_terminal_plan,
            within_category,
        }
    }

    /// Moves the preference into `policy_tier`, keeping the other components.
    pub fn set_policy_tier(&mut self, policy_tier: ConventionPolicyTier)
        ensures
            final(self).spec_policy_tier() == policy_tier,
            final(self).spec_advances_terminal_plan() == old(self).spec_advances_terminal_plan(),
            final(self).spec_within_category() == old(self).spec_within_category(),
    {
        self.policy_tier = policy_tier;
    }

    pub fn policy_tier(self) -> (t: ConventionPolicyTier)
        ensures
            t == self.spec_policy_tier(),
    {
        self.policy_tier
    }

    pub fn advances_terminal_plan(self) -> (b: bool)
        ensures
            b == self.spec_advances_terminal_plan(),
    {
        self.advances_terminal_plan
    }

    pub fn within_category(self) -> (v: i32)
        ensures
            v == self.spec_within_category(),
    {
        self.within_category
    }

    /// Three-way comparison in the preference order.
    pub fn compare(&self, other: &Self) -> (o: Ordering)
        ensures
            o == preference_order(*self, *other),
    {
        let a = self.policy_tier.rank();
        let b = other.policy_tier.rank();
        if a < b {
            Ordering::Less
        } else if a > b {
            Ordering::Greater
        } else if self.advances_terminal_plan != other.advances_terminal_plan {
            if self.advances_terminal_plan {
                Ordering::Greater
            } else {
                Ordering::Less
            }
        } else if self.within_category < other.within_category {
            Ordering::Less
        } else if self.within_category > other.within_category {
            Ordering::Greater
        } else {
            Ordering::Equal
        }
    }
}

impl PartialOrd for ActionPreference {
    fn partial_cmp(&self, other: &Self) -> (r: Option<Ordering>) {
        Some(self.compare(other))
    }
}

impl PartialOrdSpecImpl for ActionPreference {
    open spec fn obeys_partial_cmp_spec() -> bool {
        true
    }

    open spec fn partial_cmp_spec(&self, other: &Self) -> Option<Ordering> {
        Some(preference_order(*self, *other))
    }
}

/// Within one policy tier, an action that advances the terminal plan is
/// preferred to every action that does not, whatever their priorities within
/// the category.
pub proof fn lemma_terminal_progress_dominates(a: ActionPreference, b: ActionPreference)
    requires
        a.spec_policy_tier() == b.spec_policy_tier(),
        a.spec_advances_terminal_plan(),
        !b.spec_advances_terminal_plan(),
    ensures
        preference_order(a, b) == Ordering::Greater,
        preference_order(b, a) == Ordering::Less,
{
}

/// The policy tier dominates every other component: a higher tier wins
/// whatever the terminal progress and the priorities.
pub proof fn lemma_policy_tier_dominates(a: ActionPreference, b: ActionPreference)
    requires
        a.spec_policy_tier().spec_rank() > b.spec_policy_tier().spec_rank(),
    ensures
        preference_order(a, b) == Ordering::Greater,
        preference_order(b, a) == Ordering::Less,
{
}

/// The preference order is antisymmetric and total: exactly the equal
/// preferences compare equal, and swapping the operands reverses the result.
pub proof fn lemma_preference_order_total(a: ActionPreference, b: ActionPreference)
    ensures
        (preference_order(a, b) == Ordering::Equal) <==> (a == b),
        preference_order(a, b) == Ordering::Less <==> preference_order(b, a) == Ordering::Greater,
{
    if a.spec_policy_tier() == b.spec_policy_tier() && a.spec_advances_terminal_plan() == b.spec_advances_terminal_plan()
        && a.spec_within_category() == b.spec_within_category() {
        assert(a == b);
    }
    if a.spec_policy_tier() != b.spec_policy_tier() {
        assert(a.spec_policy_tier().spec_rank() != b.spec_policy_tier().spec_rank());
    }
}

/// Named terminal-progress components. The scalar encoding remains available
/// for diagnostics; decision ordering consumes the structured preference.
#[derive(Clone, Copy, Debug, PartialEq, Eq, Structural)]
pub struct TerminalPlanProgress {
    pub discard_threshold: i32,
    pub clue_value: i32,
}

impl TerminalPlanProgress {
    pub fn new(discard_threshold: i32, clue_value: i32) -> (p: Self)
        ensures
            p.discard_threshold == discard_threshold,
            p.clue_value == clue_value,
    {
        TerminalPlanProgress { discard_threshold, clue_value }
    }

    /// The priority within the terminal-plan category.
    pub fn within_category(self) -> (v: i32)
        requires
            self.clue_value + 100 <= i32::MAX,
        ensures
            v == 100 + self.clue_value,
    {
        100 + self.clue_value
    }

    /// The scalar encoding kept for diagnostics.
    pub fn encoded_priority(self) -> (v: i32)
        requires
            i32::MIN <= 101 + self.discard_threshold,
            101 + self.discard_threshold <= i32::MAX,
            i32::MIN <= 101 + self.discard_threshold + self.clue_value <= i32::MAX,
        ensures
            v == 101 + self.discard_threshold + self.clue_value,
    {
        101 + self.discard_threshold + self.clue_value
    }
}

} // verus!
