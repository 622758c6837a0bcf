//! Hard convention obligations, kept separate from heuristic utility.

use vstd::prelude::*;

use crate::cards::Action;

verus! {

/// Why convention semantics restricted the set that strategy may score.
/// These are hard obligations, not heuristic score adjustments.
#[derive(Clone, Copy, Debug, PartialEq, Eq, Structural, Hash)]
pub enum ConventionRequirementKind {
    UrgentProtection,
    ConnectionResponse,
    RequiredDiscard,
    MustClue,
    EarlyFiveStall,
}

/// `actions` with every repeated action dropped after its first occurrence.
pub open spec fn dedup(actions: Seq<Action>) -> Seq<Action>
    decreases actions.len(),
{
    if actions.len() == 0 {
        Seq::empty()
    } else {
        let rest = dedup(actions.drop_last());
        if rest.contains(actions.last()) {
            rest
        } else {
            rest.push(actions.last())
        }
    }
}

/// Dropping repeats keeps exactly the actions that occur, each once.
pub proof fn lemma_dedup(actions: Seq<Action>)
    ensures
        forall|a: Action| dedup(actions).contains(a) <==> actions.contains(a),
        dedup(actions).no_duplicates(),
        dedup(actions).len() <= actions.len(),
        dedup(actions).len() == 0 <==> actions.len() == 0,
    decreases actions.len(),
{
    if actions.len() > 0 {
        let init = actions.drop_last();
        let last = actions.last();
        let rest = dedup(init);
        lemma_dedup(init);
        assert forall|a: Action| dedup(actions).contains(a) <==> actions.contains(a) by {
            if actions.contains(a) {
                let k = choose|k: int| 0 <= k < actions.len() && actions[k] == a;
                if k < actions.len() - 1 {
                    assert(init[k] == a);
                    assert(init.contains(a));
                    assert(rest.contains(a));
                    let m = choose|m: int| 0 <= m < rest.len() && rest[m] == a;
                    if !rest.contains(last) {
                        assert(rest.push(last)[m] == a);
                    }
                } else {
                    assert(a == last);
                    if !rest.contains(last) {
                        assert(rest.push(last)[rest.len() as int] == a);
                    }
                }
            }
            if dedup(actions).contains(a) {
                let k = choose|k: int| 0 <= k < dedup(actions).len() && dedup(actions)[k] == a;
                if k < rest.len() {
                    assert(rest[k] == a);
                    assert(rest.contains(a));
                    assert(init.contains(a));
                    let m = choose|m: int| 0 <= m < init.len() && init[m] == a;
                    assert(actions[m] == a);
                } else {
                    assert(a == last);
                    assert(actions[actions.len() - 1] == a);
                }
            }
        }
        if !rest.contains(last) {
            assert forall|x: int, y: int|
                0 <= x < y < rest.push(last).len() implies rest.push(last)[x] != rest.push(last)[y] by {
                if y == rest.len() {
                    assert(rest[x] == rest.push(last)[x]);
                }
            }
        }
    }
}

/// One typed convention requirement and all semantically equivalent ways to
/// satisfy it. Strategy may rank alternatives inside this set but cannot
/// compare an unrelated higher-scored action against it.
#[derive(Clone, Debug)]
pub struct ConventionRequirement {
    kind: ConventionRequirementKind,
    alternatives: Vec<Action>,
}

/// Hard convention obligations, kept separate from heuristic utility.
///
/// An empty required set means every legal action is admissible. Once a rule
/// supplies requirements, numeric strategy may rank only those actions.
#[derive(Clone, Debug)]
pub struct ConventionConstraints {
    requirement: Option<ConventionRequirement>,
}

impl View for ConventionConstraints {
    /// The requirement kind and its alternatives, in first-occurrence order.
    type V = Option<(ConventionRequirementKind, Seq<Action>)>;

    closed spec fn view(&self) -> Option<(ConventionRequirementKind, Seq<Action>)> {
        match self.requirement {
            None => None,
            Some(r) => Some((r.kind, r.alternatives@)),
        }
    }
}

/// The constraints that `require(kind, actions)` builds.
pub open spec fn required(kind: ConventionRequirementKind, actions: Seq<Action>) -> Option<
    (ConventionRequirementKind, Seq<Action>),
> {
    if actions.len() == 0 {
        None
    } else {
        Some((kind, dedup(actions)))
    }
}

/// Whether constraints with view `c` admit `action`.
pub open spec fn admits(c: Option<(ConventionRequirementKind, Seq<Action>)>, action: Action) -> bool {
    match c {
        None => true,
        Some((_, alternatives)) => alternatives.contains(action),
    }
}

/// Whether `action` occurs in `actions`.
fn occurs(actions: &Vec<Action>, action: Action) -> (b: bool)
    ensures
        b == actions@.contains(action),
{
    let mut i: usize = 0;
    while i < actions.len()
        invariant
            i <= actions@.len(),
            forall|k: int| 0 <= k < i ==> actions@[k] != action,
        decreases actions@.len() - i,
    {
        if actions[i] == action {
            return true;
        }
        i = i + 1;
    }
    false
}

impl ConventionConstraints {
    /// No obligation: every action is admissible.
    pub fn new() -> (c: Self)
        ensures
            c@ is None,
    {
        ConventionConstraints { requirement: None }
    }

    /// A requirement of `kind` satisfied by any of `actions`. An empty set of
    /// actions is no requirement at all.
    pub fn require(kind: ConventionRequirementKind, actions: Vec<Action>) -> (c: Self)
        ensures
            c@ == required(kind, actions@),
    {
        let mut alternatives: Vec<Action> = Vec::new();
        let mut i: usize = 0;
        while i < actions.len()
            invariant
                i <= actions@.len(),
                alternatives@ == dedup(actions@.take(i as int)),
            decreases actions@.len() - i,
        {
            proof {
                assert(actions@.take(i + 1).drop_last() =~= actions@.take(i as int));
            }
            let action = actions[i];
            if !occurs(&alternatives, action) {
                alternatives.push(action);
            }
            i = i + 1;
        }
        proof {
            assert(actions@.take(i as int) =~= actions@);
            lemma_dedup(actions@);
        }
        if alternatives.len() == 0 {
            ConventionConstraints { requirement: None }
        } else {
            ConventionConstraints { requirement: Some(ConventionRequirement { kind, alternatives }) }
        }
    }

    /// Whether strategy may choose `action`.
    pub fn allows(&self, action: Action) -> (b: bool)
        ensures
            b == admits(self@, action),
    {
        match &self.requirement {
            None => true,
            Some(requirement) => occurs(&requirement.alternatives, action),
        }
    }

    /// The kind of the requirement, if any.
    pub fn kind(&self) -> (k: Option<ConventionRequirementKind>)
        ensures
            k == match self@ {
                None => None,
                Some((kind, _)) => Some(kind),
            },
    {
        match &self.requirement {
            None => None,
            Some(requirement) => Some(requirement.kind),
        }
    }

    /// Returns the action when convention semantics leave exactly one legal
    /// response. Planners must treat that response as forced rather than
    /// allowing a higher numeric heuristic to reintroduce excluded actions.
    pub fn single_required(&self) -> (a: Option<Action>)
        ensures
            a == match self@ {
                Some((_, alternatives)) => if alternatives.len() == 1 {
                    Some(alternatives[0])
                } else {
                    None
                },
                None => None,
            },
    {
        match &self.requirement {
            None => None,
            Some(requirement) => if requirement.alternatives.len() == 1 {
                Some(requirement.alternatives[0])
            } else {
                None
            },
        }
    }
}

impl Default for ConventionConstraints {
    fn default() -> (c: Self)
        ensures
            c@ is None,
    {
        ConventionConstraints::new()
    }
}

/// A requirement admits exactly the actions it lists; a requirement built
/// from no actions admits everything.
pub proof fn lemma_require_admits(
    kind: ConventionRequirementKind,
    actions: Seq<Action>,
    action: Action,
)
    ensures
        admits(required(kind, actions), action) <==> (actions.len() == 0 || actions.contains(
            action,
        )),
{
    lemma_dedup(actions);
}

/// A requirement leaves a single forced response exactly when all its
/// actions are one and the same.
pub proof fn lemma_single_required(
    kind: ConventionRequirementKind,
    actions: Seq<Action>,
    action: Action,
)
    requires
        actions.len() > 0,
        forall|k: int| 0 <= k < actions.len() ==> actions[k] == action,
    ensures
        required(kind, actions) == Some((kind, seq![action])),
{
    lemma_dedup(actions);
    let d = dedup(actions);
    assert(d.contains(action)) by {
        assert(actions[0] == action);
        assert(actions.contains(action));
    }
    assert forall|k: int| 0 <= k < d.len() implies d[k] == action by {
        assert(d.contains(d[k]));
        assert(actions.contains(d[k]));
    }
    if d.len() > 1 {
        assert(d[0] == d[1]);
    }
    assert(d =~= seq![action]);
}

} // verus!
