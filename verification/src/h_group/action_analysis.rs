//! The semantic roles of analysed actions.

use vstd::prelude::*;

use crate::cards::{Action, PlayerId};
use crate::h_group::action_preference::ConventionPolicyTier;

verus! {

/// Semantic role assigned to an action before policy ordering is applied.
#[derive(Clone, Copy, Debug, PartialEq, Eq, Structural, Hash)]
pub enum HGroupActionKind {
    Connection,
    RequiredDiscard,
    PromisedPlay,
    Clue { target: PlayerId, save: bool, immediate_play: bool },
    Discard,
    Fallback,
}

/// One canonical H-Group analysis consumed by planning and action selection.
#[derive(Clone, Copy, Debug, PartialEq, Eq, Structural)]
pub struct CompiledHGroupAction {
    pub action: Action,
    pub kind: HGroupActionKind,
    pub policy_tier: ConventionPolicyTier,
    pub priority: i32,
}

/// Complete convention decision for one observer-relative position.
#[derive(Clone, Debug)]
pub struct HGroupActionSet {
    pub actions: Vec<CompiledHGroupAction>,
    pub preferred: Option<Action>,
    pub predictable: Option<Action>,
}

impl HGroupActionSet {
    /// No action, no preference, no prediction.
    pub fn new() -> (s: Self)
        ensures
            s.actions@.len() == 0,
            s.preferred is None,
            s.predictable is None,
    {
        HGroupActionSet { actions: Vec::new(), preferred: None, predictable: None }
    }
}

impl Default for HGroupActionSet {
    fn default() -> (s: Self)
        ensures
            s.actions@.len() == 0,
            s.preferred is None,
            s.predictable is None,
    {
        HGroupActionSet::new()
    }
}

} // verus!
