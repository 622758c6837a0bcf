//! Small decision rules shared by H-Group action ordering.

use vstd::prelude::*;

use crate::convention::ConventionActionReason;
use crate::cards::{Action, CardId, CardSet, Clue, PlayerId, Rank};
use crate::h_group::action_analysis::{CompiledHGroupAction, HGroupActionKind};
use crate::h_group::constraints::{admits, lemma_require_admits, required, ConventionConstraints, ConventionRequirementKind};
use crate::h_group::action_preference::TerminalPlanProgress;
use crate::h_group::candidate::CompiledClueAction;
use crate::h_group::HGroupMoveKind;
use crate::h_group::action_schedule::playable_at;
use crate::h_group::admission::VisibleCard;
use crate::h_group::hand::list_contains;
use crate::h_group::claims::{ClaimsView, IdentityClaims};
use crate::h_group::queue::{identity_of, seen_identity};

verus! {

/// The public reason reported for an action of `kind`.
pub open spec fn reason_of(kind: HGroupActionKind) -> ConventionActionReason {
    match kind {
        HGroupActionKind::Connection => ConventionActionReason::Connection,
        HGroupActionKind::RequiredDiscard => ConventionActionReason::RequiredDiscard,
        HGroupActionKind::PromisedPlay => ConventionActionReason::PromisedPlay,
        HGroupActionKind::Clue { save, immediate_play, .. } => if save {
            ConventionActionReason::SaveClue
        } else if immediate_play {
            ConventionActionReason::PlayClue
        } else {
            ConventionActionReason::OtherClue
        },
        HGroupActionKind::Discard => ConventionActionReason::Discard,
        HGroupActionKind::Fallback => ConventionActionReason::Fallback,
    }
}

/// The public reason reported for an action of `kind`: a save clue is
/// reported as a save even when it also plays.
pub fn convention_action_reason(kind: HGroupActionKind) -> (r: ConventionActionReason)
    ensures
        r == reason_of(kind),
{
    match kind {
        HGroupActionKind::Connection => ConventionActionReason::Connection,
        HGroupActionKind::RequiredDiscard => ConventionActionReason::RequiredDiscard,
        HGroupActionKind::PromisedPlay => ConventionActionReason::PromisedPlay,
        HGroupActionKind::Clue { save: true, .. } => ConventionActionReason::SaveClue,
        HGroupActionKind::Clue { immediate_play: true, .. } => ConventionActionReason::PlayClue,
        HGroupActionKind::Clue { .. } => ConventionActionReason::OtherClue,
        HGroupActionKind::Discard => ConventionActionReason::Discard,
        HGroupActionKind::Fallback => ConventionActionReason::Fallback,
    }
}

/// Whether the candidate is a 5 Stall.
pub fn candidate_is_five_stall(candidate: &CompiledClueAction) -> (b: bool)
    ensures
        b == (candidate.semantics.move_kind == Some(HGroupMoveKind::FiveStall)),
{
    candidate.move_kind() == Some(HGroupMoveKind::FiveStall)
}

/// How many team actions a deferred clue sets up: its whole action coverage
/// when it starts a connection, otherwise at most one.
pub fn deferred_teamwork_action_count(candidate: &CompiledClueAction) -> (n: u8)
    ensures
        n == if candidate.semantics.line.connection_steps > 0 {
            candidate.semantics.line.action_coverage
        } else if candidate.semantics.line.action_coverage > 0 {
            1u8
        } else {
            0u8
        },
{
    if candidate.connection_steps() > 0 {
        candidate.action_coverage()
    } else if candidate.action_coverage() > 0 {
        1
    } else {
        0
    }
}

/// Priority of a guaranteed play: above a non-urgent save (score 400, so
/// priority 500), below an emergency save for the very next player.
pub const KNOWN_PLAY_PRIORITY: i32 = 525;

/// What the convention analysis established about one action, as the
/// priority rules read it.
#[derive(Clone, Copy, Debug, PartialEq, Eq)]
pub struct PriorityEvidence {
    /// The action plays a card whose play the convention forces.
    pub forced_play: bool,
    /// The action plays the card of the current connection.
    pub connection_play: bool,
    /// The action plays the card a paused Priority connection releases.
    pub paused_priority_play: bool,
    /// The action is a clue that may defer the demonstrated connection.
    pub defers_connection: bool,
    /// The action discards a card the convention requires discarding.
    pub required_discard: bool,
    /// The action plays a card known to be playable now.
    pub known_play: bool,
    /// The score of the action as the chosen discard candidate, if it is one.
    pub scored_discard: Option<u8>,
    /// That discard lets a direct play complete without an extra token.
    pub completes_without_extra_token: bool,
    /// Early-game clue handoff priority of that discard, if any.
    pub handoff_priority: Option<i32>,
    /// Draw-distribution priority of that discard, if any.
    pub draw_distribution_priority: Option<i32>,
    /// Deferred-teamwork priority of that discard, if any.
    pub deferred_teamwork_priority: Option<i32>,
    /// The score of the clue candidate the action is, if it is one.
    pub clue_score: Option<u16>,
    /// The terminal-plan progress of that clue, if it advances the end game.
    pub endgame_progress: Option<TerminalPlanProgress>,
}

/// The priority of a clue candidate before play-obligation adjustments: its
/// terminal-plan encoding, or 100 plus its score; 25 for an action that is
/// no candidate.
pub open spec fn base_clue_priority(e: PriorityEvidence) -> int {
    match e.clue_score {
        None => 25,
        Some(score) => match e.endgame_progress {
            Some(p) => 101 + p.discard_threshold + p.clue_value,
            None => 100 + score,
        },
    }
}

/// The adjustment evidence as read for the action `e` describes: the action
/// is a clue candidate exactly when it has a clue score.
pub open spec fn candidate_adjustment(e: PriorityEvidence, a: ClueAdjustmentEvidence) -> ClueAdjustmentEvidence {
    ClueAdjustmentEvidence { is_candidate: e.clue_score is Some, ..a }
}

/// The raw priority of an action, decided in this order: a forced play, the
/// connection play, a paused Priority play, a clue that defers the
/// connection, a required discard, a known play, the chosen discard, and
/// finally the clue priority after play-obligation precedence.
pub open spec fn raw_priority(e: PriorityEvidence, a: ClueAdjustmentEvidence) -> int {
    if e.forced_play {
        900
    } else if e.connection_play {
        800
    } else if e.paused_priority_play {
        825
    } else if e.defers_connection {
        850
    } else if e.required_discard {
        600
    } else if e.known_play {
        KNOWN_PLAY_PRIORITY as int
    } else if e.scored_discard is Some {
        if e.completes_without_extra_token {
            KNOWN_PLAY_PRIORITY - 1
        } else if e.handoff_priority is Some {
            e.handoff_priority->0 as int
        } else if e.draw_distribution_priority is Some {
            e.draw_distribution_priority->0 as int
        } else if e.deferred_teamwork_priority is Some {
            e.deferred_teamwork_priority->0 as int
        } else {
            100 + e.scored_discard->0
        }
    } else {
        adjusted_priority(base_clue_priority(e), candidate_adjustment(e, a))
    }
}

/// The raw priority of an action. A clue candidate's priority has the
/// play-obligation precedence of `adjust_clue_priority` applied, read from
/// `adjustment`.
pub fn raw_h_group_action_priority(e: &PriorityEvidence, adjustment: &ClueAdjustmentEvidence) -> (p: i32)
    requires
        adjustment.useful_touched <= i32::MAX - 550,
        e.endgame_progress matches Some(progress) ==> i32::MIN <= 101 + progress.discard_threshold
            <= i32::MAX && i32::MIN <= 101 + progress.discard_threshold + progress.clue_value
            <= i32::MAX,
    ensures
        p == raw_priority(*e, *adjustment),
{
    if e.forced_play {
        return 900;
    }
    if e.connection_play {
        return 800;
    }
    if e.paused_priority_play {
        return 825;
    }
    if e.defers_connection {
        return 850;
    }
    if e.required_discard {
        return 600;
    }
    if e.known_play {
        return KNOWN_PLAY_PRIORITY;
    }
    if let Some(score) = e.scored_discard {
        if e.completes_without_extra_token {
            return KNOWN_PLAY_PRIORITY - 1;
        }
        if let Some(priority) = e.handoff_priority {
            return priority;
        }
        if let Some(priority) = e.draw_distribution_priority {
            return priority;
        }
        if let Some(priority) = e.deferred_teamwork_priority {
            return priority;
        }
        return 100 + score as i32;
    }
    let clue_priority: i32 = match e.clue_score {
        None => 25,
        Some(score) => match e.endgame_progress {
            Some(progress) => progress.encoded_priority(),
            None => 100 + score as i32,
        },
    };
    let read = ClueAdjustmentEvidence { is_candidate: e.clue_score.is_some(), ..*adjustment };
    adjust_clue_priority(clue_priority, &read)
}

/// What the play-obligation adjustment reads about a clue candidate.
#[derive(Clone, Copy, Debug, PartialEq, Eq)]
pub struct ClueAdjustmentEvidence {
    /// The action is a clue candidate.
    pub is_candidate: bool,
    /// Some playable card of the actor is a forced play.
    pub has_forced_play: bool,
    /// The clue is a hard Fix or an endangered Save.
    pub hard_clue_obligation: bool,
    /// The actor has a card playable now.
    pub has_playable: bool,
    /// The clue may preempt the current play: a long connection line, an
    /// exact transferred play, or an expiring multi-card opportunity while a
    /// surplus 5 can be parked.
    pub can_preempt_play: bool,
    /// A completed connection's focus is due.
    pub completed_focus_due: bool,
    /// The clue is a Finesse with a Lie Component.
    pub lie_component: bool,
    /// Playing first preserves the clue for a free teammate.
    pub preserved_for_free_teammate: bool,
    /// The clue preserves a visible continuation.
    pub preserves_visible_continuation: bool,
    /// Useful cards the clue touches in the target's hand, when it preserves
    /// a visible continuation.
    pub useful_touched: u32,
    /// The clue names a suit.
    pub suit_clue: bool,
    /// The clue preempts the play obligation (hard, or urgent for the next
    /// player and not blocked by occupancy).
    pub preempts_play_obligation: bool,
}

/// How much a preempting clue outranks the parked play.
pub open spec fn preemption_value(e: ClueAdjustmentEvidence) -> int {
    if e.preserves_visible_continuation {
        e.useful_touched as int
    } else if e.suit_clue {
        1
    } else {
        0
    }
}

/// The clue priority after play-obligation precedence: a forced play caps
/// every clue but a hard one at 500; a clue that may preempt a known play is
/// raised to at least 550 plus its preemption value (capped just below a
/// known play when playing first keeps the clue for a free teammate); a clue
/// that may not preempt the actor's obligation is capped at 500.
pub open spec fn adjusted_priority(clue_priority: int, e: ClueAdjustmentEvidence) -> int {
    if e.has_forced_play && e.is_candidate && !e.hard_clue_obligation {
        if clue_priority < 500 {
            clue_priority
        } else {
            500
        }
    } else if e.has_playable && e.is_candidate && e.can_preempt_play && (!e.completed_focus_due
        || e.lie_component) {
        if e.preserved_for_free_teammate {
            if clue_priority < KNOWN_PLAY_PRIORITY - 1 {
                clue_priority
            } else {
                KNOWN_PLAY_PRIORITY - 1
            }
        } else if clue_priority > 550 + preemption_value(e) {
            clue_priority
        } else {
            550 + preemption_value(e)
        }
    } else if e.has_playable && e.is_candidate && !e.preempts_play_obligation {
        if clue_priority < 500 {
            clue_priority
        } else {
            500
        }
    } else {
        clue_priority
    }
}

/// Applies play-obligation precedence after the candidate's within-tier clue
/// value has been computed, so base clue scoring never silently overrides a
/// forced or already-promised action.
pub fn adjust_clue_priority(clue_priority: i32, e: &ClueAdjustmentEvidence) -> (p: i32)
    requires
        e.useful_touched <= i32::MAX - 550,
    ensures
        p == adjusted_priority(clue_priority as int, *e),
{
    if e.has_forced_play && e.is_candidate && !e.hard_clue_obligation {
        return if clue_priority < 500 {
            clue_priority
        } else {
            500
        };
    }
    if e.has_playable && e.is_candidate && e.can_preempt_play && (!e.completed_focus_due
        || e.lie_component) {
        if e.preserved_for_free_teammate {
            return if clue_priority < KNOWN_PLAY_PRIORITY - 1 {
                clue_priority
            } else {
                KNOWN_PLAY_PRIORITY - 1
            };
        }
        let value: i32 = if e.preserves_visible_continuation {
            e.useful_touched as i32
        } else if e.suit_clue {
            1
        } else {
            0
        };
        let floor = 550 + value;
        return if clue_priority > floor {
            clue_priority
        } else {
            floor
        };
    }
    if e.has_playable && e.is_candidate && !e.preempts_play_obligation {
        return if clue_priority < 500 {
            clue_priority
        } else {
            500
        };
    }
    clue_priority
}

/// A forced play outranks every action that is neither forced nor a clue
/// candidate, as long as the discard-specific priorities stay below 900.
pub proof fn lemma_forced_play_first(e: PriorityEvidence, f: PriorityEvidence, a: ClueAdjustmentEvidence, b: ClueAdjustmentEvidence)
    requires
        e.forced_play,
        !f.forced_play,
        f.clue_score is None,
        f.scored_discard matches Some(_) ==> (f.handoff_priority matches Some(h) ==> h < 900) && (
        f.draw_distribution_priority matches Some(d) ==> d < 900) && (f.deferred_teamwork_priority matches Some(t) ==> t < 900),
    ensures
        raw_priority(e, a) > raw_priority(f, b),
{
}

/// What the convention analysis established that can restrict the actions
/// strategy may score.
#[derive(Clone, Debug)]
pub struct ConstraintEvidence {
    /// At zero clues, only a discard can protect an endangered chop.
    pub emergency_discard_required: bool,
    /// A card playable now carries a forced play obligation.
    pub has_forced_play: bool,
    /// The observer is obliged to clue.
    pub observer_must_clue: bool,
    /// The observer has a connection to respond to.
    pub has_connection: bool,
    /// The clues that perform the Early Game's first 5 Stall, when one is due.
    pub first_five_stall: Option<Vec<Action>>,
    /// The cards the convention requires the observer to discard.
    pub discard_now: Vec<CardId>,
}

/// The discards among the analysed actions, in order.
pub open spec fn discard_actions(analyzed: Seq<CompiledHGroupAction>) -> Seq<Action>
    decreases analyzed.len(),
{
    if analyzed.len() == 0 {
        Seq::empty()
    } else {
        let rest = discard_actions(analyzed.drop_last());
        if analyzed.last().action is Discard {
            rest.push(analyzed.last().action)
        } else {
            rest
        }
    }
}

/// The actions of the clue candidates, in order.
pub open spec fn clue_actions(clues: Seq<CompiledClueAction>) -> Seq<Action> {
    clues.map_values(|c: CompiledClueAction| c.action)
}

/// The position of the first hard clue obligation.
pub open spec fn first_hard(hard: Seq<bool>) -> Option<int>
    decreases hard.len(),
{
    if hard.len() == 0 {
        None
    } else {
        match first_hard(hard.drop_last()) {
            Some(k) => Some(k),
            None => if hard.last() {
                Some(hard.len() - 1)
            } else {
                None
            },
        }
    }
}

/// The clues satisfying the protection obligation of `urgent`: the urgent
/// clue itself, and every clue to the same player that plays immediately or
/// is itself a hard obligation.
pub open spec fn protection_actions(clues: Seq<CompiledClueAction>, hard: Seq<bool>, urgent: CompiledClueAction) -> Seq<Action>
    decreases clues.len(),
{
    if clues.len() == 0 {
        Seq::empty()
    } else {
        let rest = protection_actions(clues.drop_last(), hard, urgent);
        let c = clues.last();
        if c.action == urgent.action || (c.action->target == urgent.action->target && (
        c.semantics.schedule.immediate_play || hard[clues.len() - 1])) {
            rest.push(c.action)
        } else {
            rest
        }
    }
}

/// The analysed actions that respond to the connection: the connection
/// play, and every action the connection allows.
pub open spec fn response_actions(analyzed: Seq<CompiledHGroupAction>, allowed: Seq<bool>) -> Seq<Action>
    decreases analyzed.len(),
{
    if analyzed.len() == 0 {
        Seq::empty()
    } else {
        let rest = response_actions(analyzed.drop_last(), allowed);
        let a = analyzed.last();
        if a.kind == HGroupActionKind::Connection || allowed[analyzed.len() - 1] {
            rest.push(a.action)
        } else {
            rest
        }
    }
}

/// Discards of the listed cards.
pub open spec fn discards_of(cards: Seq<CardId>) -> Seq<Action> {
    cards.map_values(|c: CardId| Action::Discard(c))
}

/// The requirement the convention derives, in precedence order: an
/// emergency discard, a hard clue obligation (unless a play is forced), a
/// clue the observer must give, a connection response, the first 5 Stall, a
/// required discard, and an obligation to clue; otherwise none.
pub open spec fn derived_requirement(
    e: ConstraintEvidence,
    clues: Seq<CompiledClueAction>,
    hard: Seq<bool>,
    analyzed: Seq<CompiledHGroupAction>,
    allowed: Seq<bool>,
) -> Option<(ConventionRequirementKind, Seq<Action>)> {
    if e.emergency_discard_required {
        Some((ConventionRequirementKind::UrgentProtection, discard_actions(analyzed)))
    } else if !e.has_forced_play && first_hard(hard) is Some {
        Some((
            ConventionRequirementKind::UrgentProtection,
            protection_actions(clues, hard, clues[first_hard(hard)->0]),
        ))
    } else if e.observer_must_clue && clues.len() > 0 {
        Some((ConventionRequirementKind::MustClue, clue_actions(clues)))
    } else if e.has_connection {
        Some((ConventionRequirementKind::ConnectionResponse, response_actions(analyzed, allowed)))
    } else if e.first_five_stall is Some {
        Some((ConventionRequirementKind::EarlyFiveStall, e.first_five_stall->0@))
    } else if e.discard_now@.len() > 0 {
        Some((ConventionRequirementKind::RequiredDiscard, discards_of(e.discard_now@)))
    } else if e.observer_must_clue {
        Some((ConventionRequirementKind::MustClue, clue_actions(clues)))
    } else {
        None
    }
}

proof fn lemma_first_hard_bounds(hard: Seq<bool>)
    ensures
        first_hard(hard) matches Some(k) ==> 0 <= k < hard.len() && hard[k],
    decreases hard.len(),
{
    if hard.len() > 0 {
        lemma_first_hard_bounds(hard.drop_last());
    }
}

/// Derives the hard convention obligations. `hard` flags the clue
/// candidates that are hard obligations (a Fix or an endangered Save), and
/// `allowed` the analysed actions a pending connection allows.
pub fn derive_convention_constraints(
    e: &ConstraintEvidence,
    clues: &Vec<CompiledClueAction>,
    hard: &Vec<bool>,
    analyzed: &Vec<CompiledHGroupAction>,
    allowed: &Vec<bool>,
) -> (c: ConventionConstraints)
    requires
        hard@.len() == clues@.len(),
        allowed@.len() == analyzed@.len(),
        forall|k: int| 0 <= k < clues@.len() ==> (#[trigger] clues@[k]).action is Clue,
    ensures
        c@ == match derived_requirement(*e, clues@, hard@, analyzed@, allowed@) {
            None => None,
            Some((kind, actions)) => required(kind, actions),
        },
{
    if e.emergency_discard_required {
        let mut actions: Vec<Action> = Vec::new();
        let mut i: usize = 0;
        while i < analyzed.len()
            invariant
                i <= analyzed@.len(),
                actions@ == discard_actions(analyzed@.take(i as int)),
            decreases analyzed@.len() - i,
        {
            proof {
                assert(analyzed@.take(i + 1).drop_last() =~= analyzed@.take(i as int));
            }
            if let Action::Discard(_) = analyzed[i].action {
                actions.push(analyzed[i].action);
            }
            i = i + 1;
        }
        proof {
            assert(analyzed@.take(i as int) =~= analyzed@);
        }
        return ConventionConstraints::require(ConventionRequirementKind::UrgentProtection, actions);
    }
    if !e.has_forced_play {
        let mut u: usize = 0;
        while u < hard.len()
            invariant
                u <= hard@.len(),
                !e.emergency_discard_required,
                !e.has_forced_play,
                hard@.len() == clues@.len(),
                forall|k: int| 0 <= k < clues@.len() ==> (#[trigger] clues@[k]).action is Clue,
                first_hard(hard@.take(u as int)) is None,
            decreases hard@.len() - u,
        {
            proof {
                assert(hard@.take(u + 1).drop_last() =~= hard@.take(u as int));
            }
            if hard[u] {
                proof {
                    lemma_first_hard_prefix(hard@, u as int + 1);
                }
                let urgent = clues[u];
                let mut actions: Vec<Action> = Vec::new();
                let mut i: usize = 0;
                while i < clues.len()
                    invariant
                        i <= clues@.len(),
                        hard@.len() == clues@.len(),
                        urgent.action is Clue,
                        !e.emergency_discard_required,
                        !e.has_forced_play,
                        u < clues@.len(),
                        urgent == clues@[u as int],
                        first_hard(hard@) == Some(u as int),
                        forall|k: int| 0 <= k < clues@.len() ==> (#[trigger] clues@[k]).action is Clue,
                        actions@ == protection_actions(clues@.take(i as int), hard@, urgent),
                    decreases clues@.len() - i,
                {
                    proof {
                        assert(clues@.take(i + 1).drop_last() =~= clues@.take(i as int));
                    }
                    let c = clues[i];
                    if c.action == urgent.action || (c.target() == urgent.target() && (c.immediate_play()
                        || hard[i])) {
                        actions.push(c.action);
                    }
                    i = i + 1;
                }
                proof {
                    assert(clues@.take(i as int) =~= clues@);
                }
                return ConventionConstraints::require(ConventionRequirementKind::UrgentProtection, actions);
            }
            u = u + 1;
        }
        proof {
            assert(hard@.take(u as int) =~= hard@);
        }
    }
    if e.observer_must_clue && clues.len() > 0 {
        return ConventionConstraints::require(ConventionRequirementKind::MustClue, actions_of(clues));
    }
    if e.has_connection {
        let mut actions: Vec<Action> = Vec::new();
        let mut i: usize = 0;
        while i < analyzed.len()
            invariant
                i <= analyzed@.len(),
                allowed@.len() == analyzed@.len(),
                actions@ == response_actions(analyzed@.take(i as int), allowed@),
            decreases analyzed@.len() - i,
        {
            proof {
                assert(analyzed@.take(i + 1).drop_last() =~= analyzed@.take(i as int));
            }
            if analyzed[i].kind == HGroupActionKind::Connection || allowed[i] {
                actions.push(analyzed[i].action);
            }
            i = i + 1;
        }
        proof {
            assert(analyzed@.take(i as int) =~= analyzed@);
        }
        return ConventionConstraints::require(ConventionRequirementKind::ConnectionResponse, actions);
    }
    match &e.first_five_stall {
        Some(required) => {
            let mut actions: Vec<Action> = Vec::new();
            let mut i: usize = 0;
            while i < required.len()
                invariant
                    i <= required@.len(),
                    actions@ == required@.take(i as int),
                decreases required@.len() - i,
            {
                actions.push(required[i]);
                i = i + 1;
                proof {
                    assert(actions@ =~= required@.take(i as int));
                }
            }
            proof {
                assert(required@.take(i as int) =~= required@);
            }
            return ConventionConstraints::require(ConventionRequirementKind::EarlyFiveStall, actions);
        },
        None => {},
    }
    if e.discard_now.len() > 0 {
        let mut actions: Vec<Action> = Vec::new();
        let mut i: usize = 0;
        while i < e.discard_now.len()
            invariant
                i <= e.discard_now@.len(),
                actions@ == discards_of(e.discard_now@.take(i as int)),
            decreases e.discard_now@.len() - i,
        {
            actions.push(Action::Discard(e.discard_now[i]));
            i = i + 1;
            proof {
                assert(actions@ =~= discards_of(e.discard_now@.take(i as int)));
            }
        }
        proof {
            assert(e.discard_now@.take(i as int) =~= e.discard_now@);
        }
        return ConventionConstraints::require(ConventionRequirementKind::RequiredDiscard, actions);
    }
    if e.observer_must_clue {
        return ConventionConstraints::require(ConventionRequirementKind::MustClue, actions_of(clues));
    }
    ConventionConstraints::new()
}

/// The actions of the clue candidates.
fn actions_of(clues: &Vec<CompiledClueAction>) -> (r: Vec<Action>)
    ensures
        r@ == clue_actions(clues@),
{
    let mut r: Vec<Action> = Vec::new();
    let mut i: usize = 0;
    while i < clues.len()
        invariant
            i <= clues@.len(),
            r@ == clue_actions(clues@.take(i as int)),
        decreases clues@.len() - i,
    {
        r.push(clues[i].action);
        i = i + 1;
        proof {
            assert(r@ =~= clue_actions(clues@.take(i as int)));
        }
    }
    proof {
        assert(clues@.take(i as int) =~= clues@);
    }
    r
}

proof fn lemma_first_hard_prefix(hard: Seq<bool>, n: int)
    requires
        0 < n <= hard.len(),
        first_hard(hard.take(n - 1)) is None,
        hard[n - 1],
    ensures
        first_hard(hard) == Some(n - 1),
    decreases hard.len() - n,
{
    assert(hard.take(n).drop_last() =~= hard.take(n - 1));
    if n < hard.len() {
        lemma_first_hard_extend(hard, n);
    } else {
        assert(hard.take(n) =~= hard);
    }
}

proof fn lemma_first_hard_extend(hard: Seq<bool>, n: int)
    requires
        0 < n <= hard.len(),
        first_hard(hard.take(n)) is Some,
    ensures
        first_hard(hard) == first_hard(hard.take(n)),
    decreases hard.len() - n,
{
    if n < hard.len() {
        assert(hard.take(n + 1).drop_last() =~= hard.take(n));
        lemma_first_hard_extend(hard, n + 1);
    } else {
        assert(hard.take(n) =~= hard);
    }
}

proof fn lemma_discard_actions_are_discards(analyzed: Seq<CompiledHGroupAction>)
    ensures
        forall|k: int| 0 <= k < discard_actions(analyzed).len() ==> (#[trigger] discard_actions(analyzed)[k]) is Discard,
    decreases analyzed.len(),
{
    if analyzed.len() > 0 {
        lemma_discard_actions_are_discards(analyzed.drop_last());
        let rest = discard_actions(analyzed.drop_last());
        let all = discard_actions(analyzed);
        assert forall|k: int| 0 <= k < all.len() implies (#[trigger] all[k]) is Discard by {
            if k < rest.len() {
                assert(all[k] == rest[k]);
            }
        }
    }
}

/// When only a discard can protect an endangered chop and some discard was
/// analysed, the derived constraints admit nothing but discards.
pub proof fn lemma_emergency_admits_only_discards(
    e: ConstraintEvidence,
    clues: Seq<CompiledClueAction>,
    hard: Seq<bool>,
    analyzed: Seq<CompiledHGroupAction>,
    allowed: Seq<bool>,
    action: Action,
)
    requires
        e.emergency_discard_required,
        discard_actions(analyzed).len() > 0,
        admits(
            required(ConventionRequirementKind::UrgentProtection, discard_actions(analyzed)),
            action,
        ),
    ensures
        derived_requirement(e, clues, hard, analyzed, allowed) == Some(
            (ConventionRequirementKind::UrgentProtection, discard_actions(analyzed)),
        ),
        action is Discard,
{
    lemma_require_admits(ConventionRequirementKind::UrgentProtection, discard_actions(analyzed), action);
    lemma_discard_actions_are_discards(analyzed);
    let d = discard_actions(analyzed);
    let k = choose|k: int| 0 <= k < d.len() && d[k] == action;
    assert(d[k] is Discard);
}

/// The semantic role of `action`: the due connection play, a required
/// discard, a promised play, a clue (with its target, save and immediate
/// play flags), another discard, or a fallback.
pub open spec fn spec_classify(
    action: Action,
    connection_card: Option<CardId>,
    discard_now: Seq<CardId>,
    playable_now: Seq<CardId>,
    clue: Option<CompiledClueAction>,
) -> HGroupActionKind {
    if connection_card matches Some(card) && action == Action::Play(card) {
        HGroupActionKind::Connection
    } else if action matches Action::Discard(card) && discard_now.contains(card) {
        HGroupActionKind::RequiredDiscard
    } else if action matches Action::Play(card) && playable_now.contains(card) {
        HGroupActionKind::PromisedPlay
    } else {
        match clue {
            Some(candidate) => HGroupActionKind::Clue {
                target: candidate.action->target,
                save: candidate.semantics.purpose == crate::h_group::candidate::CluePurpose::Save,
                immediate_play: candidate.semantics.schedule.immediate_play,
            },
            None => if action is Discard {
                HGroupActionKind::Discard
            } else {
                HGroupActionKind::Fallback
            },
        }
    }
}

/// Assigns `action` its semantic role from the inferred connection play,
/// required discards, promised plays and the compiled clue, if any.
pub fn classify_h_group_action(
    action: Action,
    connection_card: Option<CardId>,
    discard_now: &Vec<CardId>,
    playable_now: &Vec<CardId>,
    clue: Option<&CompiledClueAction>,
) -> (kind: HGroupActionKind)
    requires
        clue matches Some(candidate) ==> candidate.action is Clue,
    ensures
        kind == spec_classify(
            action,
            connection_card,
            discard_now@,
            playable_now@,
            match clue {
                Some(candidate) => Some(*candidate),
                None => None,
            },
        ),
{
    if let Some(card) = connection_card {
        if action == Action::Play(card) {
            return HGroupActionKind::Connection;
        }
    }
    match action {
        Action::Discard(card) => {
            if list_contains(discard_now.as_slice(), card) {
                return HGroupActionKind::RequiredDiscard;
            }
        },
        Action::Play(card) => {
            if list_contains(playable_now.as_slice(), card) {
                return HGroupActionKind::PromisedPlay;
            }
        },
        _ => {},
    }
    match clue {
        Some(candidate) => HGroupActionKind::Clue {
            target: candidate.target(),
            save: candidate.is_save(),
            immediate_play: candidate.immediate_play(),
        },
        None => match action {
            Action::Discard(_) => HGroupActionKind::Discard,
            _ => HGroupActionKind::Fallback,
        },
    }
}

/// How many cards of `hand` have an identifier below `bound`.
pub open spec fn older_count(hand: Seq<VisibleCard>, bound: CardId) -> nat
    decreases hand.len(),
{
    if hand.len() == 0 {
        0
    } else {
        older_count(hand.drop_last(), bound) + if hand.last().id.id < bound.id {
            1nat
        } else {
            0nat
        }
    }
}

/// Whether the card at `slot` of the hand `distance` seats after `player`
/// is visibly playable.
pub open spec fn slot_playable(hands: Seq<Vec<VisibleCard>>, heights: Seq<u8>, player: PlayerId, distance: int, slot: int) -> bool {
    let target = (player.seat + distance) % (hands.len() as int);
    &&& slot < hands[target]@.len()
    &&& hands[target]@[slot].identity matches Some(c) && playable_at(heights, c)
}

/// A positional discard is valid outside the final round, and inside it
/// when the slot it indicates holds a visibly playable card in some other
/// player's hand.
pub open spec fn spec_positional_discard_valid(
    hands: Seq<Vec<VisibleCard>>,
    deck_size: int,
    heights: Seq<u8>,
    player: PlayerId,
    discard: CardId,
) -> bool {
    if deck_size > hands.len() {
        true
    } else {
        exists|d: int|
            1 <= d < hands.len() && #[trigger] slot_playable(
                hands,
                heights,
                player,
                d,
                older_count(hands[player.seat as int]@, discard) as int,
            )
    }
}

fn count_older(hand: &Vec<VisibleCard>, bound: CardId) -> (n: usize)
    ensures
        n == older_count(hand@, bound),
{
    let mut n: usize = 0;
    let mut k: usize = 0;
    while k < hand.len()
        invariant
            k <= hand@.len(),
            n <= k,
            n == older_count(hand@.take(k as int), bound),
        decreases hand@.len() - k,
    {
        proof {
            assert(hand@.take(k + 1).drop_last() =~= hand@.take(k as int));
        }
        if hand[k].id.id < bound.id {
            n = n + 1;
        }
        k = k + 1;
    }
    proof {
        assert(hand@.take(k as int) =~= hand@);
    }
    n
}

/// Whether a positional discard of `discard` by `player` is valid: outside
/// the final round always, inside it only when the indicated slot holds a
/// visibly playable card in another player's hand.
/// <https://hanabi.github.io/level-13/#positional-discards>
pub fn positional_discard_is_valid_for(
    hands: &Vec<Vec<VisibleCard>>,
    deck_size: usize,
    stack_heights: [u8; 5],
    player: PlayerId,
    discard: CardId,
) -> (b: bool)
    requires
        player.seat < hands@.len(),
    ensures
        b == spec_positional_discard_valid(hands@, deck_size as int, stack_heights@, player, discard),
{
    let players = hands.len();
    if deck_size > players {
        return true;
    }
    let slot = count_older(&hands[player.index()], discard);
    let mut d: usize = 1;
    while d < players
        invariant
            players == hands@.len(),
            player.seat < players,
            1 <= d <= players,
            slot == older_count(hands@[player.seat as int]@, discard),
            forall|e: int| 1 <= e < d ==> !#[trigger] slot_playable(hands@, stack_heights@, player, e, slot as int),
        decreases players - d,
    {
        let seat = player.index();
        let target = if d >= players - seat {
            d - (players - seat)
        } else {
            seat + d
        };
        assert(target == (player.seat + d) % (players as int)) by (nonlinear_arith)
            requires
                seat == player.seat,
                seat < players,
                1 <= d < players,
                target == if d >= players - seat {
                    d - (players - seat)
                } else {
                    seat + d
                },
        ;
        let other = &hands[target];
        if slot < other.len() {
            match other[slot].identity {
                Some(c) => {
                    if stack_heights[c.suit.index()] as u16 + 1 == c.rank.number() as u16 {
                        assert(slot_playable(hands@, stack_heights@, player, d as int, slot as int));
                        return true;
                    }
                },
                None => {},
            }
        }
        assert(!slot_playable(hands@, stack_heights@, player, d as int, slot as int));
        d = d + 1;
    }
    false
}

/// How many cards of `hand` from position `k` on are not gotten.
pub open spec fn ungotten_from(hand: Seq<VisibleCard>, gotten: Set<CardId>, k: int) -> nat
    decreases hand.len() - k,
{
    if k < 0 || k >= hand.len() {
        0
    } else {
        ungotten_from(hand, gotten, k + 1) + if gotten.contains(hand[k].id) {
            0nat
        } else {
            1nat
        }
    }
}

/// The smallest number of ungotten cards newer than a visible 5 the clue
/// touches, among positions from `p` on, or `usize::MAX`.
pub open spec fn five_distance_from(hand: Seq<VisibleCard>, clue: Clue, gotten: Set<CardId>, p: int) -> int
    decreases hand.len() - p,
{
    if p < 0 || p >= hand.len() {
        usize::MAX as int
    } else {
        let rest = five_distance_from(hand, clue, gotten, p + 1);
        let here = if hand[p].identity matches Some(c) && clue.spec_matches(c) && c.rank == Rank::Five {
            ungotten_from(hand, gotten, p + 1) as int
        } else {
            usize::MAX as int
        };
        if here < rest {
            here
        } else {
            rest
        }
    }
}

fn count_ungotten(hand: &Vec<VisibleCard>, gotten: &CardSet, k: usize) -> (n: usize)
    requires
        k <= hand@.len(),
    ensures
        n == ungotten_from(hand@, gotten@, k as int),
        n <= hand@.len() - k,
{
    let mut n: usize = 0;
    let mut j: usize = hand.len();
    while j > k
        invariant
            k <= j <= hand@.len(),
            n == ungotten_from(hand@, gotten@, j as int),
            n <= hand@.len() - j,
        decreases j - k,
    {
        j = j - 1;
        assert(n + 1 <= hand.len());
        if !gotten.contains(&hand[j].id) {
            n = n + 1;
        }
    }
    n
}

/// How far a 5 Stall clue's touched 5 sits from chop: the fewest ungotten
/// cards newer than any visible 5 the clue touches in the target's hand,
/// or `usize::MAX` when the action is no clue or touches no visible 5.
pub fn five_stall_distance_from_chop(hands: &Vec<Vec<VisibleCard>>, candidate: &CompiledClueAction, gotten: &CardSet) -> (d:
    usize)
    ensures
        d == match candidate.action {
            Action::Clue { target, clue } => if (target.seat as int) < hands@.len() {
                five_distance_from(hands@[target.seat as int]@, clue, gotten@, 0)
            } else {
                usize::MAX as int
            },
            _ => usize::MAX as int,
        },
{
    let (target, clue) = match candidate.action {
        Action::Clue { target, clue } => (target, clue),
        _ => {
            return usize::MAX;
        },
    };
    if target.index() >= hands.len() {
        return usize::MAX;
    }
    let hand = &hands[target.index()];
    let mut best: usize = usize::MAX;
    let mut p: usize = hand.len();
    while p > 0
        invariant
            p <= hand@.len(),
            best == five_distance_from(hand@, clue, gotten@, p as int),
        decreases p,
    {
        p = p - 1;
        match hand[p].identity {
            Some(c) => {
                if clue.matches(c) && c.rank == Rank::Five {
                    let here = count_ungotten(hand, gotten, p + 1);
                    if here < best {
                        best = here;
                    }
                }
            },
            None => {},
        }
    }
    best
}

/// How far the touched 5 of a clue candidate sits from chop.
pub open spec fn stall_distance(hands: Seq<Vec<VisibleCard>>, gotten: Set<CardId>, c: CompiledClueAction) -> int {
    match c.action {
        Action::Clue { target, clue } => if (target.seat as int) < hands.len() {
            five_distance_from(hands[target.seat as int]@, clue, gotten, 0)
        } else {
            usize::MAX as int
        },
        _ => usize::MAX as int,
    }
}

/// A 5 Stall not given to the player with Permission to Discard.
pub open spec fn eligible_stall(c: CompiledClueAction, permission_to_discard: Option<PlayerId>) -> bool {
    c.semantics.move_kind == Some(HGroupMoveKind::FiveStall) && c.action is Clue && Some(c.action->target)
        != permission_to_discard
}

/// The smallest distance from chop among the eligible 5 Stalls of the first
/// `n` candidates.
pub open spec fn closest_stall_upto(
    hands: Seq<Vec<VisibleCard>>,
    gotten: Set<CardId>,
    clues: Seq<CompiledClueAction>,
    permission_to_discard: Option<PlayerId>,
    n: int,
) -> Option<int>
    decreases n,
{
    if n <= 0 || n > clues.len() {
        None
    } else {
        let before = closest_stall_upto(hands, gotten, clues, permission_to_discard, n - 1);
        let c = clues[n - 1];
        if eligible_stall(c, permission_to_discard) {
            let d = stall_distance(hands, gotten, c);
            match before {
                Some(b) => Some(if d < b {
                    d
                } else {
                    b
                }),
                None => Some(d),
            }
        } else {
            before
        }
    }
}

/// The position facts that make the first 5 Stall due: it is the early
/// game with the basic moves in force, no 5 Stall has been given yet, and
/// the actor has no promised play and no known safe discard.
#[derive(Clone, Copy, Debug, PartialEq, Eq, Structural)]
pub struct FiveStallDuty {
    pub early_game: bool,
    pub basic_moves_enabled: bool,
    pub five_stall_given: bool,
    pub has_promised_play: bool,
    pub has_known_safe_discard: bool,
}

/// Some candidate is a Play clue or a Save.
pub open spec fn has_play_or_save(clues: Seq<CompiledClueAction>) -> bool {
    exists|k: int|
        0 <= k < clues.len() && ((#[trigger] clues[k]).semantics.purpose == crate::h_group::candidate::CluePurpose::Play
            || clues[k].semantics.purpose == crate::h_group::candidate::CluePurpose::Save)
}

/// The first 5 Stall is due when the duty holds and no ordinary Play or Save
/// clue is available.
pub open spec fn stall_due(duty: FiveStallDuty, clues: Seq<CompiledClueAction>) -> bool {
    &&& duty.early_game
    &&& duty.basic_moves_enabled
    &&& !duty.five_stall_given
    &&& !duty.has_promised_play
    &&& !duty.has_known_safe_discard
    &&& !has_play_or_save(clues)
}

/// The candidates still allowed when the first 5 Stall is due: a Trash
/// Chop Move, or an eligible 5 Stall closest to chop.
pub open spec fn stall_allowed(
    hands: Seq<Vec<VisibleCard>>,
    gotten: Set<CardId>,
    permission_to_discard: Option<PlayerId>,
    closest: int,
    c: CompiledClueAction,
) -> bool {
    c.semantics.move_kind == Some(HGroupMoveKind::TrashChopMove) || (eligible_stall(c, permission_to_discard)
        && stall_distance(hands, gotten, c) == closest)
}

/// The actions of the allowed candidates among the first `n`, in order.
pub open spec fn stall_actions_upto(
    hands: Seq<Vec<VisibleCard>>,
    gotten: Set<CardId>,
    clues: Seq<CompiledClueAction>,
    permission_to_discard: Option<PlayerId>,
    closest: int,
    n: int,
) -> Seq<Action>
    decreases n,
{
    if n <= 0 || n > clues.len() {
        Seq::empty()
    } else {
        let before = stall_actions_upto(hands, gotten, clues, permission_to_discard, closest, n - 1);
        if stall_allowed(hands, gotten, permission_to_discard, closest, clues[n - 1]) {
            before.push(clues[n - 1].action)
        } else {
            before
        }
    }
}

/// When the first 5 Stall is due and some eligible 5 Stall exists, only a
/// Trash Chop Move or the 5 Stalls closest to chop remain; otherwise `None`.
/// <https://hanabi.github.io/level-9/#5-stalls-closest-to-chop>
pub fn required_first_five_stall_actions(
    duty: FiveStallDuty,
    hands: &Vec<Vec<VisibleCard>>,
    clues: &Vec<CompiledClueAction>,
    gotten: &CardSet,
    permission_to_discard: Option<PlayerId>,
) -> (r: Option<Vec<Action>>)
    ensures
        r is Some <==> stall_due(duty, clues@) && closest_stall_upto(
            hands@,
            gotten@,
            clues@,
            permission_to_discard,
            clues@.len() as int,
        ) is Some,
        r matches Some(v) ==> v@ == stall_actions_upto(
            hands@,
            gotten@,
            clues@,
            permission_to_discard,
            closest_stall_upto(hands@, gotten@, clues@, permission_to_discard, clues@.len() as int)->0,
            clues@.len() as int,
        ),
{
    let mut play_or_save = false;
    let mut k: usize = 0;
    while k < clues.len()
        invariant
            k <= clues@.len(),
            play_or_save == exists|m: int|
                0 <= m < k && ((#[trigger] clues@[m]).semantics.purpose == crate::h_group::candidate::CluePurpose::Play
                    || clues@[m].semantics.purpose == crate::h_group::candidate::CluePurpose::Save),
        decreases clues@.len() - k,
    {
        if clues[k].purpose() == crate::h_group::candidate::CluePurpose::Play || clues[k].is_save() {
            play_or_save = true;
        }
        k = k + 1;
    }
    let due = duty.early_game && duty.basic_moves_enabled && !duty.five_stall_given && !duty.has_promised_play
        && !duty.has_known_safe_discard && !play_or_save;
    if !due {
        return None;
    }
    let mut closest: Option<usize> = None;
    let mut i: usize = 0;
    while i < clues.len()
        invariant
            i <= clues@.len(),
            match closest {
                Some(c) => closest_stall_upto(hands@, gotten@, clues@, permission_to_discard, i as int) == Some(
                    c as int,
                ),
                None => closest_stall_upto(hands@, gotten@, clues@, permission_to_discard, i as int) is None,
            },
        decreases clues@.len() - i,
    {
        let c = &clues[i];
        if candidate_is_five_stall(c) && matches!(c.action, Action::Clue { .. }) && Some(c.target())
            != permission_to_discard {
            let d = five_stall_distance_from_chop(hands, c, gotten);
            closest = match closest {
                Some(b) => Some(
                    if d < b {
                        d
                    } else {
                        b
                    },
                ),
                None => Some(d),
            };
        }
        i = i + 1;
    }
    let closest = match closest {
        Some(c) => c,
        None => {
            return None;
        },
    };
    let mut actions: Vec<Action> = Vec::new();
    let mut j: usize = 0;
    while j < clues.len()
        invariant
            j <= clues@.len(),
            closest_stall_upto(hands@, gotten@, clues@, permission_to_discard, clues@.len() as int) == Some(
                closest as int,
            ),
            actions@ == stall_actions_upto(hands@, gotten@, clues@, permission_to_discard, closest as int, j as int),
        decreases clues@.len() - j,
    {
        let c = &clues[j];
        let allowed = c.move_kind() == Some(HGroupMoveKind::TrashChopMove) || (candidate_is_five_stall(c)
            && matches!(c.action, Action::Clue { .. }) && Some(c.target()) != permission_to_discard
            && five_stall_distance_from_chop(hands, c, gotten) == closest);
        if allowed {
            actions.push(c.action);
        }
        j = j + 1;
    }
    Some(actions)
}

/// An active live step of `player` expects an identity playable now.
pub open spec fn bound_to_play(claims: ClaimsView, active: Seq<bool>, heights: Seq<u8>, player: PlayerId) -> bool {
    exists|k: int|
        0 <= k < claims.pending.active.len() && active[k] && (#[trigger] claims.pending.active[k]).actor == player
            && playable_at(heights, claims.pending.active[k].expected)
}

/// `target` is already bound to play: an active step of theirs expects a
/// playable identity, or a card of theirs already playing is visibly
/// playable.
pub open spec fn spec_target_occupied(claims: ClaimsView, active: Seq<bool>, heights: Seq<u8>, target: PlayerId) -> bool {
    ||| bound_to_play(claims, active, heights, target)
    ||| (target.seat as int) < claims.replay_hands.len() && exists|k: int|
        0 <= k < claims.replay_hands[target.seat as int]@.len() && {
            let card = #[trigger] claims.replay_hands[target.seat as int]@[k];
            &&& claims.already_playing.contains(card)
            &&& seen_identity(claims.hands, card) matches Some(c) && playable_at(heights, c)
        }
}

fn bound_to_play_exec(claims: &IdentityClaims, active: &Vec<bool>, heights: [u8; 5], player: PlayerId) -> (b: bool)
    requires
        active@.len() == claims@.pending.active.len(),
    ensures
        b == bound_to_play(claims@, active@, heights@, player),
{
    let steps = claims.pending.active();
    let mut k: usize = 0;
    while k < steps.len()
        invariant
            active@.len() == claims@.pending.active.len(),
            steps@.len() == claims@.pending.active.len(),
            forall|m: int| 0 <= m < steps@.len() ==> #[trigger] claims@.pending.active[m] == steps@[m]@,
            k <= steps@.len(),
            forall|m: int|
                0 <= m < k ==> !(active@[m] && (#[trigger] claims@.pending.active[m]).actor == player && playable_at(
                    heights@,
                    claims@.pending.active[m].expected,
                )),
        decreases steps@.len() - k,
    {
        let o = &steps[k];
        assert(claims@.pending.active[k as int] == o@);
        if active[k] && o.actor == player && heights[o.expected.suit.index()] as u16 + 1 == o.expected.rank.number() as u16 {
            return true;
        }
        k = k + 1;
    }
    false
}

/// Whether `target` is already bound to play: an active connection step of
/// theirs expects a playable identity, or one of their cards already
/// playing is visibly playable. `active` says which live steps are active.
pub fn target_is_occupied(claims: &IdentityClaims, active: &Vec<bool>, stack_heights: [u8; 5], target: PlayerId) -> (b: bool)
    requires
        active@.len() == claims@.pending.active.len(),
    ensures
        b == spec_target_occupied(claims@, active@, stack_heights@, target),
{
    if bound_to_play_exec(claims, active, stack_heights, target) {
        return true;
    }
    if target.index() >= claims.replay_hands.len() {
        return false;
    }
    let hand = &claims.replay_hands[target.index()];
    let mut k: usize = 0;
    while k < hand.len()
        invariant
            target.seat < claims@.replay_hands.len(),
            hand@ == claims@.replay_hands[target.seat as int]@,
            !bound_to_play(claims@, active@, stack_heights@, target),
            k <= hand@.len(),
            forall|m: int|
                0 <= m < k ==> !({
                    let card = #[trigger] claims@.replay_hands[target.seat as int]@[m];
                    &&& claims@.already_playing.contains(card)
                    &&& seen_identity(claims@.hands, card) matches Some(c) && playable_at(stack_heights@, c)
                }),
        decreases hand@.len() - k,
    {
        let card = hand[k];
        assert(claims@.replay_hands[target.seat as int]@[k as int] == card);
        if claims.already_playing.contains(&card) {
            match identity_of(&claims.hands, card) {
                Some(c) => {
                    if stack_heights[c.suit.index()] as u16 + 1 == c.rank.number() as u16 {
                        return true;
                    }
                },
                None => {},
            }
        }
        k = k + 1;
    }
    false
}

/// The player `distance` seats after `current` at a table of `players`.
pub open spec fn seat_after(current: PlayerId, distance: int, players: int) -> PlayerId {
    PlayerId { seat: ((current.seat + distance) % players) as u8 }
}

/// A Fix, or an urgent Save whose target is free and every player acting
/// before the target is already bound to play, excludes every other action
/// from planning. A strong Play clue may only be considered alongside.
pub open spec fn spec_hard_clue_obligation(
    claims: ClaimsView,
    active: Seq<bool>,
    heights: Seq<u8>,
    current: PlayerId,
    c: CompiledClueAction,
) -> bool {
    let players = claims.hands.len() as int;
    let target = c.action->target;
    if c.semantics.purpose == crate::h_group::candidate::CluePurpose::Fix {
        true
    } else if spec_target_occupied(claims, active, heights, target) {
        false
    } else {
        &&& c.semantics.schedule.urgent_save && c.value.spec_semantic_strength() >= 400
        &&& forall|d: int|
            1 <= d < (target.seat + players - current.seat) % players ==> #[trigger] bound_to_play(
                claims,
                active,
                heights,
                seat_after(current, d, players),
            )
    }
}

/// Hard clue obligations are distinct from clues merely permitted to
/// preempt a play: only a Fix, or an at-risk urgent Save whose target is
/// not already bound to play while everyone before them is, excludes every
/// other action. A player bound to play cannot discard their chop.
/// <https://hanabi.github.io/level-1/#save-principle>
pub fn hard_clue_obligation(
    claims: &IdentityClaims,
    active: &Vec<bool>,
    stack_heights: [u8; 5],
    current_player: PlayerId,
    candidate: &CompiledClueAction,
) -> (b: bool)
    requires
        candidate.action is Clue,
        active@.len() == claims@.pending.active.len(),
        0 < claims@.hands.len() <= 256,
        current_player.seat < claims@.hands.len(),
        candidate.action->target.seat < claims@.hands.len(),
    ensures
        b == spec_hard_clue_obligation(claims@, active@, stack_heights@, current_player, *candidate),
{
    if candidate.purpose() == crate::h_group::candidate::CluePurpose::Fix {
        return true;
    }
    let target = candidate.target();
    if target_is_occupied(claims, active, stack_heights, target) {
        return false;
    }
    let players = claims.hands.len();
    let distance = (target.index() + players - current_player.index()) % players;
    let mut d: usize = 1;
    while d < distance
        invariant
            candidate.action is Clue,
            target == candidate.action->target,
            candidate.semantics.purpose != crate::h_group::candidate::CluePurpose::Fix,
            !spec_target_occupied(claims@, active@, stack_heights@, target),
            distance == (target.seat + players - current_player.seat) % (players as int),
            active@.len() == claims@.pending.active.len(),
            players == claims@.hands.len(),
            0 < players <= 256,
            current_player.seat < players,
            distance < players,
            1 <= d,
            forall|e: int| 1 <= e < d ==> #[trigger] bound_to_play(
                claims@,
                active@,
                stack_heights@,
                seat_after(current_player, e, players as int),
            ),
        decreases distance - d,
    {
        let player = PlayerId::new(((current_player.index() + d) % players) as u8);
        if !bound_to_play_exec(claims, active, stack_heights, player) {
            assert(!bound_to_play(claims@, active@, stack_heights@, seat_after(current_player, d as int, players as int)));
            return false;
        }
        d = d + 1;
    }
    candidate.is_urgent_save()
}

} // verus!
