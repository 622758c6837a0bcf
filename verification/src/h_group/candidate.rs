//! Admitted clues with their compiled meaning and value.

use vstd::prelude::*;

use crate::cards::{Action, PlayerId};
use crate::h_group::HGroupMoveKind;

verus! {

/// The primary convention role of an admitted clue.
#[derive(Clone, Copy, Debug, PartialEq, Eq, Structural, Hash)]
pub enum CluePurpose {
    Fix,
    Play,
    Save,
    Advanced,
    Tempo,
}

/// Evidence supporting prospective admission. Some clues have meaning that
/// legitimately branches on the giver's hidden hand once the recipient sees
/// it; those retain their focused construction proof instead of pretending a
/// single unresolved projection can assign one universal label.
#[derive(Clone, Copy, Debug, PartialEq, Eq, Structural, Hash)]
pub enum ClueRecognition {
    /// The semantic generator proved the clue, but nested recipient replay
    /// could not assign one universal interpretation across hidden worlds.
    GeneratorProof,
    /// The recipient's canonical replay independently reconstructed it.
    RecipientReplay,
}

/// Scheduling consequences of a clue, kept together.
#[derive(Clone, Copy, Debug, PartialEq, Eq, Structural)]
pub struct ClueSchedule {
    pub urgent_save: bool,
    pub immediate_play: bool,
    pub preserves_visible_continuation: bool,
}

impl ClueSchedule {
    pub fn new(urgent_save: bool, immediate_play: bool) -> (s: Self)
        ensures
            s == (ClueSchedule { urgent_save, immediate_play, preserves_visible_continuation: false }),
    {
        ClueSchedule { urgent_save, immediate_play, preserves_visible_continuation: false }
    }
}

impl Default for ClueSchedule {
    fn default() -> (s: Self)
        ensures
            s == (ClueSchedule { urgent_save: false, immediate_play: false, preserves_visible_continuation: false }),
    {
        ClueSchedule::new(false, false)
    }
}

/// Named components of clue utility. Keeping adjustments in separate fields
/// prevents an information or clarity rule from silently overwriting an
/// unrelated teamwork adjustment.
#[derive(Clone, Copy, Debug, PartialEq, Eq, Structural)]
pub struct ClueValue {
    pub base: u16,
    pub information: u16,
    pub teamwork_bonus: u16,
    pub teamwork_penalty: u16,
    pub delay_penalty: u16,
    pub complexity_penalty: u16,
}

impl ClueValue {
    /// The strength before penalties: base, information and teamwork bonus,
    /// each addition saturating.
    pub open spec fn spec_semantic_strength(self) -> u16 {
        self.base.saturating_add(self.information).saturating_add(self.teamwork_bonus)
    }

    /// The strength less the penalties, each subtraction saturating at 0.
    pub open spec fn spec_total(self) -> u16 {
        self.spec_semantic_strength().saturating_sub(self.teamwork_penalty).saturating_sub(
            self.delay_penalty,
        ).saturating_sub(self.complexity_penalty)
    }

    /// A value with `base` and no adjustment.
    pub fn new(base: u16) -> (v: Self)
        ensures
            v == (ClueValue {
                base,
                information: 0,
                teamwork_bonus: 0,
                teamwork_penalty: 0,
                delay_penalty: 0,
                complexity_penalty: 0,
            }),
    {
        ClueValue {
            base,
            information: 0,
            teamwork_bonus: 0,
            teamwork_penalty: 0,
            delay_penalty: 0,
            complexity_penalty: 0,
        }
    }

    pub fn total(self) -> (t: u16)
        ensures
            t == self.spec_total(),
    {
        self.base.saturating_add(self.information).saturating_add(self.teamwork_bonus).saturating_sub(
            self.teamwork_penalty,
        ).saturating_sub(self.delay_penalty).saturating_sub(self.complexity_penalty)
    }

    pub fn semantic_strength(self) -> (s: u16)
        ensures
            s == self.spec_semantic_strength(),
    {
        self.base.saturating_add(self.information).saturating_add(self.teamwork_bonus)
    }

    pub fn add_information(&mut self, value: u16)
        ensures
            *final(self) == (ClueValue { information: old(self).information.saturating_add(value), ..*old(self) }),
    {
        self.information = self.information.saturating_add(value);
    }

    pub fn set_base(&mut self, value: u16)
        ensures
            *final(self) == (ClueValue { base: value, ..*old(self) }),
    {
        self.base = value;
    }

    pub fn penalize_teamwork(&mut self, value: u16)
        ensures
            *final(self) == (ClueValue { teamwork_penalty: old(self).teamwork_penalty.saturating_add(value), ..*old(self) }),
    {
        self.teamwork_penalty = self.teamwork_penalty.saturating_add(value);
    }

    pub fn reward_teamwork(&mut self, value: u16)
        ensures
            *final(self) == (ClueValue { teamwork_bonus: old(self).teamwork_bonus.saturating_add(value), ..*old(self) }),
    {
        self.teamwork_bonus = self.teamwork_bonus.saturating_add(value);
    }

    pub fn penalize_delay(&mut self, value: u16)
        ensures
            *final(self) == (ClueValue { delay_penalty: old(self).delay_penalty.saturating_add(value), ..*old(self) }),
    {
        self.delay_penalty = self.delay_penalty.saturating_add(value);
    }

    pub fn penalize_complexity(&mut self, value: u16)
        ensures
            *final(self) == (ClueValue { complexity_penalty: old(self).complexity_penalty.saturating_add(value), ..*old(self) }),
    {
        self.complexity_penalty = self.complexity_penalty.saturating_add(value);
    }
}

impl Default for ClueValue {
    fn default() -> (v: Self)
        ensures
            v == (ClueValue {
                base: 0,
                information: 0,
                teamwork_bonus: 0,
                teamwork_penalty: 0,
                delay_penalty: 0,
                complexity_penalty: 0,
            }),
    {
        ClueValue::new(0)
    }
}

/// Penalties only lower a clue's value: the total never exceeds the
/// semantic strength.
pub proof fn lemma_total_at_most_strength(v: ClueValue)
    ensures
        v.spec_total() <= v.spec_semantic_strength(),
{
}

/// Adding information or a teamwork bonus never lowers the semantic
/// strength, and adding a penalty never raises the total.
pub proof fn lemma_adjustments_are_monotone(v: ClueValue, x: u16)
    ensures
        (ClueValue { information: v.information.saturating_add(x), ..v }).spec_semantic_strength()
            >= v.spec_semantic_strength(),
        (ClueValue { teamwork_bonus: v.teamwork_bonus.saturating_add(x), ..v }).spec_semantic_strength()
            >= v.spec_semantic_strength(),
        (ClueValue { teamwork_penalty: v.teamwork_penalty.saturating_add(x), ..v }).spec_total()
            <= v.spec_total(),
        (ClueValue { delay_penalty: v.delay_penalty.saturating_add(x), ..v }).spec_total() <= v.spec_total(),
        (ClueValue { complexity_penalty: v.complexity_penalty.saturating_add(x), ..v }).spec_total()
            <= v.spec_total(),
{
}

/// Shape of the deterministic line established by a clue, compiled once from
/// the recipient-relative projection.
#[derive(Clone, Copy, Debug, PartialEq, Eq, Structural)]
pub struct CompiledClueLine {
    pub connection_steps: u8,
    pub action_coverage: u8,
    pub convention_action_count: Option<u8>,
    pub convention_connection_steps: Option<u8>,
}

/// Canonical semantic meaning attached to one admitted clue.
#[derive(Clone, Copy, Debug, PartialEq, Eq, Structural)]
pub struct CompiledClueSemantics {
    pub move_kind: Option<HGroupMoveKind>,
    pub purpose: CluePurpose,
    pub schedule: ClueSchedule,
    pub line: CompiledClueLine,
}

/// Convention-valid clue plus the one compiled semantic result consumed by
/// recipient validation, policy, strategy, and planning.
#[derive(Clone, Copy, Debug, PartialEq, Eq, Structural)]
pub struct CompiledClueAction {
    pub action: Action,
    pub semantics: CompiledClueSemantics,
    pub value: ClueValue,
    pub recognition: ClueRecognition,
}

/// A count clamped into a byte.
pub open spec fn byte_count(n: int) -> u8 {
    if n <= 255 {
        n as u8
    } else {
        255
    }
}

fn narrow_count(n: usize) -> (b: u8)
    ensures
        b == byte_count(n as int),
{
    if n <= 255 {
        n as u8
    } else {
        255
    }
}

impl CompiledClueAction {
    /// An admitted clue, proved by its generator, with an uncompiled line.
    pub fn new(
        action: Action,
        move_kind: Option<HGroupMoveKind>,
        value: ClueValue,
        purpose: CluePurpose,
        schedule: ClueSchedule,
        connection_steps: u8,
    ) -> (c: Self)
        requires
            action is Clue,
        ensures
            c == (CompiledClueAction {
                action,
                semantics: CompiledClueSemantics {
                    move_kind,
                    purpose,
                    schedule,
                    line: CompiledClueLine {
                        connection_steps,
                        action_coverage: 0,
                        convention_action_count: None,
                        convention_connection_steps: None,
                    },
                },
                value,
                recognition: ClueRecognition::GeneratorProof,
            }),
    {
        CompiledClueAction {
            action,
            semantics: CompiledClueSemantics {
                move_kind,
                purpose,
                schedule,
                line: CompiledClueLine {
                    connection_steps,
                    action_coverage: 0,
                    convention_action_count: None,
                    convention_connection_steps: None,
                },
            },
            value,
            recognition: ClueRecognition::GeneratorProof,
        }
    }

    pub fn score(self) -> (s: u16)
        ensures
            s == self.value.spec_total(),
    {
        self.value.total()
    }

    /// Internal consistency check for the compiled semantic boundary: the
    /// action is a clue, and a Fix or Tempo purpose carries the matching
    /// move.
    pub fn validate(&self) -> (r: Result<(), &'static str>)
        ensures
            !(self.action is Clue) ==> r == Err::<(), &'static str>("compiled clue action contains a non-clue action"),
            self.action is Clue && self.semantics.purpose == CluePurpose::Fix && self.semantics.move_kind != Some(
                HGroupMoveKind::FixClue,
            ) ==> r == Err::<(), &'static str>("Fix purpose lacks FixClue semantics"),
            self.action is Clue && self.semantics.purpose == CluePurpose::Tempo && self.semantics.move_kind
                != Some(HGroupMoveKind::TempoClue) ==> r == Err::<(), &'static str>(
                "Tempo purpose lacks TempoClue semantics",
            ),
            r is Ok <==> self.action is Clue && (self.semantics.purpose == CluePurpose::Fix
                ==> self.semantics.move_kind == Some(HGroupMoveKind::FixClue)) && (self.semantics.purpose
                == CluePurpose::Tempo ==> self.semantics.move_kind == Some(HGroupMoveKind::TempoClue)),
    {
        if !matches!(self.action, Action::Clue { .. }) {
            return Err("compiled clue action contains a non-clue action");
        }
        match self.semantics.purpose {
            CluePurpose::Fix => if self.semantics.move_kind != Some(HGroupMoveKind::FixClue) {
                Err("Fix purpose lacks FixClue semantics")
            } else {
                Ok(())
            },
            CluePurpose::Tempo => if self.semantics.move_kind != Some(HGroupMoveKind::TempoClue) {
                Err("Tempo purpose lacks TempoClue semantics")
            } else {
                Ok(())
            },
            _ => Ok(()),
        }
    }

    pub fn move_kind(self) -> (k: Option<HGroupMoveKind>)
        ensures
            k == self.semantics.move_kind,
    {
        self.semantics.move_kind
    }

    pub fn purpose(self) -> (p: CluePurpose)
        ensures
            p == self.semantics.purpose,
    {
        self.semantics.purpose
    }

    /// The player the clue is given to.
    pub fn target(self) -> (p: PlayerId)
        requires
            self.action is Clue,
        ensures
            p == self.action->target,
    {
        match self.action {
            Action::Clue { target, .. } => target,
            Action::Play(_) => PlayerId { seat: 0 },
            Action::Discard(_) => PlayerId { seat: 0 },
        }
    }

    pub fn is_save(self) -> (b: bool)
        ensures
            b == (self.semantics.purpose == CluePurpose::Save),
    {
        matches!(self.semantics.purpose, CluePurpose::Save)
    }

    pub fn connection_steps(self) -> (n: u8)
        ensures
            n == self.semantics.line.connection_steps,
    {
        self.semantics.line.connection_steps
    }

    pub fn action_coverage(self) -> (n: u8)
        ensures
            n == self.semantics.line.action_coverage,
    {
        self.semantics.line.action_coverage
    }

    pub fn convention_action_count(self) -> (n: Option<u8>)
        ensures
            n == self.semantics.line.convention_action_count,
    {
        self.semantics.line.convention_action_count
    }

    pub fn convention_connection_steps(self) -> (n: Option<u8>)
        ensures
            n == self.semantics.line.convention_connection_steps,
    {
        self.semantics.line.convention_connection_steps
    }

    /// Stores the compiled line outcome, each count saturating at 255.
    pub fn set_compiled_line(
        &mut self,
        action_coverage: usize,
        convention_action_count: Option<usize>,
        convention_connection_steps: Option<usize>,
    )
        ensures
            final(self).action == old(self).action,
            final(self).value == old(self).value,
            final(self).recognition == old(self).recognition,
            final(self).semantics.move_kind == old(self).semantics.move_kind,
            final(self).semantics.purpose == old(self).semantics.purpose,
            final(self).semantics.schedule == old(self).semantics.schedule,
            final(self).semantics.line.connection_steps == old(self).semantics.line.connection_steps,
            final(self).semantics.line.action_coverage == byte_count(action_coverage as int),
            final(self).semantics.line.convention_action_count == match convention_action_count {
                Some(n) => Some(byte_count(n as int)),
                None => None,
            },
            final(self).semantics.line.convention_connection_steps == match convention_connection_steps {
                Some(n) => Some(byte_count(n as int)),
                None => None,
            },
    {
        self.semantics.line.action_coverage = narrow_count(action_coverage);
        self.semantics.line.convention_action_count = match convention_action_count {
            Some(n) => Some(narrow_count(n)),
            None => None,
        };
        self.semantics.line.convention_connection_steps = match convention_connection_steps {
            Some(n) => Some(narrow_count(n)),
            None => None,
        };
    }

    pub fn recognition(self) -> (r: ClueRecognition)
        ensures
            r == self.recognition,
    {
        self.recognition
    }

    /// A save important enough to preempt a convention-promised play.
    /// Comparative teamwork and delay penalties order otherwise-valid clues;
    /// they do not erase the semantic urgency of a critical Save.
    pub fn is_urgent_save(self) -> (b: bool)
        ensures
            b == (self.semantics.schedule.urgent_save && self.value.spec_semantic_strength() >= 400),
    {
        self.semantics.schedule.urgent_save && self.value.semantic_strength() >= 400
    }

    /// A non-immediate setup clue that may interrupt a demonstrated layer.
    /// Comparative penalties do not retroactively make a semantically strong
    /// setup clue illegal while a demonstrated connection is parked.
    pub fn can_defer_demonstrated_layer(self) -> (b: bool)
        ensures
            b == (self.semantics.purpose != CluePurpose::Save && !self.semantics.schedule.immediate_play
                && self.value.spec_semantic_strength() >= 365),
    {
        !self.is_save() && !self.semantics.schedule.immediate_play && self.value.semantic_strength() >= 365
    }

    /// A long connection line may park an ordinary play while it advances at
    /// least two blind-play steps.
    pub fn can_preempt_ordinary_play(self) -> (b: bool)
        ensures
            b == ((self.semantics.purpose == CluePurpose::Play && self.semantics.line.connection_steps >= 2
                && self.semantics.line.action_coverage >= 2) || self.semantics.schedule.preserves_visible_continuation),
    {
        (self.purpose() == CluePurpose::Play && self.connection_steps() >= 2 && self.action_coverage() >= 2)
            || self.semantics.schedule.preserves_visible_continuation
    }

    /// A time-sensitive clue to the next player that may preempt occupancy.
    pub fn is_urgent_for_next_player(self) -> (b: bool)
        ensures
            b == (self.value.spec_total() >= 450 && (self.semantics.schedule.urgent_save
                || self.semantics.schedule.immediate_play)),
    {
        self.score() >= 450 && (self.semantics.schedule.urgent_save || self.semantics.schedule.immediate_play)
    }

    pub fn set_recognition(&mut self, recognition: ClueRecognition)
        ensures
            *final(self) == (CompiledClueAction { recognition, ..*old(self) }),
    {
        self.recognition = recognition;
    }

    pub fn immediate_play(self) -> (b: bool)
        ensures
            b == self.semantics.schedule.immediate_play,
    {
        self.semantics.schedule.immediate_play
    }

    pub fn preserves_visible_continuation(self) -> (b: bool)
        ensures
            b == self.semantics.schedule.preserves_visible_continuation,
    {
        self.semantics.schedule.preserves_visible_continuation
    }

    pub fn set_preserves_visible_continuation(&mut self, preserves: bool)
        ensures
            final(self).semantics.schedule.preserves_visible_continuation == preserves,
            final(self).semantics.schedule.urgent_save == old(self).semantics.schedule.urgent_save,
            final(self).semantics.schedule.immediate_play == old(self).semantics.schedule.immediate_play,
            final(self).semantics.line == old(self).semantics.line,
            final(self).semantics.move_kind == old(self).semantics.move_kind,
            final(self).semantics.purpose == old(self).semantics.purpose,
            final(self).action == old(self).action,
            final(self).value == old(self).value,
            final(self).recognition == old(self).recognition,
    {
        self.semantics.schedule.preserves_visible_continuation = preserves;
    }
}

/// An urgent save is never outranked by the penalties that order it: once
/// its semantic strength reaches the save threshold, later penalties leave
/// it urgent.
pub proof fn lemma_penalties_keep_urgent_save(c: CompiledClueAction, x: u16)
    requires
        c.semantics.schedule.urgent_save,
        c.value.spec_semantic_strength() >= 400,
    ensures
        (ClueValue { teamwork_penalty: c.value.teamwork_penalty.saturating_add(x), ..c.value }).spec_semantic_strength()
            >= 400,
        (ClueValue { delay_penalty: c.value.delay_penalty.saturating_add(x), ..c.value }).spec_semantic_strength()
            >= 400,
        (ClueValue { complexity_penalty: c.value.complexity_penalty.saturating_add(x), ..c.value }).spec_semantic_strength()
            >= 400,
{
}

} // verus!
