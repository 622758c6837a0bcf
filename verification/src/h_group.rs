//! The cumulative H-Group convention interpreter: the vocabulary of
//! recognised moves, the explanation signals they leave, and the rules that
//! read them.

pub mod hand;
pub mod distribution;
pub mod completion;
pub mod action_preference;
pub mod frontier_value;
pub mod bluff;
pub mod constraints;
pub mod constraint_graph;
pub mod facts;
pub mod effects;
pub mod connection;
pub mod candidate;
pub mod action_analysis;
pub mod decision;
pub mod coverage;
pub mod action_schedule;
pub mod admission;
pub mod queue;
pub mod claims;
pub mod priority;
pub mod compiled_line;
pub mod epistemic;
pub mod chop_safety;
pub mod ordering;
pub mod root_opportunities;
pub mod selection;
pub mod draw_distribution;

use vstd::prelude::*;

use crate::cards::{Card, CardId, IdentitySet, PlayerId};
use crate::convention::{HGroupLevel, HGroupProfile};

verus! {

/// Semantic families used by the cumulative H-Group interpreter.
///
/// The documentation gives many combinations their own names. The engine
/// represents combinations as a sequence of these primitive effects instead
/// of duplicating state-transition code for every name. For example, a Trash
/// Push Finesse is represented by `TrashPush` followed by `Finesse`.
#[derive(Clone, Copy, Debug, PartialEq, Eq, Structural, Hash)]
#[non_exhaustive]
pub enum HGroupMoveKind {
    /// [Play Clues](https://hanabi.github.io/beginner/play-clues/)
    PlayClue,
    /// [Save Clues](https://hanabi.github.io/beginner/save-clues/)
    SaveClue,
    /// [5 Stall](https://hanabi.github.io/level-2/#the-5-stall-cluing-off-chop-5s)
    FiveStall,
    /// [Prompt](https://hanabi.github.io/level-1/#the-prompt)
    Prompt,
    /// [Finesse](https://hanabi.github.io/level-1/#the-finesse)
    Finesse,
    /// [Reverse Finesse](https://hanabi.github.io/level-2/#the-reverse-finesse)
    ReverseFinesse,
    /// [Self-Finesse](https://hanabi.github.io/level-2/#the-self-finesse)
    SelfFinesse,
    /// [Layered Finesse](https://hanabi.github.io/level-5/#the-layered-finesse)
    LayeredFinesse,
    /// [Hidden Finesse](https://hanabi.github.io/level-5/#the-hidden-finesse)
    HiddenFinesse,
    /// [Clandestine Finesse](https://hanabi.github.io/level-5/#the-clandestine-finesse)
    ClandestineFinesse,
    /// [Queued Finesse](https://hanabi.github.io/level-5/#the-queued-finesse)
    QueuedFinesse,
    /// [Ambiguous Finesse](https://hanabi.github.io/level-5/#the-ambiguous-finesse)
    AmbiguousFinesse,
    /// [Fix Clue](https://hanabi.github.io/level-3/#the-fix-clue)
    FixClue,
    /// [Sarcastic Discard](https://hanabi.github.io/level-3/#the-sarcastic-discard-sd)
    SarcasticDiscard,
    /// [Chop Moves](https://hanabi.github.io/level-4/#chop-moves)
    ChopMove,
    /// [Order Chop Move](https://hanabi.github.io/level-4/#the-order-chop-move-ocm)
    OrderChopMove,
    /// [Trash Chop Move](https://hanabi.github.io/level-4/#the-trash-chop-move-tcm)
    TrashChopMove,
    /// [5's Chop Move](https://hanabi.github.io/level-4/#the-5s-chop-move-5cm)
    FiveChopMove,
    /// [Tempo Clue](https://hanabi.github.io/level-6/#the-tempo-clue)
    TempoClue,
    /// [Tempo Clue Chop Move](https://hanabi.github.io/level-6/#the-tempo-clue-chop-move-tccm)
    TempoClueChopMove,
    /// [Scream Discard Chop Move](https://hanabi.github.io/level-7/#the-scream-discard-chop-move-sdcm)
    ScreamDiscard,
    /// [Shout Discard Chop Move](https://hanabi.github.io/level-7/#the-shout-discard-chop-move)
    ShoutDiscard,
    /// [Generation Discard](https://hanabi.github.io/level-7/#the-generation-discard)
    GenerationDiscard,
    /// [Positional Discard](https://hanabi.github.io/level-8/#the-positional-discard-indicating-a-play-with-a-discard)
    PositionalDiscard,
    /// [Positional Misplay](https://hanabi.github.io/level-8/#the-positional-misplay-indicating-a-play-with-a-misplay)
    PositionalMisplay,
    /// [Double Positional Misplay](https://hanabi.github.io/level-8/#the-double-positional-misplay-indicating-two-plays-with-a-misplay)
    DoublePositionalMisplay,
    /// [Distribution Clue](https://hanabi.github.io/level-8/#the-distribution-clue)
    DistributionClue,
    /// [Stalling Situations](https://hanabi.github.io/level-9/#stalling-situations)
    Stall,
    /// [Early Game Stall](https://hanabi.github.io/level-9/#the-early-game-severity-1-stalling)
    EarlyGameStall,
    /// [Double Discard Avoidance](https://hanabi.github.io/level-9/#double-discard-situations--double-discard-avoidance-dda-severity-2-stalling)
    DoubleDiscardAvoidance,
    /// [Locked Hand Save](https://hanabi.github.io/level-9/#the-locked-hand-save-lhs)
    LockedHandSave,
    /// [Fill-In Clue](https://hanabi.github.io/level-9/#the-fill-in-clue)
    FillInClue,
    /// [Anxiety Play](https://hanabi.github.io/level-9/#the-anxiety-play-forcing-a-locked-player-to-play)
    AnxietyPlay,
    /// [8 Clue Save](https://hanabi.github.io/level-9/#the-8-clue-save-8cs)
    EightClueSave,
    /// [Burn](https://hanabi.github.io/level-8/#burning-end-game-stalling)
    Burn,
    /// [Gentleman's and Baton Discards](https://hanabi.github.io/level-10/#the-gentlemans-discard-gd)
    TransferDiscard,
    /// [Gentleman's Discard](https://hanabi.github.io/level-10/#the-gentlemans-discard-gd)
    GentlemansDiscard,
    /// [Layered Gentleman's Discard](https://hanabi.github.io/level-10/#the-layered-gentlemans-discard)
    LayeredGentlemansDiscard,
    /// [Baton Discard](https://hanabi.github.io/level-10/#the-baton-discard-bd)
    BatonDiscard,
    /// [Sarcastic Finesse](https://hanabi.github.io/level-10/#the-sarcastic-finesse)
    SarcasticFinesse,
    /// [Certain Finesse](https://hanabi.github.io/level-10/#the-certain-finesse--the-certain-discard)
    CertainFinesse,
    /// [Certain Discard](https://hanabi.github.io/level-10/#the-certain-finesse--the-certain-discard)
    CertainDiscard,
    /// [Composition Finesse](https://hanabi.github.io/level-10/#the-composition-finesse)
    CompositionFinesse,
    /// [Clarity Principle](https://hanabi.github.io/level-6/#clarity-principle-part-1)
    Clarity,
    /// [Bluff](https://hanabi.github.io/level-11/#the-bluff)
    Bluff,
    /// [Self-Bluff](https://hanabi.github.io/level-11/#the-self-bluff)
    SelfBluff,
    /// [3 Bluff](https://hanabi.github.io/level-13/#the-3-bluff)
    ThreeBluff,
    /// [Critical Color Bluff](https://hanabi.github.io/level-13/#the-critical-color-bluff-ccb)
    CriticalColorBluff,
    /// [Hard Bluff](https://hanabi.github.io/level-13/#the-hard-bluff)
    HardBluff,
    /// [Good Touch Bluff](https://hanabi.github.io/level-13/#the-good-touch-bluff)
    GoodTouchBluff,
    /// [Double Bluff](https://hanabi.github.io/level-15/#the-double-bluff)
    DoubleBluff,
    /// [Hard Double Bluff](https://hanabi.github.io/level-15/#the-hard-double-bluff)
    HardDoubleBluff,
    /// [Pestilent Double Bluff](https://hanabi.github.io/level-15/#the-pestilent-double-bluff-pdb)
    PestilentDoubleBluff,
    /// [Selfish Clue](https://hanabi.github.io/level-12/#the-selfish-clue)
    SelfishClue,
    /// [Selfish Finesse](https://hanabi.github.io/level-12/#the-selfish-finesse-a-finesse-through-your-own-hand)
    SelfishFinesse,
    /// [Stale 1's Clue](https://hanabi.github.io/level-12/#the-stale-1s-clue)
    StaleOnesClue,
    /// [Focus Inversion](https://hanabi.github.io/level-12/#focus-inversion)
    FocusInversion,
    /// [Context](https://hanabi.github.io/level-12/#context)
    Context,
    /// [Trash Push](https://hanabi.github.io/level-14/#the-trash-push)
    TrashPush,
    /// [Trash Push Prompt](https://hanabi.github.io/level-14/#the-trash-push-prompt--the-trash-push-finesse)
    TrashPushPrompt,
    /// [Trash Push Finesse](https://hanabi.github.io/level-14/#the-trash-push-prompt--the-trash-push-finesse)
    TrashPushFinesse,
    /// [Trash Finesse](https://hanabi.github.io/level-14/#the-trash-finesse)
    TrashFinesse,
    /// [Reverse Trash Finesse](https://hanabi.github.io/level-14/#the-reverse-trash-finesse)
    ReverseTrashFinesse,
    /// [Forced Gentleman's Discard Chop Move](https://hanabi.github.io/level-14/#the-forced-gentlemans-discard-chop-move)
    ForcedGentlemansDiscardChopMove,
    /// [Trash Bluff](https://hanabi.github.io/level-14/#the-trash-bluff)
    TrashBluff,
    /// [Trash Order Chop Move](https://hanabi.github.io/level-14/#the-trash-order-chop-move-tocm)
    TrashOrderChopMove,
    /// [Ejections](https://hanabi.github.io/level-16/#ejections)
    Ejection,
    /// [Discharges](https://hanabi.github.io/level-16/#discharges)
    Discharge,
    /// [5 Color Ejection](https://hanabi.github.io/level-16/#the-5-color-ejection-5ce)
    FiveColorEjection,
    /// [Unknown Trash Discharge](https://hanabi.github.io/level-16/#the-unknown-trash-discharge-1-for-1-form-utd)
    UnknownTrashDischarge,
    /// [Unknown Dupe Discharge](https://hanabi.github.io/level-16/#the-unknown-dupe-discharge-udd)
    UnknownDupeDischarge,
    /// [Dupe Tech](https://hanabi.github.io/level-17/#the-duplicitous-value-clue)
    Duplication,
    /// [Duplicitous Value Clue](https://hanabi.github.io/level-17/#the-duplicitous-value-clue)
    DuplicitousValue,
    /// [Duplicitous Blind-Play](https://hanabi.github.io/level-17/#the-duplicitous-blind-play)
    DuplicitousBlindPlay,
    /// [Duplicitous Tempo Clue](https://hanabi.github.io/level-17/#the-duplicitous-tempo-clue)
    DuplicitousTempo,
    /// [Assisted Trash Chop Move](https://hanabi.github.io/level-17/#the-assisted-trash-chop-move)
    AssistedTrashChopMove,
    /// [Time Travel Chop Move](https://hanabi.github.io/level-17/#the-time-travel-chop-move-direct-form)
    TimeTravelChopMove,
    /// [Elimination](https://hanabi.github.io/level-18/#elimination--elimination-notes)
    Elimination,
    /// [Elimination Finesse](https://hanabi.github.io/level-18/#the-elimination-finesse)
    EliminationFinesse,
    /// [Elimination Blind-Play](https://hanabi.github.io/level-18/#the-elimination-blind-play)
    EliminationBlindPlay,
    /// [Elimination Play Clue](https://hanabi.github.io/level-18/#the-elimination-play-clue)
    EliminationPlayClue,
    /// [Elimination Riding Deduction](https://hanabi.github.io/level-18/#the-elimination-riding-deduction)
    EliminationRiding,
    /// [Elimination Self-Chop Move](https://hanabi.github.io/level-18/#the-elimination-self-chop-move)
    EliminationSelfChopMove,
    /// [Trash Touch Elimination](https://hanabi.github.io/level-18/#trash-touch-elimination-tte)
    TrashTouchElimination,
    /// [5 Pull](https://hanabi.github.io/level-19/#the-5-pull)
    FivePull,
    /// [5 Number Ejection](https://hanabi.github.io/level-19/#the-5-number-ejection-5ne)
    FiveNumberEjection,
    /// [5 Number Discharge](https://hanabi.github.io/level-19/#the-5-number-discharge-5nd)
    FiveNumberDischarge,
    /// [Occupied Play Clue and Occupied Finesse](https://hanabi.github.io/level-20/#the-occupied-play-clue--the-occupied-finesse-opc)
    OccupiedPlay,
    /// [Out-of-Order Play Clue](https://hanabi.github.io/level-20/#the-out-of-order-play-clue-triple-o--ooo)
    OutOfOrderPlay,
    /// [Out-of-Order Finesse](https://hanabi.github.io/level-20/#the-out-of-order-finesse)
    OutOfOrderFinesse,
    /// [Suboptimal Prompt/Finesse/Bluff](https://hanabi.github.io/level-20/#the-suboptimal-prompt--the-suboptimal-finesse--the-suboptimal-bluff)
    SuboptimalConnection,
    /// [No-Information Finesse](https://hanabi.github.io/level-20/#the-no-information-finesse)
    NoInformationFinesse,
    /// [No-Information Double Bluff](https://hanabi.github.io/level-20/#the-no-information-double-bluff-nidb)
    NoInformationDoubleBluff,
    /// [Ignition](https://hanabi.github.io/level-21/#ignition)
    Ignition,
    /// [Replay Double Ignition](https://hanabi.github.io/level-21/#the-replay-double-ignition-rdi)
    ReplayDoubleIgnition,
    /// [Trash Double Ignition](https://hanabi.github.io/level-21/#the-trash-double-ignition-tdi)
    TrashDoubleIgnition,
    /// [Poke Double Ignition](https://hanabi.github.io/level-21/#the-poke-double-ignition-pdi)
    PokeDoubleIgnition,
    /// [Chop Move Ignition](https://hanabi.github.io/level-21/#the-chop-move-ignition-cmi-with-1-card-chop-moved)
    ChopMoveIgnition,
    /// [Bomb Double Ignition](https://hanabi.github.io/level-21/#bomb-double-ignition)
    BombDoubleIgnition,
    /// [Bomb Triple Ignition](https://hanabi.github.io/level-21/#bomb-triple-ignition)
    BombTripleIgnition,
    /// [Phantom Playable Cards](https://hanabi.github.io/level-22/#phantom-playable-cards)
    PhantomPlayable,
    /// [Sacrifice Discard](https://hanabi.github.io/level-22/#the-sacrifice-discard)
    SacrificeDiscard,
    /// [Echo Scream Discard Chop Move](https://hanabi.github.io/level-22/#the-echo-scream-discard-chop-move-esdcm)
    EchoScreamDiscard,
    /// [Composition Discard](https://hanabi.github.io/level-22/#the-composition-discard)
    CompositionDiscard,
    /// [Rebellious Discard](https://hanabi.github.io/level-22/#the-rebellious-discard)
    RebelliousDiscard,
    /// [Charms](https://hanabi.github.io/level-23/#charms)
    Charm,
    /// [Blaze Discard](https://hanabi.github.io/level-23/#the-blaze-discard)
    BlazeDiscard,
    /// [Hesitation Blind-Play](https://hanabi.github.io/level-23/#the-hesitation-blind-play)
    HesitationBlindPlay,
    /// [Unnecessary Moves](https://hanabi.github.io/level-24/#unnecessary-moves)
    UnnecessaryMove,
    /// [Unnecessary move with known trash](https://hanabi.github.io/level-24/#unnecessary-moves-with-known-trash--ignition)
    UnnecessaryIgnition,
    /// [Unnecessary move with unknown trash off chop](https://hanabi.github.io/level-24/#unnecessary-moves-with-unknown-trash-off-chop--chop-move)
    UnnecessaryChopMove,
    /// [Unnecessary move with unknown trash on chop](https://hanabi.github.io/level-24/#unnecessary-moves-with-unknown-trash-on-chop--trash-push)
    UnnecessaryTrashPush,
    /// [Priority](https://hanabi.github.io/level-25/#the-priority-prompt--the-priority-finesse)
    Priority,
    /// [Max-level extras](https://hanabi.github.io/extras/)
    Extra,
    /// [Transfer Chop Move](https://hanabi.github.io/extras/chop-moves/#the-transfer-chop-move)
    TransferChopMove,
    /// [Misplay Chop Move](https://hanabi.github.io/extras/chop-moves/#the-misplay-chop-move)
    MisplayChopMove,
    /// [Double Order Chop Move](https://hanabi.github.io/extras/chop-moves/#double-order-chop-move-for-3-player-games)
    DoubleOrderChopMove,
    /// [Spillover Chop Move](https://hanabi.github.io/extras/chop-moves/#spillover-chop-move)
    SpilloverChopMove,
    /// [Negative Self-Chop Move](https://hanabi.github.io/extras/chop-moves/#the-negative-self-chop-move)
    NegativeSelfChopMove,
    /// [Out-of-Position Ejection](https://hanabi.github.io/extras/ejection-extensions/#the-out-of-position-ejection)
    OutOfPositionEjection,
    /// [Stacked Ejection](https://hanabi.github.io/extras/ejection-extensions/#the-stacked-ejection)
    StackedEjection,
    /// [Double Ejection](https://hanabi.github.io/extras/ejection-extensions/#the-double-ejection)
    DoubleEjection,
    /// [Promise Clue](https://hanabi.github.io/extras/discards-misplays/#the-promise-clue--the-promise-discard)
    PromiseClue,
    /// [Promise Discard](https://hanabi.github.io/extras/discards-misplays/#the-promise-clue--the-promise-discard)
    PromiseDiscard,
    /// [Trash Push Discharge](https://hanabi.github.io/extras/discharges/#the-trash-push-discharge-tpd)
    TrashPushDischarge,
    /// [Trash Push Ejection](https://hanabi.github.io/extras/ejections/#trash-push-ejection)
    TrashPushEjection,
    /// [Bad Chop Move Ejection](https://hanabi.github.io/extras/ejections/#the-bad-chop-move-ejection-bcme)
    BadChopMoveEjection,
    /// [Rank Choice Ejection](https://hanabi.github.io/extras/ejections/#the-rank-choice-ejection-with-a-number-2-or-a-number-5-rce)
    RankChoiceEjection,
    /// [Trash Ejection](https://hanabi.github.io/extras/ejections/#the-trash-ejection)
    TrashEjection,
    /// [Replay Ejection](https://hanabi.github.io/extras/ejections/#the-replay-ejection)
    ReplayEjection,
    /// [Poke Ejection](https://hanabi.github.io/extras/ejections/#the-poke-ejection)
    PokeEjection,
    /// [Cautious Generation Discard](https://hanabi.github.io/extras/discards-misplays/#the-cautious-generation-discard)
    CautiousGenerationDiscard,
    /// [Unknown Trash Charm](https://hanabi.github.io/extras/charms/#the-unknown-trash-charm-utc)
    UnknownTrashCharm,
    /// [Junk Charm](https://hanabi.github.io/extras/charms/#the-junk-charm-for-1s)
    JunkCharm,
    /// [Out-of-Position Discharge/Charm](https://hanabi.github.io/extras/ejection-extensions/#the-out-of-position-dischargecharm)
    OutOfPositionDischarge,
    /// [Stacked Discharge/Charm](https://hanabi.github.io/extras/ejection-extensions/#the-stacked-dischargecharm)
    StackedDischarge,
    /// [Bad Trash Finesse Ejection](https://hanabi.github.io/extras/ejections/#the-bad-trash-finesse-ejection--the-bad-trash-bluff-ejection)
    BadTrashFinesseEjection,
    /// [Trash Finesse Push Ejection](https://hanabi.github.io/extras/ejections/#the-trash-finesse-push-ejection--the-trash-bluff-push-ejection)
    TrashFinessePushEjection,
    /// [Just-In-Time Fix Clue](https://hanabi.github.io/extras/fix-clues/#the-just-in-time-fix-clue-jit)
    JustInTimeFix,
    /// [Elimination Rewrite](https://hanabi.github.io/extras/miscellaneous/#the-elimination-rewrite-for-1s)
    EliminationRewrite,
    /// [Negative Blind-Play](https://hanabi.github.io/extras/miscellaneous/#the-negative-blind-play)
    NegativeBlindPlay,
    /// [Continuation Clue](https://hanabi.github.io/extras/play-clues/#the-continuation-clue-touching-both-inside-and-outside-a-layer)
    ContinuationClue,
    /// [Trash Pull](https://hanabi.github.io/extras/pushes-pulls/#the-trash-pull)
    TrashPull,
    /// [Fake Save](https://hanabi.github.io/extras/save-clues/#the-fake-save)
    FakeSave,
    /// [Saving Playable Cards when Preceding Cards Are Not Promptable](https://hanabi.github.io/extras/save-clues/#saving-playable-cards-when-the-preceding-cards-are-not-promptable)
    UnpromptablePredecessorSave,
    /// [Self Color Bluff](https://hanabi.github.io/extras/special-bluffs/#self-color-bluffs-1-for-1-form-scb)
    SelfColorBluff,
    /// [Self Color Double Bluff](https://hanabi.github.io/extras/special-bluffs/#self-color-double-bluff-scdb)
    SelfColorDoubleBluff,
    /// [Elimination Bluff](https://hanabi.github.io/extras/special-bluffs/#the-elimination-bluff--the-elimination-layered-finesse)
    EliminationBluff,
    /// [Known Priority Bluff](https://hanabi.github.io/extras/special-bluffs/#the-known-priority-bluff)
    KnownPriorityBluff,
    /// [Pestilent Triple Bluff](https://hanabi.github.io/extras/special-bluffs/#the-pestilent-triple-bluff)
    PestilentTripleBluff,
    /// [Pass Bluff](https://hanabi.github.io/extras/special-bluffs/#the-pass-bluff)
    PassBluff,
    /// [Purge Bluff](https://hanabi.github.io/extras/special-bluffs/#the-purge-bluff-layered-bluff)
    PurgeBluff,
    /// [Ambiguous Finesse Pass-Back](https://hanabi.github.io/extras/special-finesses/#the-ambiguous-finesse-pass-back-afpb)
    AmbiguousFinessePassBack,
    /// [Certain Priority Finesse](https://hanabi.github.io/extras/special-finesses/#potential-priority-duplication--the-certain-priority-finesse-or-priority-certain-finesse)
    CertainPriorityFinesse,
    /// [Patch Finesse](https://hanabi.github.io/extras/special-finesses/#the-patch-finesse)
    PatchFinesse,
    /// [Surreptitious Finesse](https://hanabi.github.io/extras/special-finesses/#the-surreptitious-finesse)
    SurreptitiousFinesse,
    /// [Inverted Priority Finesse](https://hanabi.github.io/extras/special-finesses/#inverted-priority-finesse)
    InvertedPriorityFinesse,
    /// [Finesse with a Lie Component](https://hanabi.github.io/extras/special-finesses/#finesses-with-a-lie-component)
    LieComponentFinesse,
    /// [Declined 5's Finesse](https://hanabi.github.io/extras/special-finesses/#the-declined-5s-finesse)
    DeclinedFiveFinesse,
    /// [Rank Choice Save Finesse/Bluff](https://hanabi.github.io/extras/special-finesses/#the-rank-choice-save-finesse--the-rank-choice-save-bluff)
    RankChoiceSaveFinesse,
    /// An earlier provisional signal was publicly disproved. This is audit
    /// metadata, not a playable convention level.
    Retraction,
}

/// One recognised convention move: who made it, at which turn, which cards
/// it concerns and, when it names one, the identity it establishes.
#[derive(Clone, Debug, PartialEq, Eq)]
pub struct HGroupSignal {
    pub turn: u32,
    pub actor: PlayerId,
    pub target: Option<PlayerId>,
    pub kind: HGroupMoveKind,
    pub cards: Vec<CardId>,
    pub identity: Option<Card>,
}

/// The contents of a signal as plain values.
pub struct SignalView {
    pub turn: u32,
    pub actor: PlayerId,
    pub target: Option<PlayerId>,
    pub kind: HGroupMoveKind,
    pub cards: Seq<CardId>,
    pub identity: Option<Card>,
}

impl View for HGroupSignal {
    type V = SignalView;

    open spec fn view(&self) -> SignalView {
        SignalView {
            turn: self.turn,
            actor: self.actor,
            target: self.target,
            kind: self.kind,
            cards: self.cards@,
            identity: self.identity,
        }
    }
}

/// Game phase used by H-Group stalling and end-game rules.
#[derive(Clone, Copy, Debug, PartialEq, Eq, Structural, Hash)]
pub enum HGroupPhase {
    EarlyGame,
    LowScore,
    Normal,
    EndGame,
}

/// Sum of the five stack heights.
pub open spec fn stack_score(stack_heights: [u8; 5]) -> int {
    stack_heights[0] + stack_heights[1] + stack_heights[2] + stack_heights[3] + stack_heights[4]
}

pub open spec fn clamp_isize(n: int) -> int {
    if n <= isize::MAX {
        n
    } else {
        isize::MAX as int
    }
}

/// The phase of a position. It is the End Game when the turns left (deck
/// plus one final round) exceed the plays still needed by less than one
/// round; otherwise the Early Game if no card has been discarded yet, then
/// a low-score game below five points, and otherwise a normal game.
pub open spec fn spec_phase(
    player_count: usize,
    early_game: bool,
    deck_size: usize,
    stack_heights: [u8; 5],
) -> HGroupPhase {
    let score = stack_score(stack_heights);
    let remaining_plays = if score < 25 {
        25 - score
    } else {
        0
    };
    let remaining_turns = if deck_size + player_count <= usize::MAX {
        deck_size + player_count
    } else {
        usize::MAX as int
    };
    let pace = clamp_isize(remaining_turns) - remaining_plays;
    if pace < clamp_isize(player_count as int) {
        HGroupPhase::EndGame
    } else if early_game {
        HGroupPhase::EarlyGame
    } else if score < 5 {
        HGroupPhase::LowScore
    } else {
        HGroupPhase::Normal
    }
}

fn usize_to_isize_saturating(n: usize) -> (r: isize)
    ensures
        r == clamp_isize(n as int),
{
    if n <= isize::MAX as usize {
        n as isize
    } else {
        isize::MAX
    }
}

/// The H-Group phase of a position, from its public counts.
pub fn h_group_phase_at(
    player_count: usize,
    early_game: bool,
    deck_size: usize,
    stack_heights: [u8; 5],
) -> (phase: HGroupPhase)
    ensures
        phase == spec_phase(player_count, early_game, deck_size, stack_heights),
{
    let score: usize = stack_heights[0] as usize + stack_heights[1] as usize
        + stack_heights[2] as usize + stack_heights[3] as usize + stack_heights[4] as usize;
    let remaining_plays: usize = if score < 25 {
        25 - score
    } else {
        0
    };
    let remaining_turns: usize = deck_size.saturating_add(player_count);
    let pace: isize = usize_to_isize_saturating(remaining_turns) - usize_to_isize_saturating(
        remaining_plays,
    );
    if pace < usize_to_isize_saturating(player_count) {
        HGroupPhase::EndGame
    } else if early_game {
        HGroupPhase::EarlyGame
    } else if score < 5 {
        HGroupPhase::LowScore
    } else {
        HGroupPhase::Normal
    }
}

/// The End Game starts when the turns left, the deck plus one final round,
/// exceed the plays still needed by less than one round: for a score of at
/// most 25 and counts within the machine's signed range, the phase is the
/// End Game exactly when `(deck + players) - (25 - score) < players`, that
/// is when the deck is smaller than the plays still needed. Otherwise the
/// phase is the Early Game exactly when no card has been discarded.
pub proof fn lemma_end_game_by_pace(
    player_count: usize,
    early_game: bool,
    deck_size: usize,
    stack_heights: [u8; 5],
)
    requires
        stack_score(stack_heights) <= 25,
        deck_size + player_count <= isize::MAX,
    ensures
        (spec_phase(player_count, early_game, deck_size, stack_heights) == HGroupPhase::EndGame) <==> (
        deck_size + player_count) - (25 - stack_score(stack_heights)) < player_count,
        (spec_phase(player_count, early_game, deck_size, stack_heights) == HGroupPhase::EndGame) <==> deck_size
            < 25 - stack_score(stack_heights),
        spec_phase(player_count, early_game, deck_size, stack_heights) != HGroupPhase::EndGame ==> ((spec_phase(
            player_count,
            early_game,
            deck_size,
            stack_heights,
        ) == HGroupPhase::EarlyGame) <==> early_game),
{
}

/// The blind plays that follow the Guide Principle: a player who blind-plays
/// into one of these did not signal that the next hand is safe.
/// <https://hanabi.github.io/level-11/#guide-principle>
pub open spec fn spec_guided_blind_play(kind: HGroupMoveKind) -> bool {
    match kind {
        HGroupMoveKind::Finesse | HGroupMoveKind::ReverseFinesse | HGroupMoveKind::SelfFinesse
        | HGroupMoveKind::LayeredFinesse | HGroupMoveKind::HiddenFinesse
        | HGroupMoveKind::ClandestineFinesse | HGroupMoveKind::QueuedFinesse
        | HGroupMoveKind::AmbiguousFinesse | HGroupMoveKind::Bluff
        | HGroupMoveKind::SelfBluff => true,
        _ => false,
    }
}

#[verifier::when_used_as_spec(spec_guided_blind_play)]
pub fn guided_blind_play(kind: HGroupMoveKind) -> (b: bool)
    ensures
        b == spec_guided_blind_play(kind),
{
    match kind {
        HGroupMoveKind::Finesse | HGroupMoveKind::ReverseFinesse | HGroupMoveKind::SelfFinesse
        | HGroupMoveKind::LayeredFinesse | HGroupMoveKind::HiddenFinesse
        | HGroupMoveKind::ClandestineFinesse | HGroupMoveKind::QueuedFinesse
        | HGroupMoveKind::AmbiguousFinesse | HGroupMoveKind::Bluff
        | HGroupMoveKind::SelfBluff => true,
        _ => false,
    }
}

/// Moves whose identity claims belong to a Prompt or Finesse connection.
pub open spec fn spec_is_connection_claim(kind: HGroupMoveKind) -> bool {
    match kind {
        HGroupMoveKind::Prompt | HGroupMoveKind::Finesse | HGroupMoveKind::ReverseFinesse
        | HGroupMoveKind::SelfFinesse | HGroupMoveKind::LayeredFinesse
        | HGroupMoveKind::HiddenFinesse | HGroupMoveKind::ClandestineFinesse
        | HGroupMoveKind::QueuedFinesse | HGroupMoveKind::AmbiguousFinesse => true,
        _ => false,
    }
}

#[verifier::when_used_as_spec(spec_is_connection_claim)]
pub fn is_connection_claim(kind: HGroupMoveKind) -> (b: bool)
    ensures
        b == spec_is_connection_claim(kind),
{
    match kind {
        HGroupMoveKind::Prompt | HGroupMoveKind::Finesse | HGroupMoveKind::ReverseFinesse
        | HGroupMoveKind::SelfFinesse | HGroupMoveKind::LayeredFinesse
        | HGroupMoveKind::HiddenFinesse | HGroupMoveKind::ClandestineFinesse
        | HGroupMoveKind::QueuedFinesse | HGroupMoveKind::AmbiguousFinesse => true,
        _ => false,
    }
}

/// Clue kinds that carry an obligation taking precedence over an immediate
/// play.
pub open spec fn spec_defers_direct_play(kind: HGroupMoveKind) -> bool {
    match kind {
        HGroupMoveKind::PlayClue | HGroupMoveKind::FixClue | HGroupMoveKind::SaveClue
        | HGroupMoveKind::FiveStall | HGroupMoveKind::Stall | HGroupMoveKind::Context
        | HGroupMoveKind::DoubleDiscardAvoidance | HGroupMoveKind::LockedHandSave
        | HGroupMoveKind::EightClueSave | HGroupMoveKind::LieComponentFinesse => true,
        _ => false,
    }
}

/// Whether a clue recognised at `turn` carries an obligation that takes
/// precedence over an immediate play. Performing such a clue does not
/// falsify an older playable card merely because its owner spent the turn
/// giving it.
/// <https://hanabi.github.io/extras/special-finesses/#finesses-with-a-lie-component>
pub fn clue_permits_direct_play_deferral(signals: &[HGroupSignal], turn: u32) -> (b: bool)
    ensures
        b == exists|i: int|
            0 <= i < signals@.len() && (#[trigger] signals@[i]).turn == turn
                && spec_defers_direct_play(signals@[i].kind),
{
    let mut i: usize = 0;
    while i < signals.len()
        invariant
            i <= signals@.len(),
            forall|k: int|
                0 <= k < i ==> !((#[trigger] signals@[k]).turn == turn && spec_defers_direct_play(
                    signals@[k].kind,
                )),
        decreases signals@.len() - i,
    {
        let signal = &signals[i];
        let defers = match signal.kind {
            HGroupMoveKind::PlayClue | HGroupMoveKind::FixClue | HGroupMoveKind::SaveClue
            | HGroupMoveKind::FiveStall | HGroupMoveKind::Stall | HGroupMoveKind::Context
            | HGroupMoveKind::DoubleDiscardAvoidance | HGroupMoveKind::LockedHandSave
            | HGroupMoveKind::EightClueSave | HGroupMoveKind::LieComponentFinesse => true,
            _ => false,
        };
        if signal.turn == turn && defers {
            return true;
        }
        i = i + 1;
    }
    false
}


/// The set of the listed identities.
pub fn identity_set(identities: &Vec<Card>) -> (set: IdentitySet)
    ensures
        set.wf(),
        set@ == identities@.to_set(),
{
    let mut set = IdentitySet::empty();
    let mut i: usize = 0;
    while i < identities.len()
        invariant
            i <= identities@.len(),
            set.wf(),
            set@ == identities@.take(i as int).to_set(),
        decreases identities@.len() - i,
    {
        proof {
            assert(identities@.take(i + 1) =~= identities@.take(i as int).push(identities@[i as int]));
            identities@.take(i as int).lemma_push_to_set_commute(identities@[i as int]);
        }
        set = set.union(IdentitySet::singleton(identities[i]));
        proof {
            assert(set@ =~= identities@.take(i + 1).to_set());
        }
        i = i + 1;
    }
    proof {
        assert(identities@.take(i as int) =~= identities@);
    }
    set
}

/// The title of the learning-path level of `profile`.
pub open spec fn level_title(profile: HGroupProfile) -> Seq<char> {
    match profile {
        HGroupProfile::Level(HGroupLevel::Level1) => seq!['B', 'a', 's', 'i', 'c', ' ', 'c', 'o', 'n', 'v', 'e', 'n', 't', 'i', 'o', 'n', 's'],
        HGroupProfile::Level(HGroupLevel::Level2) => seq!['B', 'a', 's', 'i', 'c', ' ', 'm', 'o', 'v', 'e', 's'],
        HGroupProfile::Level(HGroupLevel::Level3) => seq!['B', 'a', 's', 'i', 'c', ' ', 's', 't', 'r', 'a', 't', 'e', 'g', 'y'],
        HGroupProfile::Level(HGroupLevel::Level4) => seq!['C', 'h', 'o', 'p', ' ', 'm', 'o', 'v', 'e', 's'],
        HGroupProfile::Level(HGroupLevel::Level5) => seq!['S', 'p', 'e', 'c', 'i', 'a', 'l', ' ', 'f', 'i', 'n', 'e', 's', 's', 'e', 's'],
        HGroupProfile::Level(HGroupLevel::Level6) => seq!['T', 'e', 'm', 'p', 'o', ' ', 'c', 'l', 'u', 'e', 's'],
        HGroupProfile::Level(HGroupLevel::Level7) => seq!['E', 'm', 'e', 'r', 'g', 'e', 'n', 'c', 'y', ' ', 'd', 'i', 's', 'c', 'a', 'r', 'd', 's'],
        HGroupProfile::Level(HGroupLevel::Level8) => seq!['E', 'n', 'd', '-', 'g', 'a', 'm', 'e'],
        HGroupProfile::Level(HGroupLevel::Level9) => seq!['S', 't', 'a', 'l', 'l', 'i', 'n', 'g'],
        HGroupProfile::Level(HGroupLevel::Level10) => seq!['S', 'p', 'e', 'c', 'i', 'a', 'l', ' ', 'd', 'i', 's', 'c', 'a', 'r', 'd', 's'],
        HGroupProfile::Level(HGroupLevel::Level11) => seq!['B', 'l', 'u', 'f', 'f', 's'],
        HGroupProfile::Level(HGroupLevel::Level12) => seq!['C', 'o', 'n', 't', 'e', 'x', 't'],
        HGroupProfile::Level(HGroupLevel::Level13) => seq!['I', 'n', 't', 'e', 'r', 'm', 'e', 'd', 'i', 'a', 't', 'e', ' ', 'b', 'l', 'u', 'f', 'f', 's'],
        HGroupProfile::Level(HGroupLevel::Level14) => seq!['T', 'r', 'a', 's', 'h', ' ', 'm', 'o', 'v', 'e', 's'],
        HGroupProfile::Level(HGroupLevel::Level15) => seq!['D', 'o', 'u', 'b', 'l', 'e', ' ', 'b', 'l', 'u', 'f', 'f', 's'],
        HGroupProfile::Level(HGroupLevel::Level16) => seq!['E', 'j', 'e', 'c', 't', 'i', 'o', 'n', 's', ' ', 'a', 'n', 'd', ' ', 'd', 'i', 's', 'c', 'h', 'a', 'r', 'g', 'e', 's'],
        HGroupProfile::Level(HGroupLevel::Level17) => seq!['D', 'u', 'p', 'l', 'i', 'c', 'a', 't', 'i', 'o', 'n'],
        HGroupProfile::Level(HGroupLevel::Level18) => seq!['E', 'l', 'i', 'm', 'i', 'n', 'a', 't', 'i', 'o', 'n'],
        HGroupProfile::Level(HGroupLevel::Level19) => seq!['5', ' ', 't', 'e', 'c', 'h'],
        HGroupProfile::Level(HGroupLevel::Level20) => seq!['O', 'u', 't', '-', 'o', 'f', '-', 'o', 'r', 'd', 'e', 'r', ' ', 'p', 'l', 'a', 'y'],
        HGroupProfile::Level(HGroupLevel::Level21) => seq!['I', 'g', 'n', 'i', 't', 'i', 'o', 'n'],
        HGroupProfile::Level(HGroupLevel::Level22) => seq!['P', 'h', 'a', 'n', 't', 'o', 'm', ' ', 'p', 'l', 'a', 'y', 'a', 'b', 'l', 'e', ' ', 'c', 'a', 'r', 'd', 's'],
        HGroupProfile::Level(HGroupLevel::Level23) => seq!['C', 'h', 'a', 'r', 'm', 's'],
        HGroupProfile::Level(HGroupLevel::Level24) => seq!['U', 'n', 'n', 'e', 'c', 'e', 's', 's', 'a', 'r', 'y', ' ', 'm', 'o', 'v', 'e', 's'],
        HGroupProfile::Level(HGroupLevel::Level25) => seq!['P', 'r', 'i', 'o', 'r', 'i', 't', 'y'],
        HGroupProfile::Max => seq!['M', 'a', 'x'],
    }
}

/// The moves the learning-path level of `profile` introduces, in
/// documentation order.
pub open spec fn level_effects(profile: HGroupProfile) -> Seq<HGroupMoveKind> {
    match profile {
        HGroupProfile::Level(HGroupLevel::Level1) => seq![HGroupMoveKind::PlayClue, HGroupMoveKind::SaveClue, HGroupMoveKind::Prompt, HGroupMoveKind::Finesse],
        HGroupProfile::Level(HGroupLevel::Level2) => seq![HGroupMoveKind::FiveStall, HGroupMoveKind::ReverseFinesse, HGroupMoveKind::SelfFinesse],
        HGroupProfile::Level(HGroupLevel::Level3) => seq![HGroupMoveKind::FixClue, HGroupMoveKind::SarcasticDiscard],
        HGroupProfile::Level(HGroupLevel::Level4) => seq![HGroupMoveKind::ChopMove, HGroupMoveKind::TrashChopMove, HGroupMoveKind::FiveChopMove, HGroupMoveKind::OrderChopMove],
        HGroupProfile::Level(HGroupLevel::Level5) => seq![HGroupMoveKind::HiddenFinesse, HGroupMoveKind::LayeredFinesse, HGroupMoveKind::ClandestineFinesse, HGroupMoveKind::QueuedFinesse, HGroupMoveKind::AmbiguousFinesse],
        HGroupProfile::Level(HGroupLevel::Level6) => seq![HGroupMoveKind::TempoClue, HGroupMoveKind::TempoClueChopMove, HGroupMoveKind::Clarity],
        HGroupProfile::Level(HGroupLevel::Level7) => seq![HGroupMoveKind::ScreamDiscard, HGroupMoveKind::ShoutDiscard, HGroupMoveKind::GenerationDiscard],
        HGroupProfile::Level(HGroupLevel::Level8) => seq![HGroupMoveKind::PositionalDiscard, HGroupMoveKind::PositionalMisplay, HGroupMoveKind::DoublePositionalMisplay, HGroupMoveKind::DistributionClue],
        HGroupProfile::Level(HGroupLevel::Level9) => seq![HGroupMoveKind::Stall, HGroupMoveKind::EarlyGameStall, HGroupMoveKind::DoubleDiscardAvoidance, HGroupMoveKind::LockedHandSave, HGroupMoveKind::FillInClue, HGroupMoveKind::AnxietyPlay, HGroupMoveKind::EightClueSave, HGroupMoveKind::Burn],
        HGroupProfile::Level(HGroupLevel::Level10) => seq![HGroupMoveKind::TransferDiscard, HGroupMoveKind::GentlemansDiscard, HGroupMoveKind::LayeredGentlemansDiscard, HGroupMoveKind::BatonDiscard, HGroupMoveKind::SarcasticFinesse, HGroupMoveKind::CertainFinesse, HGroupMoveKind::CertainDiscard, HGroupMoveKind::CompositionFinesse],
        HGroupProfile::Level(HGroupLevel::Level11) => seq![HGroupMoveKind::Bluff, HGroupMoveKind::SelfBluff],
        HGroupProfile::Level(HGroupLevel::Level12) => seq![HGroupMoveKind::SelfishClue, HGroupMoveKind::SelfishFinesse, HGroupMoveKind::StaleOnesClue, HGroupMoveKind::FocusInversion, HGroupMoveKind::Context],
        HGroupProfile::Level(HGroupLevel::Level13) => seq![HGroupMoveKind::ThreeBluff, HGroupMoveKind::CriticalColorBluff, HGroupMoveKind::HardBluff, HGroupMoveKind::GoodTouchBluff],
        HGroupProfile::Level(HGroupLevel::Level14) => seq![HGroupMoveKind::TrashPush, HGroupMoveKind::TrashPushPrompt, HGroupMoveKind::TrashPushFinesse, HGroupMoveKind::TrashFinesse, HGroupMoveKind::ReverseTrashFinesse, HGroupMoveKind::ForcedGentlemansDiscardChopMove, HGroupMoveKind::TrashBluff, HGroupMoveKind::TrashOrderChopMove],
        HGroupProfile::Level(HGroupLevel::Level15) => seq![HGroupMoveKind::DoubleBluff, HGroupMoveKind::HardDoubleBluff, HGroupMoveKind::PestilentDoubleBluff],
        HGroupProfile::Level(HGroupLevel::Level16) => seq![HGroupMoveKind::FiveColorEjection, HGroupMoveKind::UnknownTrashDischarge, HGroupMoveKind::UnknownDupeDischarge],
        HGroupProfile::Level(HGroupLevel::Level17) => seq![HGroupMoveKind::DuplicitousValue, HGroupMoveKind::DuplicitousBlindPlay, HGroupMoveKind::DuplicitousTempo, HGroupMoveKind::AssistedTrashChopMove, HGroupMoveKind::TimeTravelChopMove],
        HGroupProfile::Level(HGroupLevel::Level18) => seq![HGroupMoveKind::Elimination, HGroupMoveKind::EliminationFinesse, HGroupMoveKind::EliminationBlindPlay, HGroupMoveKind::EliminationPlayClue, HGroupMoveKind::EliminationRiding, HGroupMoveKind::EliminationSelfChopMove, HGroupMoveKind::TrashTouchElimination],
        HGroupProfile::Level(HGroupLevel::Level19) => seq![HGroupMoveKind::FivePull, HGroupMoveKind::FiveNumberEjection, HGroupMoveKind::FiveNumberDischarge],
        HGroupProfile::Level(HGroupLevel::Level20) => seq![HGroupMoveKind::OccupiedPlay, HGroupMoveKind::OutOfOrderPlay, HGroupMoveKind::OutOfOrderFinesse, HGroupMoveKind::SuboptimalConnection, HGroupMoveKind::NoInformationFinesse, HGroupMoveKind::NoInformationDoubleBluff],
        HGroupProfile::Level(HGroupLevel::Level21) => seq![HGroupMoveKind::ReplayDoubleIgnition, HGroupMoveKind::TrashDoubleIgnition, HGroupMoveKind::PokeDoubleIgnition, HGroupMoveKind::ChopMoveIgnition, HGroupMoveKind::BombDoubleIgnition, HGroupMoveKind::BombTripleIgnition],
        HGroupProfile::Level(HGroupLevel::Level22) => seq![HGroupMoveKind::PhantomPlayable, HGroupMoveKind::SacrificeDiscard, HGroupMoveKind::EchoScreamDiscard, HGroupMoveKind::CompositionDiscard, HGroupMoveKind::RebelliousDiscard],
        HGroupProfile::Level(HGroupLevel::Level23) => seq![HGroupMoveKind::Charm, HGroupMoveKind::BlazeDiscard, HGroupMoveKind::HesitationBlindPlay],
        HGroupProfile::Level(HGroupLevel::Level24) => seq![HGroupMoveKind::UnnecessaryMove, HGroupMoveKind::UnnecessaryIgnition, HGroupMoveKind::UnnecessaryChopMove, HGroupMoveKind::UnnecessaryTrashPush],
        HGroupProfile::Level(HGroupLevel::Level25) => seq![HGroupMoveKind::Priority],
        HGroupProfile::Max => seq![HGroupMoveKind::Extra, HGroupMoveKind::TransferChopMove, HGroupMoveKind::MisplayChopMove, HGroupMoveKind::DoubleOrderChopMove, HGroupMoveKind::SpilloverChopMove, HGroupMoveKind::NegativeSelfChopMove, HGroupMoveKind::OutOfPositionEjection, HGroupMoveKind::StackedEjection, HGroupMoveKind::DoubleEjection, HGroupMoveKind::PromiseClue, HGroupMoveKind::PromiseDiscard, HGroupMoveKind::TrashPushDischarge, HGroupMoveKind::TrashPushEjection, HGroupMoveKind::BadChopMoveEjection, HGroupMoveKind::RankChoiceEjection, HGroupMoveKind::TrashEjection, HGroupMoveKind::ReplayEjection, HGroupMoveKind::PokeEjection, HGroupMoveKind::CautiousGenerationDiscard, HGroupMoveKind::UnknownTrashCharm, HGroupMoveKind::JunkCharm, HGroupMoveKind::OutOfPositionDischarge, HGroupMoveKind::StackedDischarge, HGroupMoveKind::BadTrashFinesseEjection, HGroupMoveKind::TrashFinessePushEjection, HGroupMoveKind::JustInTimeFix, HGroupMoveKind::EliminationRewrite, HGroupMoveKind::NegativeBlindPlay, HGroupMoveKind::ContinuationClue, HGroupMoveKind::TrashPull, HGroupMoveKind::FakeSave, HGroupMoveKind::UnpromptablePredecessorSave, HGroupMoveKind::SelfColorBluff, HGroupMoveKind::SelfColorDoubleBluff, HGroupMoveKind::EliminationBluff, HGroupMoveKind::KnownPriorityBluff, HGroupMoveKind::PestilentTripleBluff, HGroupMoveKind::PassBluff, HGroupMoveKind::PurgeBluff, HGroupMoveKind::AmbiguousFinessePassBack, HGroupMoveKind::CertainPriorityFinesse, HGroupMoveKind::PatchFinesse, HGroupMoveKind::SurreptitiousFinesse, HGroupMoveKind::InvertedPriorityFinesse, HGroupMoveKind::LieComponentFinesse, HGroupMoveKind::DeclinedFiveFinesse, HGroupMoveKind::RankChoiceSaveFinesse],
    }
}

/// Position `i` of the cumulative learning path holds `profile`: levels 1
/// through 25, then `max`.
pub open spec fn on_path(i: int, profile: HGroupProfile) -> bool {
    if i < 25 {
        profile matches HGroupProfile::Level(l) && l.spec_number() == i + 1
    } else {
        profile == HGroupProfile::Max
    }
}

/// Machine-readable coverage metadata for one cumulative learning-path level.
#[derive(Clone, Debug, PartialEq, Eq)]
pub struct HGroupLevelDescriptor {
    pub profile: HGroupProfile,
    pub title: &'static str,
    pub effects: Vec<HGroupMoveKind>,
}

/// The coverage metadata of the learning-path level of `profile`.
pub fn level_descriptor(profile: HGroupProfile) -> (d: HGroupLevelDescriptor)
    ensures
        d.profile == profile,
        d.title@ == level_title(profile),
        d.effects@ == level_effects(profile),
{
    match profile {
        HGroupProfile::Level(HGroupLevel::Level1) => {
            proof {
                reveal_strlit("Basic conventions");
            }
            HGroupLevelDescriptor { profile, title: "Basic conventions", effects: vec![HGroupMoveKind::PlayClue, HGroupMoveKind::SaveClue, HGroupMoveKind::Prompt, HGroupMoveKind::Finesse] }
        },
        HGroupProfile::Level(HGroupLevel::Level2) => {
            proof {
                reveal_strlit("Basic moves");
            }
            HGroupLevelDescriptor { profile, title: "Basic moves", effects: vec![HGroupMoveKind::FiveStall, HGroupMoveKind::ReverseFinesse, HGroupMoveKind::SelfFinesse] }
        },
        HGroupProfile::Level(HGroupLevel::Level3) => {
            proof {
                reveal_strlit("Basic strategy");
            }
            HGroupLevelDescriptor { profile, title: "Basic strategy", effects: vec![HGroupMoveKind::FixClue, HGroupMoveKind::SarcasticDiscard] }
        },
        HGroupProfile::Level(HGroupLevel::Level4) => {
            proof {
                reveal_strlit("Chop moves");
            }
            HGroupLevelDescriptor { profile, title: "Chop moves", effects: vec![HGroupMoveKind::ChopMove, HGroupMoveKind::TrashChopMove, HGroupMoveKind::FiveChopMove, HGroupMoveKind::OrderChopMove] }
        },
        HGroupProfile::Level(HGroupLevel::Level5) => {
            proof {
                reveal_strlit("Special finesses");
            }
            HGroupLevelDescriptor { profile, title: "Special finesses", effects: vec![HGroupMoveKind::HiddenFinesse, HGroupMoveKind::LayeredFinesse, HGroupMoveKind::ClandestineFinesse, HGroupMoveKind::QueuedFinesse, HGroupMoveKind::AmbiguousFinesse] }
        },
        HGroupProfile::Level(HGroupLevel::Level6) => {
            proof {
                reveal_strlit("Tempo clues");
            }
            HGroupLevelDescriptor { profile, title: "Tempo clues", effects: vec![HGroupMoveKind::TempoClue, HGroupMoveKind::TempoClueChopMove, HGroupMoveKind::Clarity] }
        },
        HGroupProfile::Level(HGroupLevel::Level7) => {
            proof {
                reveal_strlit("Emergency discards");
            }
            HGroupLevelDescriptor { profile, title: "Emergency discards", effects: vec![HGroupMoveKind::ScreamDiscard, HGroupMoveKind::ShoutDiscard, HGroupMoveKind::GenerationDiscard] }
        },
        HGroupProfile::Level(HGroupLevel::Level8) => {
            proof {
                reveal_strlit("End-game");
            }
            HGroupLevelDescriptor { profile, title: "End-game", effects: vec![HGroupMoveKind::PositionalDiscard, HGroupMoveKind::PositionalMisplay, HGroupMoveKind::DoublePositionalMisplay, HGroupMoveKind::DistributionClue] }
        },
        HGroupProfile::Level(HGroupLevel::Level9) => {
            proof {
                reveal_strlit("Stalling");
            }
            HGroupLevelDescriptor { profile, title: "Stalling", effects: vec![HGroupMoveKind::Stall, HGroupMoveKind::EarlyGameStall, HGroupMoveKind::DoubleDiscardAvoidance, HGroupMoveKind::LockedHandSave, HGroupMoveKind::FillInClue, HGroupMoveKind::AnxietyPlay, HGroupMoveKind::EightClueSave, HGroupMoveKind::Burn] }
        },
        HGroupProfile::Level(HGroupLevel::Level10) => {
            proof {
                reveal_strlit("Special discards");
            }
            HGroupLevelDescriptor { profile, title: "Special discards", effects: vec![HGroupMoveKind::TransferDiscard, HGroupMoveKind::GentlemansDiscard, HGroupMoveKind::LayeredGentlemansDiscard, HGroupMoveKind::BatonDiscard, HGroupMoveKind::SarcasticFinesse, HGroupMoveKind::CertainFinesse, HGroupMoveKind::CertainDiscard, HGroupMoveKind::CompositionFinesse] }
        },
        HGroupProfile::Level(HGroupLevel::Level11) => {
            proof {
                reveal_strlit("Bluffs");
            }
            HGroupLevelDescriptor { profile, title: "Bluffs", effects: vec![HGroupMoveKind::Bluff, HGroupMoveKind::SelfBluff] }
        },
        HGroupProfile::Level(HGroupLevel::Level12) => {
            proof {
                reveal_strlit("Context");
            }
            HGroupLevelDescriptor { profile, title: "Context", effects: vec![HGroupMoveKind::SelfishClue, HGroupMoveKind::SelfishFinesse, HGroupMoveKind::StaleOnesClue, HGroupMoveKind::FocusInversion, HGroupMoveKind::Context] }
        },
        HGroupProfile::Level(HGroupLevel::Level13) => {
            proof {
                reveal_strlit("Intermediate bluffs");
            }
            HGroupLevelDescriptor { profile, title: "Intermediate bluffs", effects: vec![HGroupMoveKind::ThreeBluff, HGroupMoveKind::CriticalColorBluff, HGroupMoveKind::HardBluff, HGroupMoveKind::GoodTouchBluff] }
        },
        HGroupProfile::Level(HGroupLevel::Level14) => {
            proof {
                reveal_strlit("Trash moves");
            }
            HGroupLevelDescriptor { profile, title: "Trash moves", effects: vec![HGroupMoveKind::TrashPush, HGroupMoveKind::TrashPushPrompt, HGroupMoveKind::TrashPushFinesse, HGroupMoveKind::TrashFinesse, HGroupMoveKind::ReverseTrashFinesse, HGroupMoveKind::ForcedGentlemansDiscardChopMove, HGroupMoveKind::TrashBluff, HGroupMoveKind::TrashOrderChopMove] }
        },
        HGroupProfile::Level(HGroupLevel::Level15) => {
            proof {
                reveal_strlit("Double bluffs");
            }
            HGroupLevelDescriptor { profile, title: "Double bluffs", effects: vec![HGroupMoveKind::DoubleBluff, HGroupMoveKind::HardDoubleBluff, HGroupMoveKind::PestilentDoubleBluff] }
        },
        HGroupProfile::Level(HGroupLevel::Level16) => {
            proof {
                reveal_strlit("Ejections and discharges");
            }
            HGroupLevelDescriptor { profile, title: "Ejections and discharges", effects: vec![HGroupMoveKind::FiveColorEjection, HGroupMoveKind::UnknownTrashDischarge, HGroupMoveKind::UnknownDupeDischarge] }
        },
        HGroupProfile::Level(HGroupLevel::Level17) => {
            proof {
                reveal_strlit("Duplication");
            }
            HGroupLevelDescriptor { profile, title: "Duplication", effects: vec![HGroupMoveKind::DuplicitousValue, HGroupMoveKind::DuplicitousBlindPlay, HGroupMoveKind::DuplicitousTempo, HGroupMoveKind::AssistedTrashChopMove, HGroupMoveKind::TimeTravelChopMove] }
        },
        HGroupProfile::Level(HGroupLevel::Level18) => {
            proof {
                reveal_strlit("Elimination");
            }
            HGroupLevelDescriptor { profile, title: "Elimination", effects: vec![HGroupMoveKind::Elimination, HGroupMoveKind::EliminationFinesse, HGroupMoveKind::EliminationBlindPlay, HGroupMoveKind::EliminationPlayClue, HGroupMoveKind::EliminationRiding, HGroupMoveKind::EliminationSelfChopMove, HGroupMoveKind::TrashTouchElimination] }
        },
        HGroupProfile::Level(HGroupLevel::Level19) => {
            proof {
                reveal_strlit("5 tech");
            }
            HGroupLevelDescriptor { profile, title: "5 tech", effects: vec![HGroupMoveKind::FivePull, HGroupMoveKind::FiveNumberEjection, HGroupMoveKind::FiveNumberDischarge] }
        },
        HGroupProfile::Level(HGroupLevel::Level20) => {
            proof {
                reveal_strlit("Out-of-order play");
            }
            HGroupLevelDescriptor { profile, title: "Out-of-order play", effects: vec![HGroupMoveKind::OccupiedPlay, HGroupMoveKind::OutOfOrderPlay, HGroupMoveKind::OutOfOrderFinesse, HGroupMoveKind::SuboptimalConnection, HGroupMoveKind::NoInformationFinesse, HGroupMoveKind::NoInformationDoubleBluff] }
        },
        HGroupProfile::Level(HGroupLevel::Level21) => {
            proof {
                reveal_strlit("Ignition");
            }
            HGroupLevelDescriptor { profile, title: "Ignition", effects: vec![HGroupMoveKind::ReplayDoubleIgnition, HGroupMoveKind::TrashDoubleIgnition, HGroupMoveKind::PokeDoubleIgnition, HGroupMoveKind::ChopMoveIgnition, HGroupMoveKind::BombDoubleIgnition, HGroupMoveKind::BombTripleIgnition] }
        },
        HGroupProfile::Level(HGroupLevel::Level22) => {
            proof {
                reveal_strlit("Phantom playable cards");
            }
            HGroupLevelDescriptor { profile, title: "Phantom playable cards", effects: vec![HGroupMoveKind::PhantomPlayable, HGroupMoveKind::SacrificeDiscard, HGroupMoveKind::EchoScreamDiscard, HGroupMoveKind::CompositionDiscard, HGroupMoveKind::RebelliousDiscard] }
        },
        HGroupProfile::Level(HGroupLevel::Level23) => {
            proof {
                reveal_strlit("Charms");
            }
            HGroupLevelDescriptor { profile, title: "Charms", effects: vec![HGroupMoveKind::Charm, HGroupMoveKind::BlazeDiscard, HGroupMoveKind::HesitationBlindPlay] }
        },
        HGroupProfile::Level(HGroupLevel::Level24) => {
            proof {
                reveal_strlit("Unnecessary moves");
            }
            HGroupLevelDescriptor { profile, title: "Unnecessary moves", effects: vec![HGroupMoveKind::UnnecessaryMove, HGroupMoveKind::UnnecessaryIgnition, HGroupMoveKind::UnnecessaryChopMove, HGroupMoveKind::UnnecessaryTrashPush] }
        },
        HGroupProfile::Level(HGroupLevel::Level25) => {
            proof {
                reveal_strlit("Priority");
            }
            HGroupLevelDescriptor { profile, title: "Priority", effects: vec![HGroupMoveKind::Priority] }
        },
        HGroupProfile::Max => {
            proof {
                reveal_strlit("Max");
            }
            HGroupLevelDescriptor { profile, title: "Max", effects: vec![HGroupMoveKind::Extra, HGroupMoveKind::TransferChopMove, HGroupMoveKind::MisplayChopMove, HGroupMoveKind::DoubleOrderChopMove, HGroupMoveKind::SpilloverChopMove, HGroupMoveKind::NegativeSelfChopMove, HGroupMoveKind::OutOfPositionEjection, HGroupMoveKind::StackedEjection, HGroupMoveKind::DoubleEjection, HGroupMoveKind::PromiseClue, HGroupMoveKind::PromiseDiscard, HGroupMoveKind::TrashPushDischarge, HGroupMoveKind::TrashPushEjection, HGroupMoveKind::BadChopMoveEjection, HGroupMoveKind::RankChoiceEjection, HGroupMoveKind::TrashEjection, HGroupMoveKind::ReplayEjection, HGroupMoveKind::PokeEjection, HGroupMoveKind::CautiousGenerationDiscard, HGroupMoveKind::UnknownTrashCharm, HGroupMoveKind::JunkCharm, HGroupMoveKind::OutOfPositionDischarge, HGroupMoveKind::StackedDischarge, HGroupMoveKind::BadTrashFinesseEjection, HGroupMoveKind::TrashFinessePushEjection, HGroupMoveKind::JustInTimeFix, HGroupMoveKind::EliminationRewrite, HGroupMoveKind::NegativeBlindPlay, HGroupMoveKind::ContinuationClue, HGroupMoveKind::TrashPull, HGroupMoveKind::FakeSave, HGroupMoveKind::UnpromptablePredecessorSave, HGroupMoveKind::SelfColorBluff, HGroupMoveKind::SelfColorDoubleBluff, HGroupMoveKind::EliminationBluff, HGroupMoveKind::KnownPriorityBluff, HGroupMoveKind::PestilentTripleBluff, HGroupMoveKind::PassBluff, HGroupMoveKind::PurgeBluff, HGroupMoveKind::AmbiguousFinessePassBack, HGroupMoveKind::CertainPriorityFinesse, HGroupMoveKind::PatchFinesse, HGroupMoveKind::SurreptitiousFinesse, HGroupMoveKind::InvertedPriorityFinesse, HGroupMoveKind::LieComponentFinesse, HGroupMoveKind::DeclinedFiveFinesse, HGroupMoveKind::RankChoiceSaveFinesse] }
        },
    }
}

/// The cumulative learning path, with `max` as effective level 26.
pub fn h_group_levels() -> (levels: Vec<HGroupLevelDescriptor>)
    ensures
        levels@.len() == 26,
        forall|i: int| 0 <= i < 26 ==> {
            let d = #[trigger] levels@[i];
            &&& on_path(i, d.profile)
            &&& d.title@ == level_title(d.profile)
            &&& d.effects@ == level_effects(d.profile)
        },
{
    let mut levels: Vec<HGroupLevelDescriptor> = Vec::new();
    let mut n: u8 = 1;
    while n <= 25
        invariant
            1 <= n <= 26,
            levels@.len() == n - 1,
            forall|i: int| 0 <= i < n - 1 ==> {
                let d = #[trigger] levels@[i];
                &&& on_path(i, d.profile)
                &&& d.title@ == level_title(d.profile)
                &&& d.effects@ == level_effects(d.profile)
            },
        decreases 26 - n,
    {
        let level = match HGroupLevel::try_from_number(n) {
            Ok(level) => level,
            Err(_) => HGroupLevel::Level1,
        };
        let ghost before = levels@;
        levels.push(level_descriptor(HGroupProfile::Level(level)));
        proof {
            assert(levels@[n - 1].profile == HGroupProfile::Level(level));
            assert forall|i: int| 0 <= i < n implies {
                let d = #[trigger] levels@[i];
                &&& on_path(i, d.profile)
                &&& d.title@ == level_title(d.profile)
                &&& d.effects@ == level_effects(d.profile)
            } by {
                if i < n - 1 {
                    assert(levels@[i] == before[i]);
                }
            }
        }
        n = n + 1;
    }
    let ghost before = levels@;
    levels.push(level_descriptor(HGroupProfile::Max));
    proof {
        assert forall|i: int| 0 <= i < 26 implies {
            let d = #[trigger] levels@[i];
            &&& on_path(i, d.profile)
            &&& d.title@ == level_title(d.profile)
            &&& d.effects@ == level_effects(d.profile)
        } by {
            if i < 25 {
                assert(levels@[i] == before[i]);
            }
        }
    }
    levels
}

} // verus!
