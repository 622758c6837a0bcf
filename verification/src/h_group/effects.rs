//! The explanation journal and the reducer that owns every change to it.

use vstd::prelude::*;

use crate::cards::CardId;
use crate::h_group::facts::{
    after_identity_effect, after_signal, cards_in_range, copy_ids, initial_facts,
    lemma_apply_signal_idempotent, same_ids, with_cards, ConventionFacts, FactsView,
};
use crate::h_group::{HGroupMoveKind, HGroupSignal, SignalView};

verus! {

/// The signals as plain values.
pub open spec fn history_views(signals: Seq<HGroupSignal>) -> Seq<SignalView> {
    signals.map_values(|s: HGroupSignal| s@)
}

/// A copy of `signal`.
pub fn copy_signal(signal: &HGroupSignal) -> (r: HGroupSignal)
    ensures
        r@ == signal@,
{
    HGroupSignal {
        turn: signal.turn,
        actor: signal.actor,
        target: signal.target,
        kind: signal.kind,
        cards: copy_ids(&signal.cards),
        identity: signal.identity,
    }
}

/// The positions of the signals of `kind` recorded at `turn` (any turn when
/// `turn` is `None`), in order.
pub open spec fn positions(signals: Seq<SignalView>, kind: HGroupMoveKind, turn: Option<u32>) -> Seq<int>
    decreases signals.len(),
{
    if signals.len() == 0 {
        Seq::empty()
    } else {
        let rest = positions(signals.drop_last(), kind, turn);
        let s = signals.last();
        if s.kind == kind && (turn is None || turn == Some(s.turn)) {
            rest.push(signals.len() - 1)
        } else {
            rest
        }
    }
}

/// Indexed, append-only explanation history.
///
/// Typed queries replace repeated scans of the audit log, so an old
/// explanation is not confused with current convention truth.
#[derive(Clone, Debug)]
pub struct SignalHistory {
    signals: Vec<HGroupSignal>,
}

impl View for SignalHistory {
    type V = Seq<SignalView>;

    closed spec fn view(&self) -> Seq<SignalView> {
        history_views(self.signals@)
    }
}

impl SignalHistory {
    /// An empty history.
    pub fn new() -> (h: Self)
        ensures
            h@ == Seq::<SignalView>::empty(),
    {
        let h = SignalHistory { signals: Vec::new() };
        proof {
            assert(h@ =~= Seq::<SignalView>::empty());
        }
        h
    }

    fn push(&mut self, signal: HGroupSignal)
        ensures
            final(self)@ == old(self)@.push(signal@),
    {
        self.signals.push(signal);
        proof {
            assert(self@ =~= old(self)@.push(signal@));
        }
    }

    /// Number of recorded signals.
    pub fn len(&self) -> (n: usize)
        ensures
            n == self@.len(),
    {
        self.signals.len()
    }

    /// The recorded signals, oldest first.
    pub fn signals(&self) -> (s: &Vec<HGroupSignal>)
        ensures
            history_views(s@) == self@,
    {
        &self.signals
    }

    fn matching(&self, kind: HGroupMoveKind, turn: Option<u32>) -> (r: Vec<usize>)
        ensures
            r@.map_values(|i: usize| i as int) == positions(self@, kind, turn),
    {
        let mut r: Vec<usize> = Vec::new();
        let mut i: usize = 0;
        while i < self.signals.len()
            invariant
                i <= self.signals@.len(),
                r@.map_values(|p: usize| p as int) == positions(self@.take(i as int), kind, turn),
            decreases self.signals@.len() - i,
        {
            proof {
                assert(self@.take(i + 1).drop_last() =~= self@.take(i as int));
                assert(self@.take(i + 1).last() == self.signals@[i as int]@);
            }
            let s = &self.signals[i];
            let at_turn = match turn {
                None => true,
                Some(t) => s.turn == t,
            };
            if s.kind == kind && at_turn {
                let ghost before = r@;
                r.push(i);
                proof {
                    assert(r@.map_values(|p: usize| p as int) =~= before.map_values(|p: usize| p as int).push(i as int));
                }
            }
            i = i + 1;
        }
        proof {
            assert(self@.take(i as int) =~= self@);
        }
        r
    }

    /// The positions of the signals of `kind`, oldest first.
    pub fn of_kind(&self, kind: HGroupMoveKind) -> (r: Vec<usize>)
        ensures
            r@.map_values(|i: usize| i as int) == positions(self@, kind, None),
    {
        self.matching(kind, None)
    }

    /// The positions of the signals of `kind` recorded at `turn`.
    pub fn at_turn(&self, turn: u32, kind: HGroupMoveKind) -> (r: Vec<usize>)
        ensures
            r@.map_values(|i: usize| i as int) == positions(self@, kind, Some(turn)),
    {
        self.matching(kind, Some(turn))
    }

    /// The most recent signal of `kind`.
    pub fn latest(&self, kind: HGroupMoveKind) -> (r: Option<&HGroupSignal>)
        ensures
            r is None <==> forall|k: int| 0 <= k < self@.len() ==> (#[trigger] self@[k]).kind != kind,
            r matches Some(s) ==> exists|k: int|
                0 <= k < self@.len() && self@[k] == s@ && s.kind == kind && forall|j: int|
                    k < j < self@.len() ==> (#[trigger] self@[j]).kind != kind,
    {
        let mut i: usize = self.signals.len();
        while i > 0
            invariant
                i <= self.signals@.len(),
                forall|j: int| i <= j < self@.len() ==> (#[trigger] self@[j]).kind != kind,
            decreases i,
        {
            if self.signals[i - 1].kind == kind {
                proof {
                    assert(self@[i - 1] == self.signals@[i - 1]@);
                }
                return Some(&self.signals[i - 1]);
            }
            proof {
                assert(self@[i - 1] == self.signals@[i - 1]@);
            }
            i = i - 1;
        }
        None
    }

    /// Whether a signal of `kind` was recorded at `turn`.
    pub fn has_at_turn(&self, turn: u32, kind: HGroupMoveKind) -> (b: bool)
        ensures
            b == (positions(self@, kind, Some(turn)).len() > 0),
    {
        let found = self.matching(kind, Some(turn));
        found.len() > 0
    }

    /// The recorded signals, oldest first.
    pub fn into_vec(self) -> (v: Vec<HGroupSignal>)
        ensures
            history_views(v@) == self@,
    {
        self.signals
    }
}

impl Default for SignalHistory {
    fn default() -> (h: Self)
        ensures
            h@ == Seq::<SignalView>::empty(),
    {
        SignalHistory::new()
    }
}

/// Typed output from convention recognition. The reducer owns mutation and
/// idempotence; rule recognizers only describe what they observed.
#[derive(Clone, Debug)]
pub enum ConventionEffect {
    /// Preserve the human-readable explanation/provenance log.
    RecordSignal(HGroupSignal),
    SetFixed { cards: Vec<CardId>, fixed: bool },
    SetPriority { cards: Vec<CardId>, active: bool },
    ClaimIdentity(HGroupSignal),
}

/// An effect as plain values.
pub enum EffectView {
    RecordSignal(SignalView),
    SetFixed(Seq<CardId>, bool),
    SetPriority(Seq<CardId>, bool),
    ClaimIdentity(SignalView),
}

impl View for ConventionEffect {
    type V = EffectView;

    open spec fn view(&self) -> EffectView {
        match self {
            ConventionEffect::RecordSignal(s) => EffectView::RecordSignal(s@),
            ConventionEffect::SetFixed { cards, fixed } => EffectView::SetFixed(cards@, *fixed),
            ConventionEffect::SetPriority { cards, active } => EffectView::SetPriority(cards@, *active),
            ConventionEffect::ClaimIdentity(s) => EffectView::ClaimIdentity(s@),
        }
    }
}

/// The effects as plain values.
pub open spec fn effect_views(effects: Seq<ConventionEffect>) -> Seq<EffectView> {
    effects.map_values(|e: ConventionEffect| e@)
}

/// Every card an effect names has a slot.
pub open spec fn effect_in_range(e: EffectView) -> bool {
    match e {
        EffectView::RecordSignal(_) => true,
        EffectView::SetFixed(cards, _) => cards_in_range(cards),
        EffectView::SetPriority(cards, _) => cards_in_range(cards),
        EffectView::ClaimIdentity(s) => cards_in_range(s.cards),
    }
}

/// The effects a recognized signal produces: the fixed or priority mark of
/// its kind, its identity claim when it names an identity, and its record.
pub open spec fn recognized_effects(s: SignalView) -> Seq<EffectView> {
    let marks: Seq<EffectView> = if s.kind == HGroupMoveKind::FixClue {
        seq![EffectView::SetFixed(s.cards, true)]
    } else if s.kind == HGroupMoveKind::PlayClue {
        seq![EffectView::SetFixed(s.cards, false)]
    } else if s.kind == HGroupMoveKind::Priority {
        seq![EffectView::SetPriority(s.cards, true)]
    } else if s.kind == HGroupMoveKind::Retraction {
        seq![EffectView::SetPriority(s.cards, false)]
    } else {
        Seq::empty()
    };
    let claims: Seq<EffectView> = if s.identity is Some {
        seq![EffectView::ClaimIdentity(s)]
    } else {
        Seq::empty()
    };
    marks + claims + seq![EffectView::RecordSignal(s)]
}

/// A batch of effects recognized together.
#[derive(Clone, Debug)]
pub struct EffectBatch {
    effects: Vec<ConventionEffect>,
}

impl View for EffectBatch {
    type V = Seq<EffectView>;

    closed spec fn view(&self) -> Seq<EffectView> {
        effect_views(self.effects@)
    }
}

impl EffectBatch {
    /// The effects of one recognized signal.
    pub fn recognized(signal: HGroupSignal) -> (b: Self)
        ensures
            b@ == recognized_effects(signal@),
    {
        let mut effects: Vec<ConventionEffect> = Vec::new();
        if signal.kind == HGroupMoveKind::FixClue {
            effects.push(ConventionEffect::SetFixed { cards: copy_ids(&signal.cards), fixed: true });
        } else if signal.kind == HGroupMoveKind::PlayClue {
            effects.push(ConventionEffect::SetFixed { cards: copy_ids(&signal.cards), fixed: false });
        } else if signal.kind == HGroupMoveKind::Priority {
            effects.push(ConventionEffect::SetPriority { cards: copy_ids(&signal.cards), active: true });
        } else if signal.kind == HGroupMoveKind::Retraction {
            effects.push(ConventionEffect::SetPriority { cards: copy_ids(&signal.cards), active: false });
        }
        let ghost marks = effect_views(effects@);
        if signal.identity.is_some() {
            effects.push(ConventionEffect::ClaimIdentity(copy_signal(&signal)));
        }
        let ghost with_claims = effect_views(effects@);
        effects.push(ConventionEffect::RecordSignal(signal));
        let b = EffectBatch { effects };
        proof {
            assert(b@ =~= recognized_effects(signal@));
        }
        b
    }

    /// The effects in order.
    pub fn effects(&self) -> (e: &Vec<ConventionEffect>)
        ensures
            effect_views(e@) == self@,
    {
        &self.effects
    }
}

/// The journal as plain values: the recorded signals and the current facts.
pub struct JournalView {
    pub signals: Seq<SignalView>,
    pub facts: FactsView,
}

/// Append-only explanations paired with incrementally maintained current
/// convention truth. Consumers may inspect the explanation history, but only
/// the reducer can append to it or change materialized facts.
#[derive(Clone, Debug)]
pub struct ConventionJournal {
    signals: SignalHistory,
    facts: ConventionFacts,
}

impl View for ConventionJournal {
    type V = JournalView;

    closed spec fn view(&self) -> JournalView {
        JournalView { signals: self.signals@, facts: self.facts@ }
    }
}

impl ConventionJournal {
    /// The facts are well formed.
    pub closed spec fn wf(&self) -> bool {
        self.facts.wf()
    }

    /// A well-formed journal has one fact entry per card slot.
    pub proof fn lemma_journal_shape(&self)
        requires
            self.wf(),
        ensures
            crate::h_group::facts::facts_shape(self@.facts),
    {
        self.facts.lemma_shape();
    }

    /// An empty journal.
    pub fn new() -> (j: Self)
        ensures
            j.wf(),
            j@ == (JournalView { signals: Seq::empty(), facts: initial_facts() }),
    {
        ConventionJournal { signals: SignalHistory::new(), facts: ConventionFacts::new() }
    }

    /// The current facts.
    pub fn facts(&self) -> (f: &ConventionFacts)
        ensures
            f@ == self@.facts,
    {
        &self.facts
    }

    /// The history and the facts.
    pub fn into_parts(self) -> (p: (SignalHistory, ConventionFacts))
        ensures
            p.0@ == self@.signals,
            p.1@ == self@.facts,
    {
        (self.signals, self.facts)
    }

    /// Number of recorded signals.
    pub fn len(&self) -> (n: usize)
        ensures
            n == self@.signals.len(),
    {
        self.signals.len()
    }

    /// The recorded history.
    pub fn history(&self) -> (h: &SignalHistory)
        ensures
            h@ == self@.signals,
    {
        &self.signals
    }
}

impl Default for ConventionJournal {
    fn default() -> (j: Self)
        ensures
            j.wf(),
            j@ == (JournalView { signals: Seq::empty(), facts: initial_facts() }),
    {
        ConventionJournal::new()
    }
}

/// The same record: same turn, actor, kind and cards.
pub open spec fn same_record(a: SignalView, b: SignalView) -> bool {
    &&& a.turn == b.turn
    &&& a.actor == b.actor
    &&& a.kind == b.kind
    &&& a.cards == b.cards
}

/// The history after recording `s`, unless an equal record exists.
pub open spec fn recorded(signals: Seq<SignalView>, s: SignalView) -> Seq<SignalView> {
    if exists|k: int| 0 <= k < signals.len() && same_record(#[trigger] signals[k], s) {
        signals
    } else {
        signals.push(s)
    }
}

/// The journal after one effect.
pub open spec fn after_effect(j: JournalView, e: EffectView) -> JournalView {
    match e {
        EffectView::RecordSignal(s) => JournalView { signals: recorded(j.signals, s), ..j },
        EffectView::SetFixed(cards, fixed) => JournalView {
            facts: FactsView { fixed: with_cards(j.facts.fixed, cards, fixed), ..j.facts },
            ..j
        },
        EffectView::SetPriority(cards, active) => JournalView {
            facts: FactsView { priority: with_cards(j.facts.priority, cards, active), ..j.facts },
            ..j
        },
        EffectView::ClaimIdentity(s) => JournalView { facts: after_identity_effect(j.facts, s), ..j },
    }
}

/// The journal after a sequence of effects, in order.
pub open spec fn after_effects(j: JournalView, effects: Seq<EffectView>) -> JournalView
    decreases effects.len(),
{
    if effects.len() == 0 {
        j
    } else {
        after_effect(after_effects(j, effects.drop_last()), effects.last())
    }
}

/// The only writer of the journal.
pub struct ConventionReducer;

impl ConventionReducer {
    /// Applies the effects of `batch` to the journal in order.
    pub fn apply(batch: EffectBatch, journal: &mut ConventionJournal)
        requires
            old(journal).wf(),
            forall|k: int| 0 <= k < batch@.len() ==> effect_in_range(#[trigger] batch@[k]),
        ensures
            final(journal).wf(),
            final(journal)@ == after_effects(old(journal)@, batch@),
    {
        let ghost effects = batch@;
        let mut i: usize = 0;
        while i < batch.effects.len()
            invariant
                i <= batch.effects@.len(),
                effects == effect_views(batch.effects@),
                forall|k: int| 0 <= k < effects.len() ==> effect_in_range(#[trigger] effects[k]),
                journal.wf(),
                journal@ == after_effects(old(journal)@, effects.take(i as int)),
            decreases batch.effects@.len() - i,
        {
            proof {
                assert(effects.take(i + 1).drop_last() =~= effects.take(i as int));
                assert(effects.take(i + 1).last() == batch.effects@[i as int]@);
                assert(effect_in_range(effects[i as int]));
            }
            match &batch.effects[i] {
                ConventionEffect::SetFixed { cards, fixed } => {
                    journal.facts.set_fixed(cards, *fixed);
                },
                ConventionEffect::SetPriority { cards, active } => {
                    journal.facts.set_priority(cards, *active);
                },
                ConventionEffect::ClaimIdentity(signal) => {
                    journal.facts.apply_identity_effect(signal);
                },
                ConventionEffect::RecordSignal(signal) => {
                    let mut duplicate = false;
                    let mut k: usize = 0;
                    let history = &journal.signals.signals;
                    while k < history.len()
                        invariant
                            k <= history@.len(),
                            duplicate == exists|m: int| 0 <= m < k && same_record(#[trigger] history_views(history@)[m], signal@),
                        decreases history@.len() - k,
                    {
                        let existing = &history[k];
                        if existing.turn == signal.turn && existing.actor == signal.actor && existing.kind == signal.kind
                            && same_ids(&existing.cards, &signal.cards) {
                            proof {
                                assert(same_record(history_views(history@)[k as int], signal@));
                            }
                            duplicate = true;
                        }
                        proof {
                            if !duplicate {
                                assert(!same_record(history_views(history@)[k as int], signal@));
                            }
                        }
                        k = k + 1;
                    }
                    if !duplicate {
                        journal.signals.push(copy_signal(signal));
                    }
                },
            }
            i = i + 1;
        }
        proof {
            assert(effects.take(i as int) =~= effects);
        }
    }
}

/// Records a recognized convention move made at `turn` through the reducer.
pub fn push_signal(
    signals: &mut ConventionJournal,
    turn: u32,
    actor: crate::cards::PlayerId,
    target: Option<crate::cards::PlayerId>,
    kind: HGroupMoveKind,
    cards: Vec<CardId>,
    identity: Option<crate::cards::Card>,
)
    requires
        old(signals).wf(),
        cards_in_range(cards@),
    ensures
        final(signals).wf(),
        final(signals)@ == after_effects(
            old(signals)@,
            recognized_effects(SignalView { turn, actor, target, kind, cards: cards@, identity }),
        ),
{
    let signal = HGroupSignal { turn, actor, target, kind, cards, identity };
    let batch = EffectBatch::recognized(signal);
    ConventionReducer::apply(batch, signals);
}

/// The effects of a recognized signal update the facts as the signal does
/// and record it once.
pub proof fn lemma_recognized_effects(j: JournalView, s: SignalView)
    ensures
        after_effects(j, recognized_effects(s)) == (JournalView {
            signals: recorded(j.signals, s),
            facts: after_signal(j.facts, s),
        }),
{
    let es = recognized_effects(s);
    let marks: Seq<EffectView> = if s.kind == HGroupMoveKind::FixClue {
        seq![EffectView::SetFixed(s.cards, true)]
    } else if s.kind == HGroupMoveKind::PlayClue {
        seq![EffectView::SetFixed(s.cards, false)]
    } else if s.kind == HGroupMoveKind::Priority {
        seq![EffectView::SetPriority(s.cards, true)]
    } else if s.kind == HGroupMoveKind::Retraction {
        seq![EffectView::SetPriority(s.cards, false)]
    } else {
        Seq::empty()
    };
    let claims: Seq<EffectView> = if s.identity is Some {
        seq![EffectView::ClaimIdentity(s)]
    } else {
        Seq::empty()
    };
    assert(es == marks + claims + seq![EffectView::RecordSignal(s)]);
    let j1 = after_effects(j, marks);
    if marks.len() == 1 {
        assert(marks.drop_last() =~= Seq::<EffectView>::empty());
        assert(after_effects(j, marks.drop_last()) == j);
        assert(j1 == after_effect(j, marks[0]));
        assert(j1.facts.fixed =~= crate::h_group::facts::after_marks(j.facts, s).fixed);
        assert(j1.facts.priority =~= crate::h_group::facts::after_marks(j.facts, s).priority);
    } else {
        assert(j1 == j);
    }
    assert(j1.signals == j.signals);
    assert(j1.facts == crate::h_group::facts::after_marks(j.facts, s));
    let mc = marks + claims;
    let j2 = after_effects(j, mc);
    if claims.len() == 1 {
        assert(mc.drop_last() =~= marks);
        assert(mc.last() == EffectView::ClaimIdentity(s));
    } else {
        assert(mc =~= marks);
    }
    assert(j2.signals == j.signals);
    assert(j2.facts == after_signal(j.facts, s));
    assert(es.drop_last() =~= mc);
    assert(es.last() == EffectView::RecordSignal(s));
}

/// Reducing the effects of the same recognized signal twice leaves the same
/// journal as reducing them once.
pub proof fn lemma_reducer_idempotent(j: JournalView, s: SignalView)
    requires
        crate::h_group::facts::facts_shape(j.facts),
    ensures
        after_effects(after_effects(j, recognized_effects(s)), recognized_effects(s)) == after_effects(
            j,
            recognized_effects(s),
        ),
{
    let once = after_effects(j, recognized_effects(s));
    lemma_recognized_effects(j, s);
    lemma_recognized_effects(once, s);
    lemma_apply_signal_idempotent(j.facts, s);
    let signals = recorded(j.signals, s);
    assert(exists|k: int| 0 <= k < signals.len() && same_record(#[trigger] signals[k], s)) by {
        if exists|k: int| 0 <= k < j.signals.len() && same_record(#[trigger] j.signals[k], s) {
            let k = choose|k: int| 0 <= k < j.signals.len() && same_record(#[trigger] j.signals[k], s);
            assert(same_record(signals[k], s));
        } else {
            assert(same_record(signals[signals.len() - 1], s));
        }
    }
    assert(recorded(signals, s) == signals);
}

/// For any well-formed journal, reducing the effects of the same recognized
/// signal twice leaves the same journal as reducing them once.
pub proof fn lemma_journal_reducer_idempotent(journal: &ConventionJournal, s: SignalView)
    requires
        journal.wf(),
    ensures
        after_effects(after_effects(journal@, recognized_effects(s)), recognized_effects(s))
            == after_effects(journal@, recognized_effects(s)),
{
    journal.lemma_journal_shape();
    lemma_reducer_idempotent(journal@, s);
}

} // verus!
