//! The lifecycle of Prompt and Finesse connection promises.

use vstd::prelude::*;

use crate::cards::{Card, CardId, PlayerId};
use crate::h_group::facts::copy_ids;

verus! {

/// The two families of connection a clue can promise.
#[derive(Clone, Copy, Debug, PartialEq, Eq, Structural, Hash)]
pub enum HGroupConnectionKind {
    Prompt,
    Finesse,
}

/// Stable identity for one concrete connection promise lifecycle.
#[derive(Clone, Copy, Debug, PartialEq, Eq, Structural, Hash)]
pub struct PromiseId(pub u32);

impl PromiseId {
    /// The placeholder of a promise the manager has not numbered yet.
    pub fn unassigned() -> (p: PromiseId)
        ensures
            p == PromiseId(u32::MAX),
    {
        PromiseId(u32::MAX)
    }

    pub fn from_raw(value: u32) -> (p: PromiseId)
        ensures
            p == PromiseId(value),
    {
        PromiseId(value)
    }
}

/// Immutable origin of a connection promise. Current status lives in the
/// manager; provenance survives completion and invalidation for explanation.
#[derive(Clone, Copy, Debug, PartialEq, Eq, Structural, Hash)]
pub struct PromiseProvenance {
    pub id: PromiseId,
    pub created_turn: u32,
    pub actor: PlayerId,
    pub focus: CardId,
    pub expected: Card,
    pub kind: HGroupConnectionKind,
}

/// One active, typed step in a Prompt or Finesse chain.
#[derive(Clone, Debug, PartialEq, Eq)]
pub struct ConnectionObligation {
    pub promise: PromiseId,
    pub actor: PlayerId,
    pub cards: Vec<CardId>,
    pub expected: Card,
    /// Identity ultimately promised for `focus`.
    pub focus_identity: Card,
    pub kind: HGroupConnectionKind,
    pub focus: CardId,
    /// Zero-based position in a multi-connection chain.
    pub step: u8,
}

/// An obligation as plain values.
pub struct ObligationView {
    pub promise: PromiseId,
    pub actor: PlayerId,
    pub cards: Seq<CardId>,
    pub expected: Card,
    pub focus_identity: Card,
    pub kind: HGroupConnectionKind,
    pub focus: CardId,
    pub step: u8,
}

impl View for ConnectionObligation {
    type V = ObligationView;

    open spec fn view(&self) -> ObligationView {
        ObligationView {
            promise: self.promise,
            actor: self.actor,
            cards: self.cards@,
            expected: self.expected,
            focus_identity: self.focus_identity,
            kind: self.kind,
            focus: self.focus,
            step: self.step,
        }
    }
}

/// The obligations as plain values.
pub open spec fn obligation_views(obligations: Seq<ConnectionObligation>) -> Seq<ObligationView> {
    obligations.map_values(|o: ConnectionObligation| o@)
}

/// A copy of `obligation`.
pub fn copy_obligation(obligation: &ConnectionObligation) -> (r: ConnectionObligation)
    ensures
        r@ == obligation@,
{
    ConnectionObligation {
        promise: obligation.promise,
        actor: obligation.actor,
        cards: copy_ids(&obligation.cards),
        expected: obligation.expected,
        focus_identity: obligation.focus_identity,
        kind: obligation.kind,
        focus: obligation.focus,
        step: obligation.step,
    }
}

#[derive(Clone, Copy, Debug, PartialEq, Eq, Structural, Hash)]
pub enum ConnectionStatus {
    Pending,
    AwaitingFix,
    Satisfied,
    Invalidated,
    Cancelled,
}

#[derive(Clone, Copy, Debug, PartialEq, Eq, Structural, Hash)]
pub enum ConnectionTransitionReason {
    Scheduled,
    PlayedExpectedCard,
    PlayedAlternative,
    Misplayed,
    Fixed,
    DisplacedByClue,
    Superseded,
    FocusInvalidated,
    IdentitySatisfiedElsewhere,
    IdentityRevealed,
    LayerExtended,
}

/// Auditable lifecycle event for a connection. These records explain current
/// state; they are not themselves queried as current convention facts.
#[derive(Clone, Copy, Debug, PartialEq, Eq, Structural, Hash)]
pub struct ConnectionTransition {
    pub promise: PromiseId,
    pub turn: u32,
    pub focus: CardId,
    pub actor: PlayerId,
    pub expected: Card,
    pub focus_identity: Card,
    pub from: ConnectionStatus,
    pub to: ConnectionStatus,
    pub reason: ConnectionTransitionReason,
}

/// What a play did to the connections: the foci whose promise failed and
/// the candidates released by completed promises.
#[derive(Clone, Debug, PartialEq, Eq)]
pub struct ConnectionAdvance {
    pub failed_focuses: Vec<CardId>,
    pub released_candidates: Vec<CardId>,
}

/// The transition recorded for `o`.
pub open spec fn transition_of(
    turn: u32,
    o: ObligationView,
    from: ConnectionStatus,
    to: ConnectionStatus,
    reason: ConnectionTransitionReason,
) -> ConnectionTransition {
    ConnectionTransition {
        promise: o.promise,
        turn,
        focus: o.focus,
        actor: o.actor,
        expected: o.expected,
        focus_identity: o.focus_identity,
        from,
        to,
        reason,
    }
}

/// The status a cancellation for `reason` leaves.
pub open spec fn cancelled_status(reason: ConnectionTransitionReason) -> ConnectionStatus {
    if reason == ConnectionTransitionReason::FocusInvalidated {
        ConnectionStatus::Invalidated
    } else if reason == ConnectionTransitionReason::Fixed {
        ConnectionStatus::AwaitingFix
    } else {
        ConnectionStatus::Cancelled
    }
}

/// The obligations not marked in `cancel`.
pub open spec fn retained(active: Seq<ObligationView>, cancel: Seq<bool>) -> Seq<ObligationView>
    decreases active.len(),
{
    if active.len() == 0 {
        Seq::empty()
    } else {
        let rest = retained(active.drop_last(), cancel);
        if cancel[active.len() - 1] {
            rest
        } else {
            rest.push(active.last())
        }
    }
}

/// One transition from `from` to `to` for each marked obligation, in order.
pub open spec fn marked_transitions(
    active: Seq<ObligationView>,
    marks: Seq<bool>,
    turn: u32,
    from: ConnectionStatus,
    to: ConnectionStatus,
    reason: ConnectionTransitionReason,
) -> Seq<ConnectionTransition>
    decreases active.len(),
{
    if active.len() == 0 {
        Seq::empty()
    } else {
        let rest = marked_transitions(active.drop_last(), marks, turn, from, to, reason);
        if marks[active.len() - 1] {
            rest.push(transition_of(turn, active.last(), from, to, reason))
        } else {
            rest
        }
    }
}

/// The transitions recording the cancellation of the marked obligations.
pub open spec fn cancellations(
    active: Seq<ObligationView>,
    cancel: Seq<bool>,
    turn: u32,
    reason: ConnectionTransitionReason,
) -> Seq<ConnectionTransition> {
    marked_transitions(active, cancel, turn, ConnectionStatus::Pending, cancelled_status(reason), reason)
}

/// The manager as plain values.
pub struct ManagerView {
    pub active: Seq<ObligationView>,
    pub transitions: Seq<ConnectionTransition>,
    pub provenance: Seq<PromiseProvenance>,
    pub next_promise: u32,
}

/// Whether `a` and `b` describe the same obligation, ignoring the promise
/// number.
pub open spec fn same_duty(a: ObligationView, b: ObligationView) -> bool {
    &&& a.actor == b.actor
    &&& a.cards == b.cards
    &&& a.expected == b.expected
    &&& a.focus_identity == b.focus_identity
    &&& a.kind == b.kind
    &&& a.focus == b.focus
    &&& a.step == b.step
}

/// Whether `a` is the same step of the same focus for the same actor as `b`.
pub open spec fn same_step(a: ObligationView, b: ObligationView) -> bool {
    a.actor == b.actor && a.focus == b.focus && a.step == b.step
}

/// The position of the first active obligation with the duty of `o`.
pub open spec fn first_same_duty(active: Seq<ObligationView>, o: ObligationView) -> int {
    choose|k: int|
        0 <= k < active.len() && same_duty(active[k], o) && forall|j: int|
            0 <= j < k ==> !same_duty(#[trigger] active[j], o)
}

/// The manager after starting `o` at `turn` when no active obligation has
/// its duty: the promise takes the next number, its provenance is recorded,
/// active obligations for the same step are superseded, the scheduling is
/// recorded and the obligation becomes active.
pub open spec fn started(m: ManagerView, turn: u32, o: ObligationView) -> ManagerView {
    let id = PromiseId(m.next_promise);
    let numbered = ObligationView { promise: id, ..o };
    let cancel = Seq::new(m.active.len(), |k: int| same_step(m.active[k], numbered));
    ManagerView {
        active: retained(m.active, cancel).push(numbered),
        transitions: m.transitions + cancellations(
            m.active,
            cancel,
            turn,
            ConnectionTransitionReason::Superseded,
        ) + seq![
            transition_of(
                turn,
                numbered,
                ConnectionStatus::Pending,
                ConnectionStatus::Pending,
                ConnectionTransitionReason::Scheduled,
            ),
        ],
        provenance: m.provenance.push(
            PromiseProvenance {
                id,
                created_turn: turn,
                actor: o.actor,
                focus: o.focus,
                expected: o.expected,
                kind: o.kind,
            },
        ),
        next_promise: if m.next_promise < u32::MAX {
            (m.next_promise + 1) as u32
        } else {
            u32::MAX
        },
    }
}

/// Canonical owner of every live Prompt/Finesse obligation.
///
/// Callers can read the active obligations for recognition, but all
/// mutation goes through lifecycle methods so removal and advancement are
/// recorded once.
#[derive(Clone, Debug)]
pub struct ConnectionManager {
    active: Vec<ConnectionObligation>,
    transitions: Vec<ConnectionTransition>,
    provenance: Vec<PromiseProvenance>,
    next_promise: u32,
}

impl View for ConnectionManager {
    type V = ManagerView;

    closed spec fn view(&self) -> ManagerView {
        ManagerView {
            active: obligation_views(self.active@),
            transitions: self.transitions@,
            provenance: self.provenance@,
            next_promise: self.next_promise,
        }
    }
}

impl ConnectionManager {
    /// No obligation, no history.
    pub fn new() -> (m: Self)
        ensures
            m@ == (ManagerView {
                active: Seq::empty(),
                transitions: Seq::empty(),
                provenance: Seq::empty(),
                next_promise: 0,
            }),
            valid_manager(m@),
    {
        let m = ConnectionManager {
            active: Vec::new(),
            transitions: Vec::new(),
            provenance: Vec::new(),
            next_promise: 0,
        };
        proof {
            assert(m@.active =~= Seq::<ObligationView>::empty());
            lemma_new_manager_valid();
        }
        m
    }

    /// The live obligations.
    pub fn active(&self) -> (a: &Vec<ConnectionObligation>)
        ensures
            obligation_views(a@) == self@.active,
    {
        &self.active
    }

    /// Number of live obligations.
    pub fn len(&self) -> (n: usize)
        ensures
            n == self@.active.len(),
    {
        self.active.len()
    }

    /// Whether no obligation is live.
    pub fn is_empty(&self) -> (b: bool)
        ensures
            b == (self@.active.len() == 0),
    {
        self.active.len() == 0
    }

    /// The recorded lifecycle events, oldest first.
    pub fn transitions(&self) -> (t: &Vec<ConnectionTransition>)
        ensures
            t@ == self@.transitions,
    {
        &self.transitions
    }

    fn record(
        &mut self,
        turn: u32,
        obligation: &ConnectionObligation,
        from: ConnectionStatus,
        to: ConnectionStatus,
        reason: ConnectionTransitionReason,
    )
        ensures
            final(self)@ == (ManagerView {
                transitions: old(self)@.transitions.push(transition_of(turn, obligation@, from, to, reason)),
                ..old(self)@
            }),
    {
        self.transitions.push(
            ConnectionTransition {
                promise: obligation.promise,
                turn,
                focus: obligation.focus,
                actor: obligation.actor,
                expected: obligation.expected,
                focus_identity: obligation.focus_identity,
                from,
                to,
                reason,
            },
        );
    }

    /// Cancels the obligations marked in `cancel`, recording each
    /// cancellation with the status `reason` leaves.
    pub fn cancel_where(&mut self, turn: u32, reason: ConnectionTransitionReason, cancel: &Vec<bool>)
        requires
            cancel@.len() == old(self)@.active.len(),
        ensures
            final(self)@ == (ManagerView {
                active: retained(old(self)@.active, cancel@),
                transitions: old(self)@.transitions + cancellations(old(self)@.active, cancel@, turn, reason),
                ..old(self)@
            }),
            valid_manager(old(self)@) ==> valid_manager(final(self)@),
            final(self)@ == after_cancel_where(old(self)@, turn, reason, cancel@),
    {
        let status = if reason == ConnectionTransitionReason::FocusInvalidated {
            ConnectionStatus::Invalidated
        } else if reason == ConnectionTransitionReason::Fixed {
            ConnectionStatus::AwaitingFix
        } else {
            ConnectionStatus::Cancelled
        };
        let ghost start = self@;
        let mut kept: Vec<ConnectionObligation> = Vec::new();
        let mut i: usize = 0;
        while i < self.active.len()
            invariant
                i <= self.active@.len(),
                cancel@.len() == self.active@.len(),
                obligation_views(self.active@) == start.active,
                self.provenance@ == start.provenance,
                self.next_promise == start.next_promise,
                status == cancelled_status(reason),
                obligation_views(kept@) == retained(start.active.take(i as int), cancel@),
                self.transitions@ == start.transitions + cancellations(start.active.take(i as int), cancel@, turn, reason),
            decreases self.active@.len() - i,
        {
            proof {
                assert(start.active.take(i + 1).drop_last() =~= start.active.take(i as int));
                assert(start.active.take(i + 1).last() == self.active@[i as int]@);
            }
            if cancel[i] {
                let o = &self.active[i];
                self.transitions.push(
                    ConnectionTransition {
                        promise: o.promise,
                        turn,
                        focus: o.focus,
                        actor: o.actor,
                        expected: o.expected,
                        focus_identity: o.focus_identity,
                        from: ConnectionStatus::Pending,
                        to: status,
                        reason,
                    },
                );
            } else {
                let ghost before = kept@;
                kept.push(copy_obligation(&self.active[i]));
                proof {
                    assert(obligation_views(kept@) =~= obligation_views(before).push(self.active@[i as int]@));
                }
            }
            i = i + 1;
        }
        proof {
            assert(start.active.take(i as int) =~= start.active);
            if valid_manager(start) {
                lemma_cancel_where_valid(start, cancel@, turn, reason);
            }
        }
        self.active = kept;
    }

    /// Schedules `obligation` at `turn` and returns its promise. An active
    /// obligation with the same duty is kept and its promise returned;
    /// otherwise the obligation replaces any live interpretation of the same
    /// step, so action selection never sees contradictory duties.
    pub fn start(&mut self, turn: u32, obligation: ConnectionObligation) -> (p: PromiseId)
        ensures
            (exists|k: int| 0 <= k < old(self)@.active.len() && same_duty(#[trigger] old(self)@.active[k], obligation@))
                ==> final(self)@ == old(self)@ && p == old(self)@.active[first_same_duty(old(self)@.active, obligation@)].promise,
            !(exists|k: int| 0 <= k < old(self)@.active.len() && same_duty(#[trigger] old(self)@.active[k], obligation@))
                ==> final(self)@ == started(old(self)@, turn, obligation@) && p == PromiseId(old(self)@.next_promise),
            valid_manager(old(self)@) && obligation@.cards.len() > 0 ==> valid_manager(final(self)@),
            final(self)@ == after_start(old(self)@, turn, obligation@),
    {
        let mut i: usize = 0;
        while i < self.active.len()
            invariant
                i <= self.active@.len(),
                forall|j: int| 0 <= j < i ==> !same_duty(#[trigger] self@.active[j], obligation@),
            decreases self.active@.len() - i,
        {
            let a = &self.active[i];
            if a.actor == obligation.actor && crate::h_group::facts::same_ids(&a.cards, &obligation.cards)
                && a.expected == obligation.expected && a.focus_identity == obligation.focus_identity
                && a.kind == obligation.kind && a.focus == obligation.focus && a.step == obligation.step {
                proof {
                    assert(same_duty(self@.active[i as int], obligation@));
                    let f = first_same_duty(self@.active, obligation@);
                    assert(f == i as int) by {
                        if f != i as int {
                            if f < i {
                                assert(!same_duty(self@.active[f], obligation@));
                            } else {
                                assert(!same_duty(self@.active[i as int], obligation@));
                            }
                        }
                    }
                }
                return a.promise;
            }
            i = i + 1;
        }
        let ghost start = self@;
        let mut obligation = obligation;
        obligation.promise = PromiseId(self.next_promise);
        self.next_promise = self.next_promise.saturating_add(1);
        self.provenance.push(
            PromiseProvenance {
                id: obligation.promise,
                created_turn: turn,
                actor: obligation.actor,
                focus: obligation.focus,
                expected: obligation.expected,
                kind: obligation.kind,
            },
        );
        let ghost numbered = obligation@;
        let mut cancel: Vec<bool> = Vec::new();
        let mut k: usize = 0;
        while k < self.active.len()
            invariant
                k <= self.active@.len(),
                cancel@ == Seq::new(k as nat, |j: int| same_step(self@.active[j], numbered)),
                numbered == obligation@,
            decreases self.active@.len() - k,
        {
            let a = &self.active[k];
            cancel.push(a.actor == obligation.actor && a.focus == obligation.focus && a.step == obligation.step);
            k = k + 1;
            proof {
                assert(cancel@ =~= Seq::new(k as nat, |j: int| same_step(self@.active[j], numbered)));
            }
        }
        self.cancel_where(turn, ConnectionTransitionReason::Superseded, &cancel);
        self.record(
            turn,
            &obligation,
            ConnectionStatus::Pending,
            ConnectionStatus::Pending,
            ConnectionTransitionReason::Scheduled,
        );
        let promise = obligation.promise;
        let ghost before_push = self.active@;
        self.active.push(obligation);
        proof {
            assert(obligation_views(self.active@) =~= obligation_views(before_push).push(numbered));
            assert(self@.transitions =~= started(start, turn, numbered).transitions);
            assert(self@ == started(start, turn, numbered));
            if valid_manager(start) && numbered.cards.len() > 0 {
                lemma_start_valid(start, turn, numbered);
            }
        }
        promise
    }
}

/// `cards` without any copy of `card`.
pub open spec fn without_card(cards: Seq<CardId>, card: CardId) -> Seq<CardId>
    decreases cards.len(),
{
    if cards.len() == 0 {
        Seq::empty()
    } else {
        let rest = without_card(cards.drop_last(), card);
        if cards.last() == card {
            rest
        } else {
            rest.push(cards.last())
        }
    }
}

/// The cards of `cards` that are not in `removed`, in order.
pub open spec fn keep_cards(cards: Seq<CardId>, removed: Seq<CardId>) -> Seq<CardId>
    decreases cards.len(),
{
    if cards.len() == 0 {
        Seq::empty()
    } else {
        let rest = keep_cards(cards.drop_last(), removed);
        if removed.contains(cards.last()) {
            rest
        } else {
            rest.push(cards.last())
        }
    }
}

/// `o` with its candidates replaced by `cards`.
pub open spec fn with_candidates(o: ObligationView, cards: Seq<CardId>) -> ObligationView {
    ObligationView { cards, ..o }
}

/// `cards` without any copy of `card`.
fn drop_card(cards: &Vec<CardId>, card: CardId) -> (r: Vec<CardId>)
    ensures
        r@ == without_card(cards@, card),
{
    let mut r: Vec<CardId> = Vec::new();
    let mut i: usize = 0;
    while i < cards.len()
        invariant
            i <= cards@.len(),
            r@ == without_card(cards@.take(i as int), card),
        decreases cards@.len() - i,
    {
        proof {
            assert(cards@.take(i + 1).drop_last() =~= cards@.take(i as int));
        }
        if cards[i] != card {
            r.push(cards[i]);
        }
        i = i + 1;
    }
    proof {
        assert(cards@.take(i as int) =~= cards@);
    }
    r
}

/// The cards of `cards` not listed in `removed`.
fn keep_unlisted(cards: &Vec<CardId>, removed: &Vec<CardId>) -> (r: Vec<CardId>)
    ensures
        r@ == keep_cards(cards@, removed@),
{
    let mut r: Vec<CardId> = Vec::new();
    let mut i: usize = 0;
    while i < cards.len()
        invariant
            i <= cards@.len(),
            r@ == keep_cards(cards@.take(i as int), removed@),
        decreases cards@.len() - i,
    {
        proof {
            assert(cards@.take(i + 1).drop_last() =~= cards@.take(i as int));
        }
        if !crate::h_group::hand::list_contains(removed.as_slice(), cards[i]) {
            r.push(cards[i]);
        }
        i = i + 1;
    }
    proof {
        assert(cards@.take(i as int) =~= cards@);
    }
    r
}

/// `obligation` with its candidates replaced by `cards`.
fn replace_candidates(obligation: &ConnectionObligation, cards: Vec<CardId>) -> (r: ConnectionObligation)
    ensures
        r@ == with_candidates(obligation@, cards@),
{
    ConnectionObligation {
        promise: obligation.promise,
        actor: obligation.actor,
        cards,
        expected: obligation.expected,
        focus_identity: obligation.focus_identity,
        kind: obligation.kind,
        focus: obligation.focus,
        step: obligation.step,
    }
}

/// The obligations after `player` discarded `card`: the card leaves the
/// candidates of the player's obligations, and an obligation whose next
/// candidate it was loses every candidate.
pub open spec fn discard_candidates(active: Seq<ObligationView>, player: PlayerId, card: CardId) -> Seq<ObligationView> {
    Seq::new(
        active.len(),
        |i: int|
            if active[i].actor != player {
                active[i]
            } else if active[i].cards.len() > 0 && active[i].cards[0] == card {
                with_candidates(active[i], Seq::empty())
            } else {
                with_candidates(active[i], without_card(active[i].cards, card))
            },
    )
}

/// Obligations that lost every candidate, or whose focus is `card`.
pub open spec fn exhausted_or_focus(active: Seq<ObligationView>, card: Option<CardId>) -> Seq<bool> {
    Seq::new(active.len(), |i: int| active[i].cards.len() == 0 || Some(active[i].focus) == card)
}

/// The obligations of `actor` that an identity revelation narrows.
pub open spec fn narrowed_by(active: Seq<ObligationView>, actor: PlayerId, card: CardId, identity: Card) -> Seq<bool> {
    Seq::new(
        active.len(),
        |i: int| active[i].actor == actor && active[i].expected != identity && active[i].cards.contains(card),
    )
}

/// The obligations after dropping `card` from those marked in `narrowed`.
pub open spec fn narrowed_candidates(active: Seq<ObligationView>, narrowed: Seq<bool>, card: CardId) -> Seq<ObligationView> {
    Seq::new(
        active.len(),
        |i: int|
            if narrowed[i] {
                with_candidates(active[i], without_card(active[i].cards, card))
            } else {
                active[i]
            },
    )
}

/// Narrowed obligations that still have a candidate.
pub open spec fn still_narrowed(narrowed: Seq<bool>, mid: Seq<ObligationView>) -> Seq<bool> {
    Seq::new(mid.len(), |i: int| narrowed[i] && mid[i].cards.len() > 0)
}

/// The obligations after a Fix for `actor`: the removed candidates leave its
/// obligations, and an obligation left empty takes its replacement, if any.
pub open spec fn repaired_candidates(
    active: Seq<ObligationView>,
    actor: PlayerId,
    removed: Seq<CardId>,
    replacements: Seq<Option<CardId>>,
) -> Seq<ObligationView> {
    Seq::new(
        active.len(),
        |i: int|
            if active[i].actor != actor {
                active[i]
            } else {
                let kept = keep_cards(active[i].cards, removed);
                if kept.len() == 0 && replacements[i] is Some {
                    with_candidates(active[i], seq![replacements[i]->0])
                } else {
                    with_candidates(active[i], kept)
                }
            },
    )
}

/// Obligations of `actor` whose candidates changed and are not empty.
pub open spec fn repaired_marks(active: Seq<ObligationView>, mid: Seq<ObligationView>, actor: PlayerId) -> Seq<bool> {
    Seq::new(
        active.len(),
        |i: int| active[i].actor == actor && mid[i].cards.len() != active[i].cards.len() && mid[i].cards.len() > 0,
    )
}

impl ConnectionManager {
    /// Records one transition from `from` to `to` for each marked
    /// obligation, in order.
    fn record_marked(
        &mut self,
        turn: u32,
        list: &Vec<ConnectionObligation>,
        marks: &Vec<bool>,
        from: ConnectionStatus,
        to: ConnectionStatus,
        reason: ConnectionTransitionReason,
    )
        requires
            marks@.len() == list@.len(),
        ensures
            final(self)@ == (ManagerView {
                transitions: old(self)@.transitions + marked_transitions(obligation_views(list@), marks@, turn, from, to, reason),
                ..old(self)@
            }),
    {
        let ghost start = self@;
        let ghost views = obligation_views(list@);
        let mut i: usize = 0;
        while i < list.len()
            invariant
                i <= list@.len(),
                marks@.len() == list@.len(),
                views == obligation_views(list@),
                self@ == (ManagerView {
                    transitions: start.transitions + marked_transitions(views.take(i as int), marks@, turn, from, to, reason),
                    ..start
                }),
            decreases list@.len() - i,
        {
            proof {
                assert(views.take(i + 1).drop_last() =~= views.take(i as int));
                assert(views.take(i + 1).last() == list@[i as int]@);
            }
            if marks[i] {
                self.record(turn, &list[i], from, to, reason);
                proof {
                    assert(self@.transitions =~= start.transitions + marked_transitions(views.take(i + 1), marks@, turn, from, to, reason));
                }
            }
            i = i + 1;
        }
        proof {
            assert(views.take(i as int) =~= views);
        }
    }

    /// Replaces the active obligations.
    fn set_active(&mut self, active: Vec<ConnectionObligation>)
        ensures
            final(self)@ == (ManagerView { active: obligation_views(active@), ..old(self)@ }),
    {
        self.active = active;
    }

    /// Marks the obligations that lost every candidate, or whose focus is
    /// `card`.
    fn exhausted_marks(&self, card: Option<CardId>) -> (marks: Vec<bool>)
        ensures
            marks@ == exhausted_or_focus(self@.active, card),
    {
        let mut marks: Vec<bool> = Vec::new();
        let mut i: usize = 0;
        while i < self.active.len()
            invariant
                i <= self.active@.len(),
                marks@ == Seq::new(i as nat, |k: int| self@.active[k].cards.len() == 0 || Some(self@.active[k].focus) == card),
            decreases self.active@.len() - i,
        {
            let focus_hit = match card {
                Some(c) => self.active[i].focus == c,
                None => false,
            };
            marks.push(self.active[i].cards.len() == 0 || focus_hit);
            i = i + 1;
            proof {
                assert(marks@ =~= Seq::new(i as nat, |k: int| self@.active[k].cards.len() == 0 || Some(self@.active[k].focus) == card));
            }
        }
        marks
    }

    /// Removes a discarded candidate even when its obligation is blocked by
    /// an earlier step, then invalidates every exhausted or discarded focus.
    pub fn discard(&mut self, turn: u32, player: PlayerId, card: CardId)
        ensures
            ({
                let mid = discard_candidates(old(self)@.active, player, card);
                let cancel = exhausted_or_focus(mid, Some(card));
                final(self)@ == (ManagerView {
                    active: retained(mid, cancel),
                    transitions: old(self)@.transitions + cancellations(mid, cancel, turn, ConnectionTransitionReason::FocusInvalidated),
                    ..old(self)@
                })
            }),
            valid_manager(old(self)@) ==> valid_manager(final(self)@),
            final(self)@ == after_discard(old(self)@, turn, player, card),
    {
        let ghost start = self@;
        let mut mid: Vec<ConnectionObligation> = Vec::new();
        let mut i: usize = 0;
        while i < self.active.len()
            invariant
                i <= self.active@.len(),
                self@ == start,
                obligation_views(mid@) == discard_candidates(start.active, player, card).take(i as int),
            decreases self.active@.len() - i,
        {
            let o = &self.active[i];
            let ghost before = mid@;
            if o.actor != player {
                mid.push(copy_obligation(o));
            } else if o.cards.len() > 0 && o.cards[0] == card {
                mid.push(replace_candidates(o, Vec::new()));
            } else {
                mid.push(replace_candidates(o, drop_card(&o.cards, card)));
            }
            proof {
                assert(obligation_views(mid@) =~= obligation_views(before).push(mid@[i as int]@));
                assert(start.active[i as int] == self.active@[i as int]@);
            }
            i = i + 1;
            proof {
                assert(obligation_views(mid@) =~= discard_candidates(start.active, player, card).take(i as int));
            }
        }
        proof {
            assert(discard_candidates(start.active, player, card).take(i as int) =~= discard_candidates(start.active, player, card));
        }
        self.set_active(mid);
        let cancel = self.exhausted_marks(Some(card));
        self.cancel_where(turn, ConnectionTransitionReason::FocusInvalidated, &cancel);
        proof {
            if valid_manager(start) {
                lemma_discard_valid(start, turn, player, card);
            }
        }
    }

    /// Removes a card from incompatible connection alternatives after public
    /// convention evidence establishes its exact identity. This is distinct
    /// from a Fix: the original clue was not repaired; one branch of its
    /// superposition became impossible.
    pub fn reveal_identity(&mut self, turn: u32, actor: PlayerId, card: CardId, identity: Card)
        ensures
            ({
                let narrowed = narrowed_by(old(self)@.active, actor, card, identity);
                let mid = narrowed_candidates(old(self)@.active, narrowed, card);
                let cancel = exhausted_or_focus(mid, None);
                final(self)@ == (ManagerView {
                    active: retained(mid, cancel),
                    transitions: old(self)@.transitions + marked_transitions(
                        mid,
                        still_narrowed(narrowed, mid),
                        turn,
                        ConnectionStatus::Pending,
                        ConnectionStatus::Pending,
                        ConnectionTransitionReason::IdentityRevealed,
                    ) + cancellations(mid, cancel, turn, ConnectionTransitionReason::IdentityRevealed),
                    ..old(self)@
                })
            }),
            valid_manager(old(self)@) ==> valid_manager(final(self)@),
            final(self)@ == after_reveal_identity(old(self)@, turn, actor, card, identity),
    {
        let ghost start = self@;
        let ghost narrowed = narrowed_by(start.active, actor, card, identity);
        let ghost target = narrowed_candidates(start.active, narrowed, card);
        let mut mid: Vec<ConnectionObligation> = Vec::new();
        let mut marks: Vec<bool> = Vec::new();
        let mut i: usize = 0;
        while i < self.active.len()
            invariant
                i <= self.active@.len(),
                self@ == start,
                narrowed == narrowed_by(start.active, actor, card, identity),
                target == narrowed_candidates(start.active, narrowed, card),
                obligation_views(mid@) == target.take(i as int),
                marks@ == still_narrowed(narrowed, target).take(i as int),
            decreases self.active@.len() - i,
        {
            let o = &self.active[i];
            let ghost before = mid@;
            if o.actor == actor && o.expected != identity && crate::h_group::hand::list_contains(o.cards.as_slice(), card) {
                let cards = drop_card(&o.cards, card);
                let left = cards.len() > 0;
                mid.push(replace_candidates(o, cards));
                marks.push(left);
            } else {
                mid.push(copy_obligation(o));
                marks.push(false);
            }
            proof {
                assert(obligation_views(mid@) =~= obligation_views(before).push(mid@[i as int]@));
                assert(start.active[i as int] == self.active@[i as int]@);
            }
            i = i + 1;
            proof {
                assert(obligation_views(mid@) =~= target.take(i as int));
                assert(marks@ =~= still_narrowed(narrowed, target).take(i as int));
            }
        }
        proof {
            assert(target.take(i as int) =~= target);
            assert(still_narrowed(narrowed, target).take(i as int) =~= still_narrowed(narrowed, target));
        }
        self.record_marked(turn, &mid, &marks, ConnectionStatus::Pending, ConnectionStatus::Pending, ConnectionTransitionReason::IdentityRevealed);
        self.set_active(mid);
        let cancel = self.exhausted_marks(None);
        self.cancel_where(turn, ConnectionTransitionReason::IdentityRevealed, &cancel);
        proof {
            assert(self@.transitions =~= start.transitions + marked_transitions(
                target,
                still_narrowed(narrowed, target),
                turn,
                ConnectionStatus::Pending,
                ConnectionStatus::Pending,
                ConnectionTransitionReason::IdentityRevealed,
            ) + cancellations(target, exhausted_or_focus(target, None), turn, ConnectionTransitionReason::IdentityRevealed));
            if valid_manager(start) {
                lemma_reveal_identity_valid(start, turn, actor, card, identity);
            }
        }
    }

    /// Applies a public Fix to every obligation owned by `actor`: the cards
    /// in `removed` leave its candidates, and an obligation left without
    /// candidates takes the replacement given for its position, if any.
    /// Candidate mutation and lifecycle recording remain atomic.
    pub fn repair_actor(&mut self, turn: u32, actor: PlayerId, removed: &Vec<CardId>, replacements: &Vec<Option<CardId>>)
        requires
            replacements@.len() == old(self)@.active.len(),
        ensures
            ({
                let mid = repaired_candidates(old(self)@.active, actor, removed@, replacements@);
                let cancel = exhausted_or_focus(mid, None);
                final(self)@ == (ManagerView {
                    active: retained(mid, cancel),
                    transitions: old(self)@.transitions + marked_transitions(
                        mid,
                        repaired_marks(old(self)@.active, mid, actor),
                        turn,
                        ConnectionStatus::Pending,
                        ConnectionStatus::Pending,
                        ConnectionTransitionReason::Fixed,
                    ) + cancellations(mid, cancel, turn, ConnectionTransitionReason::Fixed),
                    ..old(self)@
                })
            }),
            valid_manager(old(self)@) ==> valid_manager(final(self)@),
            final(self)@ == after_repair_actor(old(self)@, turn, actor, removed@, replacements@),
    {
        let ghost start = self@;
        let ghost target = repaired_candidates(start.active, actor, removed@, replacements@);
        let ghost target_marks = repaired_marks(start.active, target, actor);
        let mut mid: Vec<ConnectionObligation> = Vec::new();
        let mut marks: Vec<bool> = Vec::new();
        let mut i: usize = 0;
        while i < self.active.len()
            invariant
                i <= self.active@.len(),
                replacements@.len() == self.active@.len(),
                self@ == start,
                target == repaired_candidates(start.active, actor, removed@, replacements@),
                target_marks == repaired_marks(start.active, target, actor),
                obligation_views(mid@) == target.take(i as int),
                marks@ == target_marks.take(i as int),
            decreases self.active@.len() - i,
        {
            let o = &self.active[i];
            let ghost before = mid@;
            if o.actor != actor {
                mid.push(copy_obligation(o));
                marks.push(false);
            } else {
                let before = o.cards.len();
                let mut kept = keep_unlisted(&o.cards, removed);
                if kept.len() == 0 {
                    match replacements[i] {
                        Some(next) => {
                            kept.push(next);
                            proof {
                                assert(kept@ =~= seq![next]);
                            }
                        },
                        None => {},
                    }
                }
                let changed = kept.len() != before && kept.len() > 0;
                mid.push(replace_candidates(o, kept));
                marks.push(changed);
            }
            proof {
                assert(obligation_views(mid@) =~= obligation_views(before).push(mid@[i as int]@));
                assert(start.active[i as int] == self.active@[i as int]@);
            }
            i = i + 1;
            proof {
                assert(obligation_views(mid@) =~= target.take(i as int));
                assert(marks@ =~= target_marks.take(i as int));
            }
        }
        proof {
            assert(target.take(i as int) =~= target);
            assert(target_marks.take(i as int) =~= target_marks);
        }
        self.record_marked(turn, &mid, &marks, ConnectionStatus::Pending, ConnectionStatus::Pending, ConnectionTransitionReason::Fixed);
        self.set_active(mid);
        let cancel = self.exhausted_marks(None);
        self.cancel_where(turn, ConnectionTransitionReason::Fixed, &cancel);
        proof {
            assert(self@.transitions =~= start.transitions + marked_transitions(
                target,
                target_marks,
                turn,
                ConnectionStatus::Pending,
                ConnectionStatus::Pending,
                ConnectionTransitionReason::Fixed,
            ) + cancellations(target, exhausted_or_focus(target, None), turn, ConnectionTransitionReason::Fixed));
            if valid_manager(start) {
                lemma_repair_actor_valid(start, turn, actor, removed@, replacements@);
            }
        }
    }
}

/// Whether an earlier step of the same focus still has candidates.
pub open spec fn blocked(active: Seq<ObligationView>, i: int) -> bool {
    exists|j: int|
        0 <= j < active.len() && (#[trigger] active[j]).focus == active[i].focus && active[j].step
            < active[i].step && active[j].cards.len() > 0
}

/// Whether the play of `card` by `player` is the next candidate of the
/// obligation at `i`, which is `player`'s and not blocked by an earlier step.
pub open spec fn hits(active: Seq<ObligationView>, i: int, player: PlayerId, card: CardId) -> bool {
    &&& active[i].actor == player
    &&& !blocked(active, i)
    &&& active[i].cards.len() > 0
    &&& active[i].cards[0] == card
}

/// Whether that play ends the obligation: it showed the expected identity,
/// or it failed.
pub open spec fn completes(
    active: Seq<ObligationView>,
    i: int,
    player: PlayerId,
    card: CardId,
    identity: Card,
    successful: bool,
) -> bool {
    hits(active, i, player, card) && (identity == active[i].expected || !successful)
}

/// The candidates after the next one.
pub open spec fn later_candidates(o: ObligationView) -> Seq<CardId> {
    o.cards.subrange(1, o.cards.len() as int)
}

/// Whether that play was an alternative that left the obligation without
/// candidates.
pub open spec fn fails(
    active: Seq<ObligationView>,
    i: int,
    player: PlayerId,
    card: CardId,
    identity: Card,
    successful: bool,
) -> bool {
    hits(active, i, player, card) && !completes(active, i, player, card, identity, successful)
        && later_candidates(active[i]).len() == 0
}

/// The transition a hit obligation records.
pub open spec fn advance_transition(
    active: Seq<ObligationView>,
    i: int,
    turn: u32,
    player: PlayerId,
    card: CardId,
    identity: Card,
    successful: bool,
) -> ConnectionTransition {
    let o = active[i];
    if completes(active, i, player, card, identity, successful) {
        if successful {
            transition_of(turn, o, ConnectionStatus::Pending, ConnectionStatus::Satisfied, ConnectionTransitionReason::PlayedExpectedCard)
        } else {
            transition_of(turn, o, ConnectionStatus::Pending, ConnectionStatus::Invalidated, ConnectionTransitionReason::Misplayed)
        }
    } else if later_candidates(o).len() == 0 {
        transition_of(turn, o, ConnectionStatus::Pending, ConnectionStatus::Invalidated, ConnectionTransitionReason::PlayedAlternative)
    } else {
        transition_of(turn, o, ConnectionStatus::Pending, ConnectionStatus::Pending, ConnectionTransitionReason::PlayedAlternative)
    }
}

/// The candidates released by completed obligations among the first `n`.
pub open spec fn released_upto(
    active: Seq<ObligationView>,
    n: int,
    player: PlayerId,
    card: CardId,
    identity: Card,
    successful: bool,
) -> Seq<CardId>
    decreases n,
{
    if n <= 0 {
        Seq::empty()
    } else {
        released_upto(active, n - 1, player, card, identity, successful) + if completes(
            active,
            n - 1,
            player,
            card,
            identity,
            successful,
        ) {
            later_candidates(active[n - 1])
        } else {
            Seq::empty()
        }
    }
}

/// The foci of failed obligations among the first `n`.
pub open spec fn failed_upto(
    active: Seq<ObligationView>,
    n: int,
    player: PlayerId,
    card: CardId,
    identity: Card,
    successful: bool,
) -> Seq<CardId>
    decreases n,
{
    if n <= 0 {
        Seq::empty()
    } else {
        let rest = failed_upto(active, n - 1, player, card, identity, successful);
        if fails(active, n - 1, player, card, identity, successful) {
            rest.push(active[n - 1].focus)
        } else {
            rest
        }
    }
}

/// The transitions of the hit obligations among the first `n`.
pub open spec fn advance_transitions_upto(
    active: Seq<ObligationView>,
    n: int,
    turn: u32,
    player: PlayerId,
    card: CardId,
    identity: Card,
    successful: bool,
) -> Seq<ConnectionTransition>
    decreases n,
{
    if n <= 0 {
        Seq::empty()
    } else {
        let rest = advance_transitions_upto(active, n - 1, turn, player, card, identity, successful);
        if hits(active, n - 1, player, card) {
            rest.push(advance_transition(active, n - 1, turn, player, card, identity, successful))
        } else {
            rest
        }
    }
}

/// The obligations after the play: a completed obligation loses every
/// candidate, every other one loses `card`.
pub open spec fn advanced(
    active: Seq<ObligationView>,
    player: PlayerId,
    card: CardId,
    identity: Card,
    successful: bool,
) -> Seq<ObligationView> {
    Seq::new(
        active.len(),
        |i: int|
            if completes(active, i, player, card, identity, successful) {
                with_candidates(active[i], Seq::empty())
            } else {
                with_candidates(active[i], without_card(active[i].cards, card))
            },
    )
}

/// The obligations the play ends: those without candidates, those whose
/// focus was played, and those whose focus failed.
pub open spec fn ended(mid: Seq<ObligationView>, card: CardId, failed: Seq<CardId>) -> Seq<bool> {
    Seq::new(
        mid.len(),
        |i: int| mid[i].cards.len() == 0 || mid[i].focus == card || failed.contains(mid[i].focus),
    )
}

/// The position of the first active obligation of `promise`.
pub open spec fn first_of_promise(active: Seq<ObligationView>, promise: PromiseId) -> int {
    choose|k: int|
        0 <= k < active.len() && active[k].promise == promise && forall|j: int|
            0 <= j < k ==> (#[trigger] active[j]).promise != promise
}

impl ConnectionManager {
    /// Whether an earlier step of the focus of the obligation at `i` still
    /// has candidates.
    fn is_blocked(&self, i: usize) -> (b: bool)
        requires
            i < self@.active.len(),
        ensures
            b == blocked(self@.active, i as int),
    {
        let mut j: usize = 0;
        while j < self.active.len()
            invariant
                j <= self.active@.len(),
                i < self.active@.len(),
                forall|k: int|
                    0 <= k < j ==> !((#[trigger] self@.active[k]).focus == self@.active[i as int].focus
                        && self@.active[k].step < self@.active[i as int].step && self@.active[k].cards.len() > 0),
            decreases self.active@.len() - j,
        {
            let other = &self.active[j];
            if other.focus == self.active[i].focus && other.step < self.active[i].step && other.cards.len() > 0 {
                proof {
                    assert(self@.active[j as int].focus == self@.active[i as int].focus);
                }
                return true;
            }
            j = j + 1;
        }
        false
    }

    /// Resolves a play of `card` by `player`. Each of the player's unblocked
    /// obligations whose next candidate was played is completed (the
    /// expected identity, or a failed play), demonstrated (a successful
    /// alternative with candidates left) or failed (an alternative that
    /// exhausted it); the card then leaves every candidate list, and
    /// obligations without candidates, on the played focus or on a failed
    /// focus end.
    pub fn advance_play(&mut self, turn: u32, player: PlayerId, card: CardId, identity: Card, successful: bool) -> (r:
        ConnectionAdvance)
        ensures
            ({
                let a = old(self)@.active;
                let n = a.len() as int;
                let mid = advanced(a, player, card, identity, successful);
                let failed = failed_upto(a, n, player, card, identity, successful);
                &&& r.failed_focuses@ == failed
                &&& r.released_candidates@ == released_upto(a, n, player, card, identity, successful)
                &&& final(self)@ == (ManagerView {
                    active: retained(mid, ended(mid, card, failed)),
                    transitions: old(self)@.transitions + advance_transitions_upto(a, n, turn, player, card, identity, successful),
                    ..old(self)@
                })
            }),
            valid_manager(old(self)@) ==> valid_manager(final(self)@),
            final(self)@ == after_advance_play(old(self)@, turn, player, card, identity, successful),
    {
        let ghost start = self@;
        let ghost a = start.active;
        let mut mid: Vec<ConnectionObligation> = Vec::new();
        let mut failed: Vec<CardId> = Vec::new();
        let mut released: Vec<CardId> = Vec::new();
        let mut i: usize = 0;
        while i < self.active.len()
            invariant
                i <= self.active@.len(),
                obligation_views(self.active@) == a,
                self.provenance@ == start.provenance,
                self.next_promise == start.next_promise,
                a == start.active,
                obligation_views(mid@) == advanced(a, player, card, identity, successful).take(i as int),
                failed@ == failed_upto(a, i as int, player, card, identity, successful),
                released@ == released_upto(a, i as int, player, card, identity, successful),
                self.transitions@ == start.transitions + advance_transitions_upto(a, i as int, turn, player, card, identity, successful),
            decreases self.active@.len() - i,
        {
            let ghost before = mid@;
            let o = copy_obligation(&self.active[i]);
            proof {
                assert(a[i as int] == o@);
            }
            let hit = o.actor == player && !self.is_blocked(i) && o.cards.len() > 0 && o.cards[0] == card;
            if hit && (identity == o.expected || !successful) {
                let mut k: usize = 1;
                let ghost r0 = released@;
                while k < o.cards.len()
                    invariant
                        1 <= k <= o.cards@.len(),
                        released@ == r0 + o.cards@.subrange(1, k as int),
                    decreases o.cards@.len() - k,
                {
                    released.push(o.cards[k]);
                    k = k + 1;
                    proof {
                        assert(released@ =~= r0 + o.cards@.subrange(1, k as int));
                    }
                }
                let (to, reason) = if successful {
                    (ConnectionStatus::Satisfied, ConnectionTransitionReason::PlayedExpectedCard)
                } else {
                    (ConnectionStatus::Invalidated, ConnectionTransitionReason::Misplayed)
                };
                self.record(turn, &o, ConnectionStatus::Pending, to, reason);
                mid.push(replace_candidates(&o, Vec::new()));
            } else if hit {
                if o.cards.len() == 1 {
                    failed.push(o.focus);
                    self.record(turn, &o, ConnectionStatus::Pending, ConnectionStatus::Invalidated, ConnectionTransitionReason::PlayedAlternative);
                } else {
                    self.record(turn, &o, ConnectionStatus::Pending, ConnectionStatus::Pending, ConnectionTransitionReason::PlayedAlternative);
                }
                mid.push(replace_candidates(&o, drop_card(&o.cards, card)));
            } else {
                mid.push(replace_candidates(&o, drop_card(&o.cards, card)));
            }
            proof {
                assert(obligation_views(mid@) =~= obligation_views(before).push(mid@[i as int]@));
            }
            i = i + 1;
            proof {
                assert(obligation_views(mid@) =~= advanced(a, player, card, identity, successful).take(i as int));
            }
        }
        proof {
            assert(advanced(a, player, card, identity, successful).take(i as int) =~= advanced(a, player, card, identity, successful));
        }
        self.set_active(mid);
        let mut cancel: Vec<bool> = Vec::new();
        let mut k: usize = 0;
        while k < self.active.len()
            invariant
                k <= self.active@.len(),
                cancel@ == ended(self@.active, card, failed@).take(k as int),
            decreases self.active@.len() - k,
        {
            let o = &self.active[k];
            let end = o.cards.len() == 0 || o.focus == card || crate::h_group::hand::list_contains(failed.as_slice(), o.focus);
            cancel.push(end);
            k = k + 1;
            proof {
                assert(cancel@ =~= ended(self@.active, card, failed@).take(k as int));
            }
        }
        proof {
            assert(ended(self@.active, card, failed@).take(k as int) =~= ended(self@.active, card, failed@));
        }
        let ghost before_cancel = self@;
        let mut kept: Vec<ConnectionObligation> = Vec::new();
        let mut j: usize = 0;
        while j < self.active.len()
            invariant
                j <= self.active@.len(),
                self@ == before_cancel,
                cancel@.len() == self.active@.len(),
                obligation_views(kept@) == retained(before_cancel.active.take(j as int), cancel@),
            decreases self.active@.len() - j,
        {
            proof {
                assert(before_cancel.active.take(j + 1).drop_last() =~= before_cancel.active.take(j as int));
                assert(before_cancel.active.take(j + 1).last() == self.active@[j as int]@);
            }
            if !cancel[j] {
                let ghost b = kept@;
                kept.push(copy_obligation(&self.active[j]));
                proof {
                    assert(obligation_views(kept@) =~= obligation_views(b).push(self.active@[j as int]@));
                }
            }
            j = j + 1;
        }
        proof {
            assert(before_cancel.active.take(j as int) =~= before_cancel.active);
        }
        self.set_active(kept);
        proof {
            if valid_manager(start) {
                lemma_advance_play_valid(start, turn, player, card, identity, successful);
            }
        }
        ConnectionAdvance { failed_focuses: failed, released_candidates: released }
    }

    /// Prepends newly demonstrated blind plays to an existing Finesse.
    ///
    /// A later clue can layer currently playable cards in front of a
    /// connection that was already queued. Keeping that refinement on the
    /// original promise preserves its provenance and makes advancement
    /// release the layers in the order in which they must be played. Layers
    /// already among its candidates are not added again.
    pub fn prepend_layers(&mut self, turn: u32, promise: PromiseId, layers: &Vec<CardId>) -> (r: Option<
        ConnectionObligation,
    >)
        ensures
            !(exists|k: int| 0 <= k < old(self)@.active.len() && (#[trigger] old(self)@.active[k]).promise == promise)
                ==> r is None && final(self)@ == old(self)@,
            (exists|k: int| 0 <= k < old(self)@.active.len() && (#[trigger] old(self)@.active[k]).promise == promise)
                ==> ({
                let p = first_of_promise(old(self)@.active, promise);
                let o = old(self)@.active[p];
                let added = keep_cards(layers@, o.cards);
                if layers@.len() == 0 || added.len() == 0 {
                    r matches Some(c) && c@ == o && final(self)@ == old(self)@
                } else {
                    let updated = with_candidates(o, added + o.cards);
                    &&& r matches Some(c) && c@ == updated
                    &&& final(self)@ == (ManagerView {
                        active: old(self)@.active.update(p, updated),
                        transitions: old(self)@.transitions.push(
                            transition_of(turn, updated, ConnectionStatus::Pending, ConnectionStatus::Pending, ConnectionTransitionReason::LayerExtended),
                        ),
                        ..old(self)@
                    })
                }
            }),
            valid_manager(old(self)@) ==> valid_manager(final(self)@),
            final(self)@ == after_prepend_layers(old(self)@, turn, promise, layers@),
    {
        let mut i: usize = 0;
        while i < self.active.len()
            invariant
                i <= self.active@.len(),
                self@ == old(self)@,
                forall|j: int| 0 <= j < i ==> (#[trigger] self@.active[j]).promise != promise,
            decreases self.active@.len() - i,
        {
            if self.active[i].promise == promise {
                proof {
                    assert(self@.active[i as int].promise == promise);
                    let f = first_of_promise(self@.active, promise);
                    assert(f == i as int) by {
                        if f < i {
                            assert(self@.active[f].promise != promise);
                        } else if f > i {
                            assert(self@.active[i as int].promise != promise);
                        }
                    }
                }
                let added = keep_unlisted(layers, &self.active[i].cards);
                if layers.len() == 0 || added.len() == 0 {
                    return Some(copy_obligation(&self.active[i]));
                }
                let mut cards = added;
                let ghost prefix = cards@;
                let mut k: usize = 0;
                while k < self.active[i].cards.len()
                    invariant
                        i < self.active@.len(),
                        k <= self.active@[i as int].cards@.len(),
                        cards@ == prefix + self.active@[i as int].cards@.take(k as int),
                    decreases self.active@[i as int].cards@.len() - k,
                {
                    cards.push(self.active[i].cards[k]);
                    k = k + 1;
                    proof {
                        assert(cards@ =~= prefix + self.active@[i as int].cards@.take(k as int));
                    }
                }
                proof {
                    assert(self.active@[i as int].cards@.take(k as int) =~= self.active@[i as int].cards@);
                }
                let updated = replace_candidates(&self.active[i], cards);
                let stored = copy_obligation(&updated);
                let ghost before = self.active@;
                self.active.set(i, stored);
                proof {
                    assert(obligation_views(self.active@) =~= obligation_views(before).update(i as int, updated@));
                }
                self.record(turn, &updated, ConnectionStatus::Pending, ConnectionStatus::Pending, ConnectionTransitionReason::LayerExtended);
                proof {
                    if valid_manager(old(self)@) {
                        lemma_prepend_layers_valid(old(self)@, turn, i as int, prefix);
                    }
                }
                return Some(updated);
            }
            i = i + 1;
        }
        None
    }
}

/// The first provenance recorded for `id`.
pub open spec fn find_provenance(provenance: Seq<PromiseProvenance>, id: PromiseId) -> Option<PromiseProvenance>
    decreases provenance.len(),
{
    if provenance.len() == 0 {
        None
    } else {
        let earlier = find_provenance(provenance.drop_last(), id);
        if earlier is Some {
            earlier
        } else if provenance.last().id == id {
            Some(provenance.last())
        } else {
            None
        }
    }
}

/// Whether a transition of `promise` strictly after `turn` shows a
/// successful alternative while the promise stayed pending.
pub open spec fn demonstrated_after(transitions: Seq<ConnectionTransition>, promise: PromiseId, turn: u32) -> bool {
    exists|k: int|
        0 <= k < transitions.len() && {
            let t = #[trigger] transitions[k];
            &&& t.promise == promise
            &&& t.turn > turn
            &&& t.from == ConnectionStatus::Pending
            &&& t.to == ConnectionStatus::Pending
            &&& t.reason == ConnectionTransitionReason::PlayedAlternative
        }
}

/// Whether a pending promise for `identity` was played out strictly after
/// `turn`.
pub open spec fn identity_demonstrated_after(transitions: Seq<ConnectionTransition>, identity: Card, turn: u32) -> bool {
    exists|k: int|
        0 <= k < transitions.len() && {
            let t = #[trigger] transitions[k];
            &&& t.focus_identity == identity
            &&& t.turn > turn
            &&& t.from == ConnectionStatus::Pending
            &&& (t.reason == ConnectionTransitionReason::PlayedAlternative || t.reason
                == ConnectionTransitionReason::PlayedExpectedCard)
        }
}

/// Whether `t` concerns `promise` and happened before `bound` (at or before
/// it when not `strict`).
pub open spec fn in_window(t: ConnectionTransition, promise: PromiseId, bound: u32, strict: bool) -> bool {
    t.promise == promise && if strict {
        t.turn < bound
    } else {
        t.turn <= bound
    }
}

/// The position of the latest transition in the window: the greatest turn,
/// and the latest record among equal turns.
#[verifier::opaque]
pub open spec fn latest_in_window(transitions: Seq<ConnectionTransition>, promise: PromiseId, bound: u32, strict: bool) -> Option<int>
    decreases transitions.len(),
{
    if transitions.len() == 0 {
        None
    } else {
        let earlier = latest_in_window(transitions.drop_last(), promise, bound, strict);
        let i = transitions.len() - 1;
        if in_window(transitions[i], promise, bound, strict) {
            match earlier {
                None => Some(i),
                Some(p) => if transitions[i].turn >= transitions[p].turn {
                    Some(i)
                } else {
                    Some(p)
                },
            }
        } else {
            earlier
        }
    }
}

/// Whether a scheduling of `identity` (as the expected card or the focus
/// identity) at or before `turn` belongs to a promise still pending at the
/// end of `turn`.
pub open spec fn queued_at(transitions: Seq<ConnectionTransition>, identity: Card, turn: u32) -> bool {
    exists|k: int|
        0 <= k < transitions.len() && {
            let t = #[trigger] transitions[k];
            &&& t.turn <= turn
            &&& t.reason == ConnectionTransitionReason::Scheduled
            &&& (t.expected == identity || t.focus_identity == identity)
            &&& latest_in_window(transitions, t.promise, turn, false) matches Some(l) && transitions[l].to
                == ConnectionStatus::Pending
        }
}

/// Whether `actor` carried a live promise on another focus, created before
/// `turn`, immediately before `turn`.
pub open spec fn pending_before(
    provenance: Seq<PromiseProvenance>,
    transitions: Seq<ConnectionTransition>,
    actor: PlayerId,
    turn: u32,
    excluded_focus: CardId,
) -> bool {
    exists|k: int|
        0 <= k < provenance.len() && {
            let origin = #[trigger] provenance[k];
            &&& origin.actor == actor
            &&& origin.focus != excluded_focus
            &&& origin.created_turn < turn
            &&& latest_in_window(transitions, origin.id, turn, true) matches Some(l) && (transitions[l].to
                == ConnectionStatus::Pending || transitions[l].to == ConnectionStatus::AwaitingFix)
        }
}

/// The last transition about `focus`.
pub open spec fn last_about(transitions: Seq<ConnectionTransition>, focus: CardId) -> Option<ConnectionTransition>
    decreases transitions.len(),
{
    if transitions.len() == 0 {
        None
    } else if transitions.last().focus == focus {
        Some(transitions.last())
    } else {
        last_about(transitions.drop_last(), focus)
    }
}

/// The first active obligation on `focus` whose promise was demonstrated.
pub open spec fn first_demonstrated(active: Seq<ObligationView>, transitions: Seq<ConnectionTransition>, focus: CardId) -> Option<ObligationView>
    decreases active.len(),
{
    if active.len() == 0 {
        None
    } else {
        let earlier = first_demonstrated(active.drop_last(), transitions, focus);
        if earlier is Some {
            earlier
        } else if active.last().focus == focus && demonstrated_after(transitions, active.last().promise, 0) {
            Some(active.last())
        } else {
            None
        }
    }
}

/// The focus identity once a blind play demonstrated the still-active
/// layered connection, or once the last transition about the focus
/// satisfied it.
pub open spec fn demonstrated_identity(m: ManagerView, focus: CardId) -> Option<Card> {
    match first_demonstrated(m.active, m.transitions, focus) {
        Some(o) => Some(o.focus_identity),
        None => match last_about(m.transitions, focus) {
            Some(t) => if t.to == ConnectionStatus::Satisfied {
                Some(t.focus_identity)
            } else {
                None
            },
            None => None,
        },
    }
}

/// What is wrong with the active obligation at `i`, if anything: an earlier
/// obligation for the same step (1), no scheduling transition (2), or no
/// provenance (3).
pub open spec fn problem_at(m: ManagerView, i: int) -> int {
    let o = m.active[i];
    if exists|j: int| 0 <= j < i && same_step(#[trigger] m.active[j], o) {
        1
    } else if !(exists|k: int|
        0 <= k < m.transitions.len() && {
            let t = #[trigger] m.transitions[k];
            t.focus == o.focus && t.actor == o.actor && t.reason == ConnectionTransitionReason::Scheduled
        }) {
        2
    } else if find_provenance(m.provenance, o.promise) is None {
        3
    } else {
        0
    }
}

/// The position of the first active obligation with a problem.
pub open spec fn first_problem(m: ManagerView) -> int {
    choose|i: int| 0 <= i < m.active.len() && problem_at(m, i) != 0 && forall|j: int| 0 <= j < i ==> #[trigger] problem_at(m, j) == 0
}

impl ConnectionManager {
    /// The provenance of `id`.
    pub fn provenance(&self, id: PromiseId) -> (p: Option<PromiseProvenance>)
        ensures
            p == find_provenance(self@.provenance, id),
    {
        let mut i: usize = 0;
        while i < self.provenance.len()
            invariant
                i <= self.provenance@.len(),
                find_provenance(self.provenance@.take(i as int), id) is None,
            decreases self.provenance@.len() - i,
        {
            proof {
                assert(self.provenance@.take(i + 1).drop_last() =~= self.provenance@.take(i as int));
            }
            if self.provenance[i].id == id {
                proof {
                    lemma_find_provenance_prefix(self.provenance@, id, i as int + 1);
                }
                return Some(self.provenance[i]);
            }
            i = i + 1;
        }
        proof {
            assert(self.provenance@.take(i as int) =~= self.provenance@);
        }
        None
    }

    /// Whether the promise of `connection` was created at `turn`.
    pub fn was_created_on(&self, connection: &ConnectionObligation, turn: u32) -> (b: bool)
        ensures
            b == (find_provenance(self@.provenance, connection.promise) matches Some(p) && p.created_turn == turn),
    {
        match self.provenance(connection.promise) {
            Some(p) => p.created_turn == turn,
            None => false,
        }
    }

    /// Whether a successful alternative demonstrated `promise` after `turn`.
    pub fn promise_was_demonstrated_after(&self, promise: PromiseId, turn: u32) -> (b: bool)
        ensures
            b == demonstrated_after(self@.transitions, promise, turn),
    {
        let mut i: usize = 0;
        while i < self.transitions.len()
            invariant
                i <= self.transitions@.len(),
                forall|k: int| 0 <= k < i ==> !({
                    let t = #[trigger] self.transitions@[k];
                    &&& t.promise == promise
                    &&& t.turn > turn
                    &&& t.from == ConnectionStatus::Pending
                    &&& t.to == ConnectionStatus::Pending
                    &&& t.reason == ConnectionTransitionReason::PlayedAlternative
                }),
            decreases self.transitions@.len() - i,
        {
            let t = self.transitions[i];
            if t.promise == promise && t.turn > turn && t.from == ConnectionStatus::Pending && t.to
                == ConnectionStatus::Pending && t.reason == ConnectionTransitionReason::PlayedAlternative {
                return true;
            }
            i = i + 1;
        }
        false
    }

    /// Whether a queued promise for `identity` was publicly demonstrated
    /// after a later clue was given at `turn`. This is what lets a recipient
    /// upgrade a new direct interpretation to one queued behind an older
    /// connection.
    pub fn identity_was_demonstrated_after(&self, identity: Card, turn: u32) -> (b: bool)
        ensures
            b == identity_demonstrated_after(self@.transitions, identity, turn),
    {
        let mut i: usize = 0;
        while i < self.transitions.len()
            invariant
                i <= self.transitions@.len(),
                forall|k: int| 0 <= k < i ==> !({
                    let t = #[trigger] self.transitions@[k];
                    &&& t.focus_identity == identity
                    &&& t.turn > turn
                    &&& t.from == ConnectionStatus::Pending
                    &&& (t.reason == ConnectionTransitionReason::PlayedAlternative || t.reason
                        == ConnectionTransitionReason::PlayedExpectedCard)
                }),
            decreases self.transitions@.len() - i,
        {
            let t = self.transitions[i];
            if t.focus_identity == identity && t.turn > turn && t.from == ConnectionStatus::Pending && (t.reason
                == ConnectionTransitionReason::PlayedAlternative || t.reason
                == ConnectionTransitionReason::PlayedExpectedCard) {
                return true;
            }
            i = i + 1;
        }
        false
    }

    /// The position of the latest transition of `promise` in the window.
    fn latest_transition(&self, promise: PromiseId, bound: u32, strict: bool) -> (r: Option<usize>)
        ensures
            r is None ==> latest_in_window(self@.transitions, promise, bound, strict) is None,
            r matches Some(l) ==> l < self@.transitions.len() && latest_in_window(self@.transitions, promise, bound, strict)
                == Some(l as int),
    {
        let mut best: Option<usize> = None;
        let mut i: usize = 0;
        proof {
            reveal(latest_in_window);
        }
        while i < self.transitions.len()
            invariant
                i <= self.transitions@.len(),
                match latest_in_window(self.transitions@.take(i as int), promise, bound, strict) {
                    None => best is None,
                    Some(l) => best == Some(l as usize) && 0 <= l < i,
                },
            decreases self.transitions@.len() - i,
        {
            proof {
                reveal(latest_in_window);
                let t1 = self.transitions@.take(i + 1);
                assert(t1.drop_last() =~= self.transitions@.take(i as int));
                lemma_latest_in_window_bounds(self.transitions@.take(i as int), promise, bound, strict);
                match latest_in_window(self.transitions@.take(i as int), promise, bound, strict) {
                    Some(l) => {
                        assert(t1[l] == self.transitions@[l]);
                    },
                    None => {},
                }
            }
            let t = self.transitions[i];
            let inside = t.promise == promise && if strict {
                t.turn < bound
            } else {
                t.turn <= bound
            };
            if inside {
                match best {
                    None => {
                        best = Some(i);
                    },
                    Some(p) => {
                        if t.turn >= self.transitions[p].turn {
                            best = Some(i);
                        }
                    },
                }
            }
            i = i + 1;
        }
        proof {
            assert(self.transitions@.take(i as int) =~= self.transitions@);
        }
        best
    }

    /// Whether `identity` was queued at `turn`: scheduled at or before it
    /// for a promise still pending at the end of it.
    pub fn identity_was_queued_at(&self, identity: Card, turn: u32) -> (b: bool)
        ensures
            b == queued_at(self@.transitions, identity, turn),
    {
        let mut i: usize = 0;
        while i < self.transitions.len()
            invariant
                i <= self.transitions@.len(),
                forall|k: int| 0 <= k < i ==> !({
                    let t = #[trigger] self.transitions@[k];
                    &&& t.turn <= turn
                    &&& t.reason == ConnectionTransitionReason::Scheduled
                    &&& (t.expected == identity || t.focus_identity == identity)
                    &&& latest_in_window(self.transitions@, t.promise, turn, false) matches Some(l)
                        && self.transitions@[l].to == ConnectionStatus::Pending
                }),
            decreases self.transitions@.len() - i,
        {
            let t = self.transitions[i];
            if t.turn <= turn && t.reason == ConnectionTransitionReason::Scheduled && (t.expected == identity
                || t.focus_identity == identity) {
                match self.latest_transition(t.promise, turn, false) {
                    Some(l) => {
                        if self.transitions[l].to == ConnectionStatus::Pending {
                            return true;
                        }
                    },
                    None => {},
                }
            }
            i = i + 1;
        }
        false
    }

    /// Whether `actor` was already carrying a different live connection
    /// immediately before `turn`. A loaded player retains a later clue's
    /// direct and delayed superposition until public actions disambiguate it.
    pub fn actor_had_pending_before(&self, actor: PlayerId, turn: u32, excluded_focus: CardId) -> (b: bool)
        ensures
            b == pending_before(self@.provenance, self@.transitions, actor, turn, excluded_focus),
    {
        let mut i: usize = 0;
        while i < self.provenance.len()
            invariant
                i <= self.provenance@.len(),
                forall|k: int| 0 <= k < i ==> !({
                    let origin = #[trigger] self.provenance@[k];
                    &&& origin.actor == actor
                    &&& origin.focus != excluded_focus
                    &&& origin.created_turn < turn
                    &&& latest_in_window(self.transitions@, origin.id, turn, true) matches Some(l) && (
                    self.transitions@[l].to == ConnectionStatus::Pending || self.transitions@[l].to
                        == ConnectionStatus::AwaitingFix)
                }),
            decreases self.provenance@.len() - i,
        {
            let origin = self.provenance[i];
            proof {
                assert(self.provenance@[i as int] == origin);
            }
            if origin.actor == actor && origin.focus != excluded_focus && origin.created_turn < turn {
                match self.latest_transition(origin.id, turn, true) {
                    Some(l) => {
                        let to = self.transitions[l].to;
                        if to == ConnectionStatus::Pending || to == ConnectionStatus::AwaitingFix {
                            proof {
                                let li = l as int;
                                assert(latest_in_window(self@.transitions, origin.id, turn, true) == Some(li));
                                assert(self@.transitions[li].to == to);
                                assert(pending_before(self@.provenance, self@.transitions, actor, turn, excluded_focus)) by {
                                    assert(self@.provenance[i as int] == origin);
                                }
                            }
                            return true;
                        }
                    },
                    None => {},
                }
            }
            i = i + 1;
        }
        false
    }

    /// Returns the focus identity only after an earlier blind play has
    /// demonstrated that the still-active layered connection is real, or
    /// once the focus's promise was satisfied. Scheduling a connection is not
    /// evidence by itself: until a layer actually plays, the focus may remain
    /// in a direct/delayed superposition.
    pub fn demonstrated_focus_identity(&self, focus: CardId) -> (c: Option<Card>)
        ensures
            c == demonstrated_identity(self@, focus),
    {
        let mut i: usize = 0;
        while i < self.active.len()
            invariant
                i <= self.active@.len(),
                first_demonstrated(self@.active.take(i as int), self@.transitions, focus) is None,
            decreases self.active@.len() - i,
        {
            proof {
                assert(self@.active.take(i + 1).drop_last() =~= self@.active.take(i as int));
                assert(self@.active.take(i + 1).last() == self.active@[i as int]@);
            }
            if self.active[i].focus == focus && self.promise_was_demonstrated_after(self.active[i].promise, 0) {
                proof {
                    lemma_first_demonstrated_prefix(self@.active, self@.transitions, focus, i as int + 1);
                }
                return Some(self.active[i].focus_identity);
            }
            i = i + 1;
        }
        proof {
            assert(self@.active.take(i as int) =~= self@.active);
        }
        proof {
            assert(self.transitions@.take(self.transitions@.len() as int) =~= self.transitions@);
        }
        let mut k: usize = self.transitions.len();
        while k > 0
            invariant
                k <= self.transitions@.len(),
                first_demonstrated(self@.active, self@.transitions, focus) is None,
                last_about(self.transitions@, focus) == last_about(self.transitions@.take(k as int), focus),
            decreases k,
        {
            let t = self.transitions[k - 1];
            proof {
                assert(self.transitions@.take(k as int).drop_last() =~= self.transitions@.take(k - 1));
                assert(self.transitions@.take(k as int).last() == t);
            }
            if t.focus == focus {
                if t.to == ConnectionStatus::Satisfied {
                    return Some(t.focus_identity);
                }
                return None;
            }
            k = k - 1;
        }
        None
    }

    /// Checks the manager's own invariants: every active obligation has a
    /// candidate, no two are for the same step, and each has a scheduling
    /// transition and a provenance.
    pub fn validate(&self) -> (r: Result<(), String>)
        ensures
            (exists|k: int| 0 <= k < self@.active.len() && (#[trigger] self@.active[k]).cards.len() == 0)
                ==> (r matches Err(e) && e@ == "active connection has no candidates"@),
            !(exists|k: int| 0 <= k < self@.active.len() && (#[trigger] self@.active[k]).cards.len() == 0)
                ==> match r {
                Ok(_) => forall|i: int| 0 <= i < self@.active.len() ==> #[trigger] problem_at(self@, i) == 0,
                Err(e) => {
                    let i = first_problem(self@);
                    &&& 0 <= i < self@.active.len()
                    &&& problem_at(self@, i) == 1 ==> e@ == "duplicate active connection step"@
                    &&& problem_at(self@, i) == 2 ==> e@ == "active connection has no scheduled transition"@
                    &&& problem_at(self@, i) == 3 ==> e@ == "active connection has no promise provenance"@
                },
            },
            r is Ok <==> (forall|k: int| 0 <= k < self@.active.len() ==> (#[trigger] self@.active[k]).cards.len() > 0)
                && (forall|i: int| 0 <= i < self@.active.len() ==> #[trigger] problem_at(self@, i) == 0),
            r is Ok <==> valid_manager(self@),
    {
        proof {
            lemma_valid_manager_validates(self@);
        }
        let mut i: usize = 0;
        while i < self.active.len()
            invariant
                i <= self.active@.len(),
                forall|k: int| 0 <= k < i ==> (#[trigger] self@.active[k]).cards.len() > 0,
            decreases self.active@.len() - i,
        {
            if self.active[i].cards.len() == 0 {
                proof {
                    assert(self@.active[i as int].cards.len() == 0);
                }
                return Err("active connection has no candidates".to_owned());
            }
            i = i + 1;
        }
        let mut i: usize = 0;
        while i < self.active.len()
            invariant
                i <= self.active@.len(),
                forall|k: int| 0 <= k < self@.active.len() ==> (#[trigger] self@.active[k]).cards.len() > 0,
                forall|j: int| 0 <= j < i ==> #[trigger] problem_at(self@, j) == 0,
            decreases self.active@.len() - i,
        {
            let connection = &self.active[i];
            let mut j: usize = 0;
            while j < i
                invariant
                    j <= i < self.active@.len(),
                    connection@ == self@.active[i as int],
                    forall|k: int| 0 <= k < self@.active.len() ==> (#[trigger] self@.active[k]).cards.len() > 0,
                    forall|q: int| 0 <= q < i ==> #[trigger] problem_at(self@, q) == 0,
                    forall|m: int| 0 <= m < j ==> !same_step(#[trigger] self@.active[m], self@.active[i as int]),
                decreases i - j,
            {
                let other = &self.active[j];
                proof {
                    assert(other@ == self@.active[j as int]);
                }
                if other.actor == connection.actor && other.focus == connection.focus && other.step == connection.step {
                    proof {
                        assert(same_step(self@.active[j as int], self@.active[i as int]));
                        assert(problem_at(self@, i as int) == 1);
                        lemma_first_problem(self@, i as int);
                    }
                    return Err("duplicate active connection step".to_owned());
                }
                j = j + 1;
            }
            let mut scheduled = false;
            let mut k: usize = 0;
            while k < self.transitions.len()
                invariant
                    k <= self.transitions@.len(),
                    i < self.active@.len(),
                    connection@ == self@.active[i as int],
                    scheduled == exists|m: int|
                        0 <= m < k && {
                            let t = #[trigger] self.transitions@[m];
                            t.focus == self@.active[i as int].focus && t.actor == self@.active[i as int].actor
                                && t.reason == ConnectionTransitionReason::Scheduled
                        },
                decreases self.transitions@.len() - k,
            {
                let t = self.transitions[k];
                proof {
                    assert(self.transitions@[k as int] == t);
                }
                if t.focus == connection.focus && t.actor == connection.actor && t.reason
                    == ConnectionTransitionReason::Scheduled {
                    scheduled = true;
                }
                k = k + 1;
            }
            if !scheduled {
                proof {
                    assert(problem_at(self@, i as int) == 2);
                    lemma_first_problem(self@, i as int);
                }
                return Err("active connection has no scheduled transition".to_owned());
            }
            if self.provenance(connection.promise).is_none() {
                proof {
                    assert(problem_at(self@, i as int) == 3);
                    lemma_first_problem(self@, i as int);
                }
                return Err("active connection has no promise provenance".to_owned());
            }
            proof {
                assert(problem_at(self@, i as int) == 0);
            }
            i = i + 1;
        }
        Ok(())
    }
}

/// A match in a prefix is the first match of the whole sequence.
proof fn lemma_find_provenance_prefix(provenance: Seq<PromiseProvenance>, id: PromiseId, n: int)
    requires
        0 < n <= provenance.len(),
        find_provenance(provenance.take(n - 1), id) is None,
        provenance[n - 1].id == id,
    ensures
        find_provenance(provenance, id) == Some(provenance[n - 1]),
    decreases provenance.len() - n,
{
    assert(provenance.take(n).drop_last() =~= provenance.take(n - 1));
    if n < provenance.len() {
        lemma_find_provenance_extend(provenance, id, n);
    } else {
        assert(provenance.take(n) =~= provenance);
    }
}

proof fn lemma_find_provenance_extend(provenance: Seq<PromiseProvenance>, id: PromiseId, n: int)
    requires
        0 < n <= provenance.len(),
        find_provenance(provenance.take(n), id) is Some,
    ensures
        find_provenance(provenance, id) == find_provenance(provenance.take(n), id),
    decreases provenance.len() - n,
{
    if n < provenance.len() {
        assert(provenance.take(n + 1).drop_last() =~= provenance.take(n));
        lemma_find_provenance_extend(provenance, id, n + 1);
    } else {
        assert(provenance.take(n) =~= provenance);
    }
}

/// A demonstrated match in a prefix is the first of the whole sequence.
proof fn lemma_first_demonstrated_prefix(
    active: Seq<ObligationView>,
    transitions: Seq<ConnectionTransition>,
    focus: CardId,
    n: int,
)
    requires
        0 < n <= active.len(),
        first_demonstrated(active.take(n - 1), transitions, focus) is None,
        active[n - 1].focus == focus,
        demonstrated_after(transitions, active[n - 1].promise, 0),
    ensures
        first_demonstrated(active, transitions, focus) == Some(active[n - 1]),
{
    assert(active.take(n).drop_last() =~= active.take(n - 1));
    lemma_first_demonstrated_extend(active, transitions, focus, n);
}

proof fn lemma_first_demonstrated_extend(
    active: Seq<ObligationView>,
    transitions: Seq<ConnectionTransition>,
    focus: CardId,
    n: int,
)
    requires
        0 < n <= active.len(),
        first_demonstrated(active.take(n), transitions, focus) is Some,
    ensures
        first_demonstrated(active, transitions, focus) == first_demonstrated(active.take(n), transitions, focus),
    decreases active.len() - n,
{
    if n < active.len() {
        assert(active.take(n + 1).drop_last() =~= active.take(n));
        lemma_first_demonstrated_extend(active, transitions, focus, n + 1);
    } else {
        assert(active.take(n) =~= active);
    }
}

proof fn lemma_latest_in_window_bounds(transitions: Seq<ConnectionTransition>, promise: PromiseId, bound: u32, strict: bool)
    ensures
        latest_in_window(transitions, promise, bound, strict) matches Some(l) ==> 0 <= l < transitions.len(),
    decreases transitions.len(),
{
    reveal(latest_in_window);
    if transitions.len() > 0 {
        lemma_latest_in_window_bounds(transitions.drop_last(), promise, bound, strict);
    }
}

/// The first problem is at `i` when every earlier obligation is sound.
proof fn lemma_first_problem(m: ManagerView, i: int)
    requires
        0 <= i < m.active.len(),
        problem_at(m, i) != 0,
        forall|j: int| 0 <= j < i ==> #[trigger] problem_at(m, j) == 0,
    ensures
        first_problem(m) == i,
{
    let f = first_problem(m);
    assert(0 <= f < m.active.len() && problem_at(m, f) != 0);
    if f < i {
        assert(problem_at(m, f) == 0);
    } else if f > i {
        assert(problem_at(m, i) == 0);
    }
}

impl Default for ConnectionManager {
    fn default() -> (m: Self)
        ensures
            m@ == (ManagerView {
                active: Seq::empty(),
                transitions: Seq::empty(),
                provenance: Seq::empty(),
                next_promise: 0,
            }),
            valid_manager(m@),
    {
        ConnectionManager::new()
    }
}

/// Whether `transitions` record the scheduling of an obligation for the
/// focus and actor of `o`.
pub open spec fn scheduled_for(transitions: Seq<ConnectionTransition>, o: ObligationView) -> bool {
    exists|k: int|
        0 <= k < transitions.len() && {
            let t = #[trigger] transitions[k];
            t.focus == o.focus && t.actor == o.actor && t.reason == ConnectionTransitionReason::Scheduled
        }
}

/// A manager that validates: every live obligation has a candidate, no two
/// are the same step of the same focus for the same actor, and each has a
/// recorded scheduling and a promise provenance.
pub open spec fn valid_manager(m: ManagerView) -> bool {
    &&& forall|i: int| 0 <= i < m.active.len() ==> (#[trigger] m.active[i]).cards.len() > 0
    &&& forall|i: int, j: int|
        0 <= j < i < m.active.len() ==> !same_step(#[trigger] m.active[j], #[trigger] m.active[i])
    &&& forall|i: int| 0 <= i < m.active.len() ==> scheduled_for(m.transitions, #[trigger] m.active[i])
    &&& forall|i: int|
        0 <= i < m.active.len() ==> find_provenance(m.provenance, (#[trigger] m.active[i]).promise) is Some
}

/// Whether `a` and `b` are the same obligation up to its candidates.
pub open spec fn same_keys(a: ObligationView, b: ObligationView) -> bool {
    a.actor == b.actor && a.focus == b.focus && a.step == b.step && a.promise == b.promise
}

/// A manager validates exactly when it is a valid manager.
pub proof fn lemma_valid_manager_validates(m: ManagerView)
    ensures
        valid_manager(m) <==> (forall|k: int| 0 <= k < m.active.len() ==> (#[trigger] m.active[k]).cards.len() > 0)
            && (forall|i: int| 0 <= i < m.active.len() ==> #[trigger] problem_at(m, i) == 0),
{
    if valid_manager(m) {
        assert forall|i: int| 0 <= i < m.active.len() implies #[trigger] problem_at(m, i) == 0 by {
            assert(scheduled_for(m.transitions, m.active[i]));
            assert(find_provenance(m.provenance, m.active[i].promise) is Some);
            if exists|j: int| 0 <= j < i && same_step(#[trigger] m.active[j], m.active[i]) {
                let j = choose|j: int| 0 <= j < i && same_step(#[trigger] m.active[j], m.active[i]);
                assert(!same_step(m.active[j], m.active[i]));
            }
        }
    }
    if (forall|k: int| 0 <= k < m.active.len() ==> (#[trigger] m.active[k]).cards.len() > 0) && (forall|i: int|
        0 <= i < m.active.len() ==> #[trigger] problem_at(m, i) == 0) {
        assert forall|i: int, j: int|
            0 <= j < i < m.active.len() implies !same_step(#[trigger] m.active[j], #[trigger] m.active[i]) by {
            assert(problem_at(m, i) == 0);
        }
        assert forall|i: int| 0 <= i < m.active.len() implies scheduled_for(m.transitions, #[trigger] m.active[i]) by {
            assert(problem_at(m, i) == 0);
        }
        assert forall|i: int|
            0 <= i < m.active.len() implies find_provenance(m.provenance, (#[trigger] m.active[i]).promise) is Some by {
            assert(problem_at(m, i) == 0);
        }
    }
}

/// The position in `a` of the `i`-th obligation that `cancel` keeps.
pub open spec fn retained_index(a: Seq<ObligationView>, cancel: Seq<bool>, i: int) -> int
    decreases a.len(),
{
    if a.len() == 0 {
        0
    } else if cancel[a.len() - 1] || i < retained(a.drop_last(), cancel).len() {
        retained_index(a.drop_last(), cancel, i)
    } else {
        a.len() - 1
    }
}

/// The kept obligations are those not marked, in their order.
proof fn lemma_retained_indices(a: Seq<ObligationView>, cancel: Seq<bool>)
    requires
        cancel.len() >= a.len(),
    ensures
        retained(a, cancel).len() <= a.len(),
        forall|i: int|
            0 <= i < retained(a, cancel).len() ==> {
                let k = #[trigger] retained_index(a, cancel, i);
                &&& 0 <= k < a.len()
                &&& !cancel[k]
                &&& retained(a, cancel)[i] == a[k]
            },
        forall|i: int, j: int|
            0 <= i < j < retained(a, cancel).len() ==> #[trigger] retained_index(a, cancel, i)
                < #[trigger] retained_index(a, cancel, j),
    decreases a.len(),
{
    if a.len() > 0 {
        let b = a.drop_last();
        lemma_retained_indices(b, cancel);
        let r = retained(b, cancel);
        assert forall|i: int|
            0 <= i < retained(a, cancel).len() implies {
                let k = #[trigger] retained_index(a, cancel, i);
                &&& 0 <= k < a.len()
                &&& !cancel[k]
                &&& retained(a, cancel)[i] == a[k]
            } by {
            if cancel[a.len() - 1] || i < r.len() {
                let k = retained_index(b, cancel, i);
                assert(b[k] == a[k]);
            }
        }
        assert forall|i: int, j: int|
            0 <= i < j < retained(a, cancel).len() implies #[trigger] retained_index(a, cancel, i)
                < #[trigger] retained_index(a, cancel, j) by {
            if cancel[a.len() - 1] || j < r.len() {
                assert(retained(a, cancel).len() == r.len() || j < r.len());
                assert(retained_index(a, cancel, i) == retained_index(b, cancel, i));
                assert(retained_index(a, cancel, j) == retained_index(b, cancel, j));
                assert(retained_index(b, cancel, i) < retained_index(b, cancel, j));
            } else {
                assert(retained_index(a, cancel, i) == retained_index(b, cancel, i));
                assert(retained_index(b, cancel, i) < b.len());
            }
        }
    }
}

/// Recording more transitions keeps every scheduling recorded.
proof fn lemma_scheduled_extends(t: Seq<ConnectionTransition>, x: Seq<ConnectionTransition>, o: ObligationView)
    requires
        scheduled_for(t, o),
    ensures
        scheduled_for(t + x, o),
{
    let k = choose|k: int|
        0 <= k < t.len() && {
            let e = #[trigger] t[k];
            e.focus == o.focus && e.actor == o.actor && e.reason == ConnectionTransitionReason::Scheduled
        };
    assert((t + x)[k] == t[k]);
}

/// Keeping the unmarked obligations of `mid`, an obligation-by-obligation
/// change of the candidates of a valid manager that marks every obligation
/// left without a candidate, and recording more transitions, gives a valid
/// manager.
proof fn lemma_retained_valid(m: ManagerView, mid: Seq<ObligationView>, cancel: Seq<bool>, extra: Seq<ConnectionTransition>)
    requires
        valid_manager(m),
        mid.len() == m.active.len(),
        cancel.len() == mid.len(),
        forall|i: int| 0 <= i < mid.len() ==> same_keys(#[trigger] mid[i], m.active[i]),
        forall|i: int| 0 <= i < mid.len() && (#[trigger] mid[i]).cards.len() == 0 ==> cancel[i],
    ensures
        valid_manager(ManagerView { active: retained(mid, cancel), transitions: m.transitions + extra, ..m }),
{
    let r = retained(mid, cancel);
    let n = ManagerView { active: r, transitions: m.transitions + extra, ..m };
    lemma_retained_indices(mid, cancel);
    assert forall|i: int| 0 <= i < r.len() implies (#[trigger] r[i]).cards.len() > 0 by {
        let k = retained_index(mid, cancel, i);
        assert(mid[k] == r[i]);
    }
    assert forall|i: int, j: int| 0 <= j < i < r.len() implies !same_step(#[trigger] r[j], #[trigger] r[i]) by {
        let ki = retained_index(mid, cancel, i);
        let kj = retained_index(mid, cancel, j);
        assert(kj < ki);
        assert(same_keys(mid[ki], m.active[ki]));
        assert(same_keys(mid[kj], m.active[kj]));
        assert(!same_step(m.active[kj], m.active[ki]));
    }
    assert forall|i: int| 0 <= i < r.len() implies scheduled_for(n.transitions, #[trigger] r[i]) by {
        let k = retained_index(mid, cancel, i);
        assert(same_keys(mid[k], m.active[k]));
        assert(scheduled_for(m.transitions, m.active[k]));
        lemma_scheduled_extends(m.transitions, extra, m.active[k]);
    }
    assert forall|i: int| 0 <= i < r.len() implies find_provenance(n.provenance, (#[trigger] r[i]).promise) is Some by {
        let k = retained_index(mid, cancel, i);
        assert(same_keys(mid[k], m.active[k]));
        assert(find_provenance(m.provenance, m.active[k].promise) is Some);
    }
}

/// The manager with no obligation is valid.
pub proof fn lemma_new_manager_valid()
    ensures
        valid_manager(
            ManagerView {
                active: Seq::empty(),
                transitions: Seq::empty(),
                provenance: Seq::empty(),
                next_promise: 0,
            },
        ),
{
}

/// Cancelling obligations keeps a manager valid.
pub proof fn lemma_cancel_where_valid(m: ManagerView, cancel: Seq<bool>, turn: u32, reason: ConnectionTransitionReason)
    requires
        valid_manager(m),
        cancel.len() == m.active.len(),
    ensures
        valid_manager(
            ManagerView {
                active: retained(m.active, cancel),
                transitions: m.transitions + cancellations(m.active, cancel, turn, reason),
                ..m
            },
        ),
{
    lemma_retained_valid(m, m.active, cancel, cancellations(m.active, cancel, turn, reason));
}

/// Starting an obligation that has a candidate keeps a manager valid.
pub proof fn lemma_start_valid(m: ManagerView, turn: u32, o: ObligationView)
    requires
        valid_manager(m),
        o.cards.len() > 0,
    ensures
        valid_manager(started(m, turn, o)),
{
    let id = PromiseId(m.next_promise);
    let numbered = ObligationView { promise: id, ..o };
    let cancel = Seq::new(m.active.len(), |k: int| same_step(m.active[k], numbered));
    let x = cancellations(m.active, cancel, turn, ConnectionTransitionReason::Superseded);
    let sched = transition_of(
        turn,
        numbered,
        ConnectionStatus::Pending,
        ConnectionStatus::Pending,
        ConnectionTransitionReason::Scheduled,
    );
    let p = PromiseProvenance {
        id,
        created_turn: turn,
        actor: o.actor,
        focus: o.focus,
        expected: o.expected,
        kind: o.kind,
    };
    lemma_retained_valid(m, m.active, cancel, x.push(sched));
    let kept = retained(m.active, cancel);
    let mid = ManagerView { active: kept, transitions: m.transitions + x.push(sched), ..m };
    let s = started(m, turn, o);
    assert(m.transitions + x.push(sched) =~= m.transitions + x + seq![sched]);
    assert(s.active == kept.push(numbered));
    assert(s.transitions == mid.transitions);
    assert(s.provenance.drop_last() =~= m.provenance);
    assert(s.provenance.last() == p);
    lemma_retained_indices(m.active, cancel);
    assert forall|i: int| 0 <= i < s.active.len() implies (#[trigger] s.active[i]).cards.len() > 0 by {
        if i < kept.len() {
            assert(s.active[i] == kept[i]);
        }
    }
    assert forall|i: int, j: int|
        0 <= j < i < s.active.len() implies !same_step(#[trigger] s.active[j], #[trigger] s.active[i]) by {
        assert(s.active[j] == kept[j]);
        if i == kept.len() {
            let k = retained_index(m.active, cancel, j);
            assert(!cancel[k]);
            assert(kept[j] == m.active[k]);
        } else {
            assert(s.active[i] == kept[i]);
        }
    }
    assert forall|i: int| 0 <= i < s.active.len() implies scheduled_for(s.transitions, #[trigger] s.active[i]) by {
        if i < kept.len() {
            assert(s.active[i] == kept[i]);
        } else {
            let k = s.transitions.len() - 1;
            assert(s.transitions[k] == sched);
        }
    }
    assert forall|i: int|
        0 <= i < s.active.len() implies find_provenance(s.provenance, (#[trigger] s.active[i]).promise) is Some by {
        if i < kept.len() {
            assert(s.active[i] == kept[i]);
            assert(find_provenance(m.provenance, kept[i].promise) is Some);
        } else {
            assert(s.active[i].promise == id);
        }
    }
}

/// A discard keeps a manager valid.
pub proof fn lemma_discard_valid(m: ManagerView, turn: u32, player: PlayerId, card: CardId)
    requires
        valid_manager(m),
    ensures
        ({
            let mid = discard_candidates(m.active, player, card);
            let cancel = exhausted_or_focus(mid, Some(card));
            valid_manager(
                ManagerView {
                    active: retained(mid, cancel),
                    transitions: m.transitions + cancellations(
                        mid,
                        cancel,
                        turn,
                        ConnectionTransitionReason::FocusInvalidated,
                    ),
                    ..m
                },
            )
        }),
{
    let mid = discard_candidates(m.active, player, card);
    let cancel = exhausted_or_focus(mid, Some(card));
    lemma_retained_valid(
        m,
        mid,
        cancel,
        cancellations(mid, cancel, turn, ConnectionTransitionReason::FocusInvalidated),
    );
}

/// An identity revelation keeps a manager valid.
pub proof fn lemma_reveal_identity_valid(m: ManagerView, turn: u32, actor: PlayerId, card: CardId, identity: Card)
    requires
        valid_manager(m),
    ensures
        ({
            let narrowed = narrowed_by(m.active, actor, card, identity);
            let mid = narrowed_candidates(m.active, narrowed, card);
            let cancel = exhausted_or_focus(mid, None);
            valid_manager(
                ManagerView {
                    active: retained(mid, cancel),
                    transitions: m.transitions + marked_transitions(
                        mid,
                        still_narrowed(narrowed, mid),
                        turn,
                        ConnectionStatus::Pending,
                        ConnectionStatus::Pending,
                        ConnectionTransitionReason::IdentityRevealed,
                    ) + cancellations(mid, cancel, turn, ConnectionTransitionReason::IdentityRevealed),
                    ..m
                },
            )
        }),
{
    let narrowed = narrowed_by(m.active, actor, card, identity);
    let mid = narrowed_candidates(m.active, narrowed, card);
    let cancel = exhausted_or_focus(mid, None);
    let marked = marked_transitions(
        mid,
        still_narrowed(narrowed, mid),
        turn,
        ConnectionStatus::Pending,
        ConnectionStatus::Pending,
        ConnectionTransitionReason::IdentityRevealed,
    );
    let cancelled = cancellations(mid, cancel, turn, ConnectionTransitionReason::IdentityRevealed);
    lemma_retained_valid(m, mid, cancel, marked + cancelled);
    assert(m.transitions + (marked + cancelled) =~= m.transitions + marked + cancelled);
}

/// A Fix keeps a manager valid.
pub proof fn lemma_repair_actor_valid(
    m: ManagerView,
    turn: u32,
    actor: PlayerId,
    removed: Seq<CardId>,
    replacements: Seq<Option<CardId>>,
)
    requires
        valid_manager(m),
        replacements.len() == m.active.len(),
    ensures
        ({
            let mid = repaired_candidates(m.active, actor, removed, replacements);
            let cancel = exhausted_or_focus(mid, None);
            valid_manager(
                ManagerView {
                    active: retained(mid, cancel),
                    transitions: m.transitions + marked_transitions(
                        mid,
                        repaired_marks(m.active, mid, actor),
                        turn,
                        ConnectionStatus::Pending,
                        ConnectionStatus::Pending,
                        ConnectionTransitionReason::Fixed,
                    ) + cancellations(mid, cancel, turn, ConnectionTransitionReason::Fixed),
                    ..m
                },
            )
        }),
{
    let mid = repaired_candidates(m.active, actor, removed, replacements);
    let cancel = exhausted_or_focus(mid, None);
    let marked = marked_transitions(
        mid,
        repaired_marks(m.active, mid, actor),
        turn,
        ConnectionStatus::Pending,
        ConnectionStatus::Pending,
        ConnectionTransitionReason::Fixed,
    );
    let cancelled = cancellations(mid, cancel, turn, ConnectionTransitionReason::Fixed);
    lemma_retained_valid(m, mid, cancel, marked + cancelled);
    assert(m.transitions + (marked + cancelled) =~= m.transitions + marked + cancelled);
}

/// A play keeps a manager valid.
pub proof fn lemma_advance_play_valid(
    m: ManagerView,
    turn: u32,
    player: PlayerId,
    card: CardId,
    identity: Card,
    successful: bool,
)
    requires
        valid_manager(m),
    ensures
        ({
            let a = m.active;
            let n = a.len() as int;
            let mid = advanced(a, player, card, identity, successful);
            let failed = failed_upto(a, n, player, card, identity, successful);
            valid_manager(
                ManagerView {
                    active: retained(mid, ended(mid, card, failed)),
                    transitions: m.transitions + advance_transitions_upto(a, n, turn, player, card, identity, successful),
                    ..m
                },
            )
        }),
{
    let a = m.active;
    let n = a.len() as int;
    let mid = advanced(a, player, card, identity, successful);
    let failed = failed_upto(a, n, player, card, identity, successful);
    lemma_retained_valid(
        m,
        mid,
        ended(mid, card, failed),
        advance_transitions_upto(a, n, turn, player, card, identity, successful),
    );
}

/// Prepending layers to the obligation at `p` keeps a manager valid.
pub proof fn lemma_prepend_layers_valid(m: ManagerView, turn: u32, p: int, added: Seq<CardId>)
    requires
        valid_manager(m),
        0 <= p < m.active.len(),
    ensures
        ({
            let updated = with_candidates(m.active[p], added + m.active[p].cards);
            valid_manager(
                ManagerView {
                    active: m.active.update(p, updated),
                    transitions: m.transitions.push(
                        transition_of(
                            turn,
                            updated,
                            ConnectionStatus::Pending,
                            ConnectionStatus::Pending,
                            ConnectionTransitionReason::LayerExtended,
                        ),
                    ),
                    ..m
                },
            )
        }),
{
    let updated = with_candidates(m.active[p], added + m.active[p].cards);
    let mid = m.active.update(p, updated);
    let cancel = Seq::new(mid.len(), |i: int| false);
    let extra = seq![
        transition_of(
            turn,
            updated,
            ConnectionStatus::Pending,
            ConnectionStatus::Pending,
            ConnectionTransitionReason::LayerExtended,
        ),
    ];
    assert forall|i: int| 0 <= i < mid.len() && (#[trigger] mid[i]).cards.len() == 0 implies cancel[i] by {
        assert(m.active[i].cards.len() > 0);
        if i == p {
            assert((added + m.active[p].cards).len() > 0);
        }
    }
    lemma_retained_valid(m, mid, cancel, extra);
    lemma_retained_indices(mid, cancel);
    lemma_retained_none(mid, cancel);
    assert(m.transitions + extra =~= m.transitions.push(extra[0]));
}

/// Marking nothing keeps every obligation.
proof fn lemma_retained_none(a: Seq<ObligationView>, cancel: Seq<bool>)
    requires
        cancel.len() >= a.len(),
        forall|i: int| 0 <= i < a.len() ==> !cancel[i],
    ensures
        retained(a, cancel) == a,
    decreases a.len(),
{
    if a.len() > 0 {
        lemma_retained_none(a.drop_last(), cancel);
        assert(a.drop_last().push(a.last()) =~= a);
    }
}

/// One lifecycle operation on a manager, with its arguments as plain values.
pub enum ManagerStep {
    Start { turn: u32, obligation: ObligationView },
    CancelWhere { turn: u32, reason: ConnectionTransitionReason, cancel: Seq<bool> },
    Discard { turn: u32, player: PlayerId, card: CardId },
    RevealIdentity { turn: u32, actor: PlayerId, card: CardId, identity: Card },
    RepairActor { turn: u32, actor: PlayerId, removed: Seq<CardId>, replacements: Seq<Option<CardId>> },
    AdvancePlay { turn: u32, player: PlayerId, card: CardId, identity: Card, successful: bool },
    PrependLayers { turn: u32, promise: PromiseId, layers: Seq<CardId> },
}

/// Whether `step` is one the manager's operations accept on `m`, for an
/// obligation that is started with at least one candidate.
pub open spec fn admissible(m: ManagerView, step: ManagerStep) -> bool {
    match step {
        ManagerStep::Start { obligation, .. } => obligation.cards.len() > 0,
        ManagerStep::CancelWhere { cancel, .. } => cancel.len() == m.active.len(),
        ManagerStep::RepairActor { replacements, .. } => replacements.len() == m.active.len(),
        _ => true,
    }
}

/// The manager after cancelling the obligations marked in `cancel`.
pub open spec fn after_cancel_where(m: ManagerView, turn: u32, reason: ConnectionTransitionReason, cancel: Seq<bool>) -> ManagerView {
    ManagerView {
        active: retained(m.active, cancel),
        transitions: m.transitions + cancellations(m.active, cancel, turn, reason),
        ..m
    }
}

/// The manager after starting `o`.
pub open spec fn after_start(m: ManagerView, turn: u32, o: ObligationView) -> ManagerView {
    if exists|k: int| 0 <= k < m.active.len() && same_duty(#[trigger] m.active[k], o) {
        m
    } else {
        started(m, turn, o)
    }
}

/// The manager after `player` discarded `card`.
pub open spec fn after_discard(m: ManagerView, turn: u32, player: PlayerId, card: CardId) -> ManagerView {
    let mid = discard_candidates(m.active, player, card);
    let cancel = exhausted_or_focus(mid, Some(card));
    ManagerView {
        active: retained(mid, cancel),
        transitions: m.transitions + cancellations(mid, cancel, turn, ConnectionTransitionReason::FocusInvalidated),
        ..m
    }
}

/// The manager after `card` of `actor` is revealed to be `identity`.
pub open spec fn after_reveal_identity(m: ManagerView, turn: u32, actor: PlayerId, card: CardId, identity: Card) -> ManagerView {
    let narrowed = narrowed_by(m.active, actor, card, identity);
    let mid = narrowed_candidates(m.active, narrowed, card);
    let cancel = exhausted_or_focus(mid, None);
    ManagerView {
        active: retained(mid, cancel),
        transitions: m.transitions + marked_transitions(
            mid,
            still_narrowed(narrowed, mid),
            turn,
            ConnectionStatus::Pending,
            ConnectionStatus::Pending,
            ConnectionTransitionReason::IdentityRevealed,
        ) + cancellations(mid, cancel, turn, ConnectionTransitionReason::IdentityRevealed),
        ..m
    }
}

/// The manager after a Fix for `actor`.
pub open spec fn after_repair_actor(
    m: ManagerView,
    turn: u32,
    actor: PlayerId,
    removed: Seq<CardId>,
    replacements: Seq<Option<CardId>>,
) -> ManagerView {
    let mid = repaired_candidates(m.active, actor, removed, replacements);
    let cancel = exhausted_or_focus(mid, None);
    ManagerView {
        active: retained(mid, cancel),
        transitions: m.transitions + marked_transitions(
            mid,
            repaired_marks(m.active, mid, actor),
            turn,
            ConnectionStatus::Pending,
            ConnectionStatus::Pending,
            ConnectionTransitionReason::Fixed,
        ) + cancellations(mid, cancel, turn, ConnectionTransitionReason::Fixed),
        ..m
    }
}

/// The manager after `player` played `card`.
pub open spec fn after_advance_play(
    m: ManagerView,
    turn: u32,
    player: PlayerId,
    card: CardId,
    identity: Card,
    successful: bool,
) -> ManagerView {
    let a = m.active;
    let n = a.len() as int;
    let mid = advanced(a, player, card, identity, successful);
    let failed = failed_upto(a, n, player, card, identity, successful);
    ManagerView {
        active: retained(mid, ended(mid, card, failed)),
        transitions: m.transitions + advance_transitions_upto(a, n, turn, player, card, identity, successful),
        ..m
    }
}

/// The manager after prepending `layers` to the first obligation of `promise`.
pub open spec fn after_prepend_layers(m: ManagerView, turn: u32, promise: PromiseId, layers: Seq<CardId>) -> ManagerView {
    if exists|k: int| 0 <= k < m.active.len() && (#[trigger] m.active[k]).promise == promise {
        let p = first_of_promise(m.active, promise);
        let o = m.active[p];
        let added = keep_cards(layers, o.cards);
        if layers.len() == 0 || added.len() == 0 {
            m
        } else {
            let updated = with_candidates(o, added + o.cards);
            ManagerView {
                active: m.active.update(p, updated),
                transitions: m.transitions.push(
                    transition_of(
                        turn,
                        updated,
                        ConnectionStatus::Pending,
                        ConnectionStatus::Pending,
                        ConnectionTransitionReason::LayerExtended,
                    ),
                ),
                ..m
            }
        }
    } else {
        m
    }
}

/// The manager after `step`, as the operation's contract states it.
pub open spec fn after_step(m: ManagerView, step: ManagerStep) -> ManagerView {
    match step {
        ManagerStep::Start { turn, obligation } => after_start(m, turn, obligation),
        ManagerStep::CancelWhere { turn, reason, cancel } => after_cancel_where(m, turn, reason, cancel),
        ManagerStep::Discard { turn, player, card } => after_discard(m, turn, player, card),
        ManagerStep::RevealIdentity { turn, actor, card, identity } => after_reveal_identity(
            m,
            turn,
            actor,
            card,
            identity,
        ),
        ManagerStep::RepairActor { turn, actor, removed, replacements } => after_repair_actor(
            m,
            turn,
            actor,
            removed,
            replacements,
        ),
        ManagerStep::AdvancePlay { turn, player, card, identity, successful } => after_advance_play(
            m,
            turn,
            player,
            card,
            identity,
            successful,
        ),
        ManagerStep::PrependLayers { turn, promise, layers } => after_prepend_layers(m, turn, promise, layers),
    }
}

/// Some obligation of `promise` makes the first one a position of the list.
proof fn lemma_first_of_promise(active: Seq<ObligationView>, promise: PromiseId, k: int)
    requires
        0 <= k < active.len(),
        active[k].promise == promise,
    ensures
        0 <= first_of_promise(active, promise) < active.len(),
        active[first_of_promise(active, promise)].promise == promise,
    decreases k,
{
    if exists|j: int| 0 <= j < k && (#[trigger] active[j]).promise == promise {
        let j = choose|j: int| 0 <= j < k && (#[trigger] active[j]).promise == promise;
        lemma_first_of_promise(active, promise, j);
    } else {
        assert(forall|j: int| 0 <= j < k ==> (#[trigger] active[j]).promise != promise);
    }
}

/// The manager after `steps`, in order.
pub open spec fn after_steps(m: ManagerView, steps: Seq<ManagerStep>) -> ManagerView
    decreases steps.len(),
{
    if steps.len() == 0 {
        m
    } else {
        after_step(after_steps(m, steps.drop_last()), steps.last())
    }
}

/// One admissible operation keeps a manager valid.
pub proof fn lemma_step_valid(m: ManagerView, step: ManagerStep)
    requires
        valid_manager(m),
        admissible(m, step),
    ensures
        valid_manager(after_step(m, step)),
{
    match step {
        ManagerStep::Start { turn, obligation } => {
            if !(exists|k: int| 0 <= k < m.active.len() && same_duty(#[trigger] m.active[k], obligation)) {
                lemma_start_valid(m, turn, obligation);
            }
        },
        ManagerStep::CancelWhere { turn, reason, cancel } => {
            lemma_cancel_where_valid(m, cancel, turn, reason);
        },
        ManagerStep::Discard { turn, player, card } => {
            lemma_discard_valid(m, turn, player, card);
        },
        ManagerStep::RevealIdentity { turn, actor, card, identity } => {
            lemma_reveal_identity_valid(m, turn, actor, card, identity);
        },
        ManagerStep::RepairActor { turn, actor, removed, replacements } => {
            lemma_repair_actor_valid(m, turn, actor, removed, replacements);
        },
        ManagerStep::AdvancePlay { turn, player, card, identity, successful } => {
            lemma_advance_play_valid(m, turn, player, card, identity, successful);
        },
        ManagerStep::PrependLayers { turn, promise, layers } => {
            if exists|k: int| 0 <= k < m.active.len() && (#[trigger] m.active[k]).promise == promise {
                let k = choose|k: int| 0 <= k < m.active.len() && (#[trigger] m.active[k]).promise == promise;
                lemma_first_of_promise(m.active, promise, k);
                let p = first_of_promise(m.active, promise);
                let o = m.active[p];
                let added = keep_cards(layers, o.cards);
                if !(layers.len() == 0 || added.len() == 0) {
                    lemma_prepend_layers_valid(m, turn, p, added);
                }
            }
        },
    }
}

/// Every manager reached from the empty manager by admissible lifecycle
/// operations validates: each live obligation has a candidate, no two are
/// the same step, and each has a recorded scheduling and a provenance.
pub proof fn lemma_reachable_managers_validate(steps: Seq<ManagerStep>)
    requires
        forall|i: int|
            0 <= i < steps.len() ==> admissible(
                after_steps(
                    ManagerView {
                        active: Seq::empty(),
                        transitions: Seq::empty(),
                        provenance: Seq::empty(),
                        next_promise: 0,
                    },
                    steps.take(i),
                ),
                #[trigger] steps[i],
            ),
    ensures
        valid_manager(
            after_steps(
                ManagerView {
                    active: Seq::empty(),
                    transitions: Seq::empty(),
                    provenance: Seq::empty(),
                    next_promise: 0,
                },
                steps,
            ),
        ),
    decreases steps.len(),
{
    let empty = ManagerView {
        active: Seq::empty(),
        transitions: Seq::empty(),
        provenance: Seq::empty(),
        next_promise: 0,
    };
    if steps.len() == 0 {
        lemma_new_manager_valid();
    } else {
        let n = steps.len() - 1;
        let earlier = steps.drop_last();
        assert forall|i: int|
            0 <= i < earlier.len() implies admissible(after_steps(empty, earlier.take(i)), #[trigger] earlier[i]) by {
            assert(earlier.take(i) =~= steps.take(i));
            assert(admissible(after_steps(empty, steps.take(i)), steps[i]));
        }
        lemma_reachable_managers_validate(earlier);
        assert(steps.take(n) =~= earlier);
        assert(admissible(after_steps(empty, steps.take(n)), steps[n]));
        lemma_step_valid(after_steps(empty, earlier), steps[n]);
    }
}

} // verus!
