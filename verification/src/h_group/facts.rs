//! Current convention facts derived from the append-only explanation log.

use vstd::prelude::*;

use crate::cards::{Card, CardId, CardSet, IdentitySet, PlayerId};
use crate::h_group::{HGroupMoveKind, HGroupSignal, SignalView};

verus! {

/// Number of physical cards in a standard deck, and so of card slots.
pub const CARD_SLOTS: usize = 50;

/// How a convention identity claim applies to its referenced cards.
#[derive(Clone, Copy, Debug, PartialEq, Eq, Structural, Hash)]
pub enum IdentityClaimRelation {
    /// Every referenced card independently has this identity.
    Each,
    /// Exactly one referenced card has this identity, but the observer cannot
    /// yet determine which one.
    OneOf,
}

/// A normalized identity claim retained by current convention state.
#[derive(Clone, Debug, PartialEq, Eq)]
pub struct ConventionIdentityClaim {
    pub turn: u32,
    pub actor: PlayerId,
    pub target: Option<PlayerId>,
    pub source: HGroupMoveKind,
    pub cards: Vec<CardId>,
    pub identity: Card,
    pub relation: IdentityClaimRelation,
}

/// The contents of a claim as plain values.
pub struct ClaimView {
    pub turn: u32,
    pub actor: PlayerId,
    pub target: Option<PlayerId>,
    pub source: HGroupMoveKind,
    pub cards: Seq<CardId>,
    pub identity: Card,
    pub relation: IdentityClaimRelation,
}

impl View for ConventionIdentityClaim {
    type V = ClaimView;

    open spec fn view(&self) -> ClaimView {
        ClaimView {
            turn: self.turn,
            actor: self.actor,
            target: self.target,
            source: self.source,
            cards: self.cards@,
            identity: self.identity,
            relation: self.relation,
        }
    }
}

/// The claims as plain values.
pub open spec fn claim_views(claims: Seq<ConventionIdentityClaim>) -> Seq<ClaimView> {
    claims.map_values(|c: ConventionIdentityClaim| c@)
}

/// Current convention facts as plain values: the fixed cards, per card slot
/// the known identity with its conflict flag, the excluded identities and the
/// demonstrated layer with its conflict flag, the cards under an active
/// priority, and the retained identity claims.
pub struct FactsView {
    pub fixed: Set<CardId>,
    pub known: Seq<Option<Card>>,
    pub conflicts: Seq<bool>,
    pub excluded: Seq<Set<Card>>,
    pub layers: Seq<Option<Card>>,
    pub layer_conflicts: Seq<bool>,
    pub priority: Set<CardId>,
    pub claims: Seq<ClaimView>,
}

/// Current convention facts derived from the append-only explanation log.
///
/// `HGroupSignal` answers "why did we infer this?"; this type answers "what is
/// true now?" Rules query this index rather than searching old signals and
/// accidentally treating a cancelled interpretation as live state.
#[derive(Clone, Debug)]
pub struct ConventionFacts {
    fixed_cards: CardSet,
    known_identities: Vec<Option<Card>>,
    known_conflicts: Vec<bool>,
    excluded_identities: Vec<IdentitySet>,
    demonstrated_layers: Vec<Option<Card>>,
    layer_conflicts: Vec<bool>,
    active_priority: CardSet,
    identity_claims: Vec<ConventionIdentityClaim>,
}

impl View for ConventionFacts {
    type V = FactsView;

    closed spec fn view(&self) -> FactsView {
        FactsView {
            fixed: self.fixed_cards@,
            known: self.known_identities@,
            conflicts: self.known_conflicts@,
            excluded: set_views(self.excluded_identities@),
            layers: self.demonstrated_layers@,
            layer_conflicts: self.layer_conflicts@,
            priority: self.active_priority@,
            claims: claim_views(self.identity_claims@),
        }
    }
}

/// The identities of each set.
pub open spec fn set_views(sets: Seq<IdentitySet>) -> Seq<Set<Card>> {
    sets.map_values(|s: IdentitySet| s@)
}

/// The facts before any signal.
pub open spec fn initial_facts() -> FactsView {
    FactsView {
        fixed: Set::empty(),
        known: Seq::new(50, |i: int| None::<Card>),
        conflicts: Seq::new(50, |i: int| false),
        excluded: Seq::new(50, |i: int| Set::<Card>::empty()),
        layers: Seq::new(50, |i: int| None::<Card>),
        layer_conflicts: Seq::new(50, |i: int| false),
        priority: Set::empty(),
        claims: Seq::empty(),
    }
}

/// Every per-card table has one entry per card slot.
pub open spec fn facts_shape(f: FactsView) -> bool {
    &&& f.known.len() == 50
    &&& f.conflicts.len() == 50
    &&& f.excluded.len() == 50
    &&& f.layers.len() == 50
    &&& f.layer_conflicts.len() == 50
}

/// Every card of `cards` has a slot.
pub open spec fn cards_in_range(cards: Seq<CardId>) -> bool {
    forall|k: int| 0 <= k < cards.len() ==> (#[trigger] cards[k]).id < 50
}

/// Whether some card of `cards` occupies slot `i`.
pub open spec fn touches_slot(cards: Seq<CardId>, i: int) -> bool {
    cards.contains(CardId { id: i as u8 })
}

/// The result of merging `identity` into a slot: an empty slot takes it, a
/// slot holding it keeps it, a slot holding another identity becomes a
/// conflict, and a conflict stays a conflict.
pub open spec fn merged(slot: Option<Card>, conflict: bool, identity: Card) -> (Option<Card>, bool) {
    if conflict {
        (slot, conflict)
    } else {
        match slot {
            None => (Some(identity), false),
            Some(existing) => if existing == identity {
                (slot, conflict)
            } else {
                (None, true)
            },
        }
    }
}

/// Merging the same identity twice is merging it once.
pub proof fn lemma_merged_idempotent(slot: Option<Card>, conflict: bool, identity: Card)
    ensures
        merged(merged(slot, conflict, identity).0, merged(slot, conflict, identity).1, identity)
            == merged(slot, conflict, identity),
{
}

/// Merges `identity` into a slot.
fn merge_identity(slot: Option<Card>, conflict: bool, identity: Card) -> (r: (Option<Card>, bool))
    ensures
        r == merged(slot, conflict, identity),
{
    if conflict {
        return (slot, conflict);
    }
    match slot {
        None => (Some(identity), false),
        Some(existing) => if existing == identity {
            (slot, conflict)
        } else {
            (None, true)
        },
    }
}

/// `set` with the cards of `cards` added (`fixed`) or removed.
pub open spec fn with_cards(set: Set<CardId>, cards: Seq<CardId>, added: bool) -> Set<CardId> {
    if added {
        set.union(cards.to_set())
    } else {
        set.difference(cards.to_set())
    }
}

impl ConventionFacts {
    /// Every per-card table has one slot per card and the card sets list no
    /// card twice.
    pub closed spec fn wf(&self) -> bool {
        &&& self.fixed_cards.wf()
        &&& self.active_priority.wf()
        &&& self.known_identities@.len() == 50
        &&& self.known_conflicts@.len() == 50
        &&& self.excluded_identities@.len() == 50
        &&& self.demonstrated_layers@.len() == 50
        &&& self.layer_conflicts@.len() == 50
        &&& forall|i: int| 0 <= i < 50 ==> (#[trigger] self.excluded_identities@[i]).wf()
    }

    /// Well-formed facts have one entry per card slot.
    pub proof fn lemma_shape(&self)
        requires
            self.wf(),
        ensures
            facts_shape(self@),
    {
    }

    /// The facts before any signal.
    pub fn new() -> (f: Self)
        ensures
            f.wf(),
            f@ == initial_facts(),
    {
        let mut known_identities: Vec<Option<Card>> = Vec::new();
        let mut known_conflicts: Vec<bool> = Vec::new();
        let mut excluded_identities: Vec<IdentitySet> = Vec::new();
        let mut demonstrated_layers: Vec<Option<Card>> = Vec::new();
        let mut layer_conflicts: Vec<bool> = Vec::new();
        let mut i: usize = 0;
        while i < CARD_SLOTS
            invariant
                i <= 50,
                known_identities@ == Seq::new(i as nat, |k: int| None::<Card>),
                known_conflicts@ == Seq::new(i as nat, |k: int| false),
                excluded_identities@.len() == i,
                forall|k: int| 0 <= k < i ==> (#[trigger] excluded_identities@[k]).wf() && excluded_identities@[k]@ == Set::<Card>::empty(),
                demonstrated_layers@ == Seq::new(i as nat, |k: int| None::<Card>),
                layer_conflicts@ == Seq::new(i as nat, |k: int| false),
            decreases 50 - i,
        {
            known_identities.push(None);
            known_conflicts.push(false);
            excluded_identities.push(IdentitySet::empty());
            demonstrated_layers.push(None);
            layer_conflicts.push(false);
            i = i + 1;
            proof {
                assert(known_identities@ =~= Seq::new(i as nat, |k: int| None::<Card>));
                assert(known_conflicts@ =~= Seq::new(i as nat, |k: int| false));
                assert(demonstrated_layers@ =~= Seq::new(i as nat, |k: int| None::<Card>));
                assert(layer_conflicts@ =~= Seq::new(i as nat, |k: int| false));
            }
        }
        let f = ConventionFacts {
            fixed_cards: CardSet::new(),
            known_identities,
            known_conflicts,
            excluded_identities,
            demonstrated_layers,
            layer_conflicts,
            active_priority: CardSet::new(),
            identity_claims: Vec::new(),
        };
        proof {
            assert(f@.excluded =~= Seq::new(50, |i: int| Set::<Card>::empty()));
            assert(f@.claims =~= Seq::<ClaimView>::empty());
        }
        f
    }

    /// Marks `cards` as fixed, or clears their fixed mark.
    pub fn set_fixed(&mut self, cards: &Vec<CardId>, fixed: bool)
        requires
            old(self).wf(),
        ensures
            final(self).wf(),
            final(self)@ == (FactsView { fixed: with_cards(old(self)@.fixed, cards@, fixed), ..old(self)@ }),
    {
        let ghost start = self.fixed_cards@;
        let mut k: usize = 0;
        while k < cards.len()
            invariant
                k <= cards@.len(),
                self.fixed_cards.wf(),
                self.fixed_cards@ == with_cards(start, cards@.take(k as int), fixed),
                self.known_identities == old(self).known_identities,
                self.known_conflicts == old(self).known_conflicts,
                self.excluded_identities == old(self).excluded_identities,
                self.demonstrated_layers == old(self).demonstrated_layers,
                self.layer_conflicts == old(self).layer_conflicts,
                self.active_priority == old(self).active_priority,
                self.identity_claims == old(self).identity_claims,
                start == old(self).fixed_cards@,
            decreases cards@.len() - k,
        {
            let card = cards[k];
            if fixed {
                self.fixed_cards.insert(card);
            } else {
                self.fixed_cards.remove(&card);
            }
            proof {
                lemma_take_to_set_push(cards@, k as int);
                assert(self.fixed_cards@ =~= with_cards(start, cards@.take(k + 1), fixed));
            }
            k = k + 1;
        }
        proof {
            assert(cards@.take(k as int) =~= cards@);
        }
    }

    /// Marks `cards` as under an active priority, or clears the mark.
    pub fn set_priority(&mut self, cards: &Vec<CardId>, active: bool)
        requires
            old(self).wf(),
        ensures
            final(self).wf(),
            final(self)@ == (FactsView { priority: with_cards(old(self)@.priority, cards@, active), ..old(self)@ }),
    {
        let ghost start = self.active_priority@;
        let mut k: usize = 0;
        while k < cards.len()
            invariant
                k <= cards@.len(),
                self.active_priority.wf(),
                self.active_priority@ == with_cards(start, cards@.take(k as int), active),
                self.known_identities == old(self).known_identities,
                self.known_conflicts == old(self).known_conflicts,
                self.excluded_identities == old(self).excluded_identities,
                self.demonstrated_layers == old(self).demonstrated_layers,
                self.layer_conflicts == old(self).layer_conflicts,
                self.fixed_cards == old(self).fixed_cards,
                self.identity_claims == old(self).identity_claims,
                start == old(self).active_priority@,
            decreases cards@.len() - k,
        {
            let card = cards[k];
            if active {
                self.active_priority.insert(card);
            } else {
                self.active_priority.remove(&card);
            }
            proof {
                lemma_take_to_set_push(cards@, k as int);
                assert(self.active_priority@ =~= with_cards(start, cards@.take(k + 1), active));
            }
            k = k + 1;
        }
        proof {
            assert(cards@.take(k as int) =~= cards@);
        }
    }

    /// The fixed cards.
    pub fn fixed_cards(&self) -> (s: &CardSet)
        ensures
            s@ == self@.fixed,
    {
        &self.fixed_cards
    }

    /// The cards under an active priority.
    pub fn active_priority(&self) -> (s: &CardSet)
        ensures
            s@ == self@.priority,
    {
        &self.active_priority
    }

    /// The identity every live claim gives `card`, unless claims conflict.
    pub fn known_identity(&self, card: CardId) -> (c: Option<Card>)
        requires
            self.wf(),
            card.id < 50,
        ensures
            c == self@.known[card.id as int],
    {
        self.known_identities[card.index()]
    }

    /// The identities `card` has been shown not to have.
    pub fn excluded_identities(&self, card: CardId) -> (s: IdentitySet)
        requires
            self.wf(),
            card.id < 50,
        ensures
            s@ == self@.excluded[card.id as int],
            s.wf(),
    {
        self.excluded_identities[card.index()]
    }

    /// The identity a Layered Finesse demonstrated for `card`, if unique.
    pub fn demonstrated_layer(&self, card: CardId) -> (c: Option<Card>)
        requires
            self.wf(),
            card.id < 50,
        ensures
            c == self@.layers[card.id as int],
    {
        self.demonstrated_layers[card.index()]
    }

    /// The retained identity claims.
    pub fn identity_claims(&self) -> (claims: &Vec<ConventionIdentityClaim>)
        ensures
            claim_views(claims@) == self@.claims,
    {
        &self.identity_claims
    }

    /// Every retained claim names at least one card.
    pub fn validate(&self) -> (r: Result<(), String>)
        ensures
            r is Ok <==> forall|k: int| 0 <= k < self@.claims.len() ==> (#[trigger] self@.claims[k]).cards.len() > 0,
    {
        let mut k: usize = 0;
        while k < self.identity_claims.len()
            invariant
                k <= self.identity_claims@.len(),
                forall|j: int| 0 <= j < k ==> (#[trigger] self.identity_claims@[j]).cards@.len() > 0,
            decreases self.identity_claims@.len() - k,
        {
            if self.identity_claims[k].cards.len() == 0 {
                proof {
                    assert(self@.claims[k as int].cards.len() == 0);
                }
                return Err("convention identity claim has no candidate cards".to_owned());
            }
            k = k + 1;
        }
        proof {
            assert forall|j: int| 0 <= j < self@.claims.len() implies (#[trigger] self@.claims[j]).cards.len() > 0 by {
                assert(self@.claims[j] == self.identity_claims@[j]@);
            }
        }
        Ok(())
    }
}

/// Adding one more card of the sequence to a set.
proof fn lemma_take_to_set_push(cards: Seq<CardId>, k: int)
    requires
        0 <= k < cards.len(),
    ensures
        cards.take(k + 1).to_set() == cards.take(k).to_set().insert(cards[k]),
{
    assert(cards.take(k + 1) =~= cards.take(k).push(cards[k]));
    cards.take(k).lemma_push_to_set_commute(cards[k]);
}

impl Default for ConventionFacts {
    fn default() -> (f: Self)
        ensures
            f.wf(),
            f@ == initial_facts(),
    {
        ConventionFacts::new()
    }
}


/// Slot `i` after `identity` was added to (`add`) or removed from the
/// excluded identities of every card of `cards`.
pub open spec fn exclude_slots(excluded: Seq<Set<Card>>, cards: Seq<CardId>, identity: Card, add: bool) -> Seq<
    Set<Card>,
> {
    Seq::new(
        excluded.len(),
        |i: int|
            if touches_slot(cards, i) {
                if add {
                    excluded[i].insert(identity)
                } else {
                    excluded[i].remove(identity)
                }
            } else {
                excluded[i]
            },
    )
}

/// The slots after `identity` was merged into every card of `cards`.
pub open spec fn merge_slots(
    known: Seq<Option<Card>>,
    conflicts: Seq<bool>,
    cards: Seq<CardId>,
    identity: Card,
) -> (Seq<Option<Card>>, Seq<bool>) {
    (
        Seq::new(
            known.len(),
            |i: int|
                if touches_slot(cards, i) {
                    merged(known[i], conflicts[i], identity).0
                } else {
                    known[i]
                },
        ),
        Seq::new(
            conflicts.len(),
            |i: int|
                if touches_slot(cards, i) {
                    merged(known[i], conflicts[i], identity).1
                } else {
                    conflicts[i]
                },
        ),
    )
}

/// The cards after the first.
pub open spec fn tail(cards: Seq<CardId>) -> Seq<CardId> {
    if cards.len() == 0 {
        cards
    } else {
        cards.subrange(1, cards.len() as int)
    }
}

/// Whether a claim over `claim_cards` refers to one of `cards`.
pub open spec fn mentions_any(claim_cards: Seq<CardId>, cards: Seq<CardId>) -> bool {
    exists|k: int| 0 <= k < claim_cards.len() && cards.contains(#[trigger] claim_cards[k])
}

/// The claims that survive a retraction of `identity` on `cards`: every
/// claim of another identity, and every claim that mentions none of them.
pub open spec fn kept_after_retraction(claims: Seq<ClaimView>, identity: Card, cards: Seq<CardId>) -> Seq<
    ClaimView,
>
    decreases claims.len(),
{
    if claims.len() == 0 {
        Seq::empty()
    } else {
        let rest = kept_after_retraction(claims.drop_last(), identity, cards);
        let c = claims.last();
        if c.identity != identity || !mentions_any(c.cards, cards) {
            rest.push(c)
        } else {
            rest
        }
    }
}

/// A positional elimination claim about `identity` for `target`, which an
/// Elimination Rewrite replaces.
pub open spec fn rewritten_by(c: ClaimView, target: Option<PlayerId>, identity: Card) -> bool {
    &&& c.target == target
    &&& c.identity == identity
    &&& (c.source == HGroupMoveKind::Elimination || c.source == HGroupMoveKind::EliminationRewrite)
}

/// The claims that survive an Elimination Rewrite.
pub open spec fn kept_after_rewrite(claims: Seq<ClaimView>, target: Option<PlayerId>, identity: Card) -> Seq<
    ClaimView,
>
    decreases claims.len(),
{
    if claims.len() == 0 {
        Seq::empty()
    } else {
        let rest = kept_after_rewrite(claims.drop_last(), target, identity);
        if rewritten_by(claims.last(), target, identity) {
            rest
        } else {
            rest.push(claims.last())
        }
    }
}

/// The slot of `card` rebuilt from the `Each` claims that mention it.
pub open spec fn rebuilt(claims: Seq<ClaimView>, card: CardId) -> (Option<Card>, bool)
    decreases claims.len(),
{
    if claims.len() == 0 {
        (None, false)
    } else {
        let prev = rebuilt(claims.drop_last(), card);
        let c = claims.last();
        if c.relation == IdentityClaimRelation::Each && c.cards.contains(card) {
            merged(prev.0, prev.1, c.identity)
        } else {
            prev
        }
    }
}

/// The slots of `cards` rebuilt from `claims`.
pub open spec fn rebuild_slots(
    known: Seq<Option<Card>>,
    conflicts: Seq<bool>,
    claims: Seq<ClaimView>,
    cards: Seq<CardId>,
) -> (Seq<Option<Card>>, Seq<bool>) {
    (
        Seq::new(
            known.len(),
            |i: int|
                if touches_slot(cards, i) {
                    rebuilt(claims, CardId { id: i as u8 }).0
                } else {
                    known[i]
                },
        ),
        Seq::new(
            conflicts.len(),
            |i: int|
                if touches_slot(cards, i) {
                    rebuilt(claims, CardId { id: i as u8 }).1
                } else {
                    conflicts[i]
                },
        ),
    )
}

/// Elimination moves claim that exactly one of their cards has the identity.
pub open spec fn claim_relation(kind: HGroupMoveKind) -> IdentityClaimRelation {
    if kind == HGroupMoveKind::Elimination || kind == HGroupMoveKind::EliminationFinesse || kind
        == HGroupMoveKind::EliminationRewrite {
        IdentityClaimRelation::OneOf
    } else {
        IdentityClaimRelation::Each
    }
}

/// The claim a signal makes about `identity`.
pub open spec fn claim_of(s: SignalView, identity: Card) -> ClaimView {
    ClaimView {
        turn: s.turn,
        actor: s.actor,
        target: s.target,
        source: s.kind,
        cards: s.cards,
        identity,
        relation: claim_relation(s.kind),
    }
}

/// `claims` with `claim` appended unless already present.
pub open spec fn with_claim(claims: Seq<ClaimView>, claim: ClaimView) -> Seq<ClaimView> {
    if claims.contains(claim) {
        claims
    } else {
        claims.push(claim)
    }
}

/// The facts after the identity part of a signal.
///
/// A retraction adds the identity to the excluded identities of its cards,
/// drops the claims it disproves and rebuilds the known identities of its
/// cards from the claims that remain. Any other identity-bearing signal
/// records its claim (an Elimination Rewrite first drops the positional
/// claim it replaces); an `Each` claim also removes the identity from the
/// excluded identities of its cards and merges it into their known
/// identities, and a Layered Finesse merges it into the demonstrated layers
/// of every card but the first.
pub open spec fn after_identity_effect(f: FactsView, s: SignalView) -> FactsView {
    match s.identity {
        None => f,
        Some(identity) => if s.kind == HGroupMoveKind::Retraction {
            let claims = kept_after_retraction(f.claims, identity, s.cards);
            let slots = rebuild_slots(f.known, f.conflicts, claims, s.cards);
            FactsView {
                excluded: exclude_slots(f.excluded, s.cards, identity, true),
                claims,
                known: slots.0,
                conflicts: slots.1,
                ..f
            }
        } else {
            let base = if s.kind == HGroupMoveKind::EliminationRewrite {
                kept_after_rewrite(f.claims, s.target, identity)
            } else {
                f.claims
            };
            let claims = with_claim(base, claim_of(s, identity));
            if claim_relation(s.kind) == IdentityClaimRelation::OneOf {
                FactsView { claims, ..f }
            } else {
                let slots = merge_slots(f.known, f.conflicts, s.cards, identity);
                let layers = if s.kind == HGroupMoveKind::LayeredFinesse {
                    merge_slots(f.layers, f.layer_conflicts, tail(s.cards), identity)
                } else {
                    (f.layers, f.layer_conflicts)
                };
                FactsView {
                    claims,
                    excluded: exclude_slots(f.excluded, s.cards, identity, false),
                    known: slots.0,
                    conflicts: slots.1,
                    layers: layers.0,
                    layer_conflicts: layers.1,
                    ..f
                }
            }
        },
    }
}

/// One more card touches exactly its own slot in addition.
proof fn lemma_touches_push(cards: Seq<CardId>, k: int, i: int)
    requires
        0 <= k < cards.len(),
        0 <= i < 50,
        cards_in_range(cards),
    ensures
        touches_slot(cards.take(k + 1), i) <==> (touches_slot(cards.take(k), i) || cards[k].id == i),
{
    let c = CardId { id: i as u8 };
    let t1 = cards.take(k + 1);
    let t0 = cards.take(k);
    assert(t1 =~= t0.push(cards[k]));
    if t1.contains(c) {
        let j = choose|j: int| 0 <= j < t1.len() && t1[j] == c;
        if j < k {
            assert(t0[j] == c);
        }
    }
    if t0.contains(c) {
        let j = choose|j: int| 0 <= j < t0.len() && t0[j] == c;
        assert(t1[j] == c);
    }
    if cards[k].id == i {
        assert(cards[k] == c);
        assert(t1[k] == c);
    }
}

/// Adds (`add`) or removes `identity` in the excluded identities of `cards`.
fn exclude_cards(excluded: &mut Vec<IdentitySet>, cards: &Vec<CardId>, identity: Card, add: bool)
    requires
        old(excluded)@.len() == 50,
        forall|i: int| 0 <= i < 50 ==> (#[trigger] old(excluded)@[i]).wf(),
        cards_in_range(cards@),
    ensures
        final(excluded)@.len() == 50,
        forall|i: int| 0 <= i < 50 ==> (#[trigger] final(excluded)@[i]).wf(),
        set_views(final(excluded)@) == exclude_slots(
            set_views(old(excluded)@),
            cards@,
            identity,
            add,
        ),
{
    let ghost start = set_views(old(excluded)@);
    let single = IdentitySet::singleton(identity);
    let mut k: usize = 0;
    while k < cards.len()
        invariant
            k <= cards@.len(),
            cards_in_range(cards@),
            single.wf(),
            single@ == Set::<Card>::empty().insert(identity),
            start.len() == 50,
            excluded@.len() == 50,
            forall|i: int| 0 <= i < 50 ==> (#[trigger] excluded@[i]).wf(),
            set_views(excluded@) == exclude_slots(start, cards@.take(k as int), identity, add),
        decreases cards@.len() - k,
    {
        let slot = cards[k].index();
        let current = excluded[slot];
        let next = if add {
            current.union(single)
        } else {
            current.without(single)
        };
        let ghost before = set_views(excluded@);
        excluded.set(slot, next);
        proof {
            assert forall|i: int| 0 <= i < 50 implies #[trigger] set_views(excluded@)[i]
                == exclude_slots(start, cards@.take(k + 1), identity, add)[i] by {
                lemma_touches_push(cards@, k as int, i);
                assert(before[i] == exclude_slots(start, cards@.take(k as int), identity, add)[i]);
                if i == slot as int {
                    assert(next@ =~= if add {
                        before[i].insert(identity)
                    } else {
                        before[i].remove(identity)
                    });
                    assert(start[i].insert(identity).insert(identity) =~= start[i].insert(identity));
                    assert(start[i].remove(identity).remove(identity) =~= start[i].remove(identity));
                }
            }
            assert(set_views(excluded@) =~= exclude_slots(
                start,
                cards@.take(k + 1),
                identity,
                add,
            ));
        }
        k = k + 1;
    }
    proof {
        assert(cards@.take(k as int) =~= cards@);
    }
}

/// Merges `identity` into the slots of the cards of `cards` from position
/// `from` on.
fn merge_cards(
    known: &mut Vec<Option<Card>>,
    conflicts: &mut Vec<bool>,
    cards: &Vec<CardId>,
    from: usize,
    identity: Card,
)
    requires
        old(known)@.len() == 50,
        old(conflicts)@.len() == 50,
        cards_in_range(cards@),
        from <= 1,
    ensures
        ({
            let merged_slots = merge_slots(
                old(known)@,
                old(conflicts)@,
                if from == 0 {
                    cards@
                } else {
                    tail(cards@)
                },
                identity,
            );
            &&& final(known)@ == merged_slots.0
            &&& final(conflicts)@ == merged_slots.1
        }),
{
    let ghost sk = old(known)@;
    let ghost sc = old(conflicts)@;
    let ghost part = if from == 0 {
        cards@
    } else {
        tail(cards@)
    };
    if cards.len() <= from {
        proof {
            assert(part.len() == 0);
            assert(merge_slots(sk, sc, part, identity).0 =~= sk);
            assert(merge_slots(sk, sc, part, identity).1 =~= sc);
        }
        return;
    }
    let mut k: usize = from;
    while k < cards.len()
        invariant
            from <= k <= cards@.len(),
            from <= 1,
            from < cards@.len(),
            part == cards@.subrange(from as int, cards@.len() as int),
            cards_in_range(cards@),
            sk.len() == 50,
            sc.len() == 50,
            known@ == merge_slots(sk, sc, part.take(k - from), identity).0,
            conflicts@ == merge_slots(sk, sc, part.take(k - from), identity).1,
        decreases cards@.len() - k,
    {
        let slot = cards[k].index();
        let r = merge_identity(known[slot], conflicts[slot], identity);
        let ghost bk = known@;
        let ghost bc = conflicts@;
        known.set(slot, r.0);
        conflicts.set(slot, r.1);
        proof {
            let j = (k - from) as int;
            assert(part[j] == cards@[k as int]);
            assert(cards_in_range(part)) by {
                assert forall|m: int| 0 <= m < part.len() implies (#[trigger] part[m]).id < 50 by {
                    assert(part[m] == cards@[m + from]);
                }
            }
            assert forall|i: int| 0 <= i < 50 implies known@[i] == merge_slots(sk, sc, part.take(j + 1), identity).0[i]
                && conflicts@[i] == merge_slots(sk, sc, part.take(j + 1), identity).1[i] by {
                lemma_touches_push(part, j, i);
                if i == slot as int {
                    lemma_merged_idempotent(sk[i], sc[i], identity);
                }
            }
            assert(known@ =~= merge_slots(sk, sc, part.take(j + 1), identity).0);
            assert(conflicts@ =~= merge_slots(sk, sc, part.take(j + 1), identity).1);
        }
        k = k + 1;
    }
    proof {
        assert(part.take(k - from) =~= part);
    }
}

/// Whether `card` is listed in `cards`.
fn card_listed(cards: &Vec<CardId>, card: CardId) -> (b: bool)
    ensures
        b == cards@.contains(card),
{
    let mut i: usize = 0;
    while i < cards.len()
        invariant
            i <= cards@.len(),
            forall|k: int| 0 <= k < i ==> cards@[k] != card,
        decreases cards@.len() - i,
    {
        if cards[i] == card {
            proof {
                assert(cards@[i as int] == card);
            }
            return true;
        }
        i = i + 1;
    }
    false
}

/// A copy of `cards`.
pub(crate) fn copy_ids(cards: &Vec<CardId>) -> (r: Vec<CardId>)
    ensures
        r@ == cards@,
{
    let mut r: Vec<CardId> = Vec::new();
    let mut i: usize = 0;
    while i < cards.len()
        invariant
            i <= cards@.len(),
            r@ == cards@.take(i as int),
        decreases cards@.len() - i,
    {
        r.push(cards[i]);
        i = i + 1;
        proof {
            assert(r@ =~= cards@.take(i as int));
        }
    }
    proof {
        assert(cards@.take(i as int) =~= cards@);
    }
    r
}

/// Whether `a` and `b` list the same cards in the same order.
pub(crate) fn same_ids(a: &Vec<CardId>, b: &Vec<CardId>) -> (r: bool)
    ensures
        r == (a@ == b@),
{
    if a.len() != b.len() {
        return false;
    }
    let mut i: usize = 0;
    while i < a.len()
        invariant
            a@.len() == b@.len(),
            i <= a@.len(),
            forall|k: int| 0 <= k < i ==> a@[k] == b@[k],
        decreases a@.len() - i,
    {
        if a[i] != b[i] {
            return false;
        }
        i = i + 1;
    }
    proof {
        assert(a@ =~= b@);
    }
    true
}

/// A copy of `claim`.
fn copy_claim(claim: &ConventionIdentityClaim) -> (r: ConventionIdentityClaim)
    ensures
        r@ == claim@,
{
    ConventionIdentityClaim {
        turn: claim.turn,
        actor: claim.actor,
        target: claim.target,
        source: claim.source,
        cards: copy_ids(&claim.cards),
        identity: claim.identity,
        relation: claim.relation,
    }
}

/// Whether `a` and `b` make the same claim.
fn same_claim(a: &ConventionIdentityClaim, b: &ConventionIdentityClaim) -> (r: bool)
    ensures
        r == (a@ == b@),
{
    a.turn == b.turn && a.actor == b.actor && a.target == b.target && a.source == b.source
        && a.identity == b.identity && a.relation == b.relation && same_ids(&a.cards, &b.cards)
}

/// Whether `claims` hold a claim equal to `claim`.
fn holds_claim(claims: &Vec<ConventionIdentityClaim>, claim: &ConventionIdentityClaim) -> (b: bool)
    ensures
        b == claim_views(claims@).contains(claim@),
{
    let mut i: usize = 0;
    while i < claims.len()
        invariant
            i <= claims@.len(),
            forall|k: int| 0 <= k < i ==> claims@[k]@ != claim@,
        decreases claims@.len() - i,
    {
        if same_claim(&claims[i], claim) {
            proof {
                assert(claim_views(claims@)[i as int] == claim@);
            }
            return true;
        }
        i = i + 1;
    }
    proof {
        if claim_views(claims@).contains(claim@) {
            let k = choose|k: int| 0 <= k < claim_views(claims@).len() && claim_views(claims@)[k] == claim@;
            assert(claims@[k]@ == claim@);
        }
    }
    false
}

/// Whether a claim over `claim_cards` refers to one of `cards`.
fn mentions_any_of(claim_cards: &Vec<CardId>, cards: &Vec<CardId>) -> (b: bool)
    ensures
        b == mentions_any(claim_cards@, cards@),
{
    let mut i: usize = 0;
    while i < claim_cards.len()
        invariant
            i <= claim_cards@.len(),
            forall|k: int| 0 <= k < i ==> !cards@.contains(#[trigger] claim_cards@[k]),
        decreases claim_cards@.len() - i,
    {
        if card_listed(cards, claim_cards[i]) {
            return true;
        }
        i = i + 1;
    }
    false
}

/// The claims that survive a retraction of `identity` on `cards`.
fn retain_after_retraction(claims: &Vec<ConventionIdentityClaim>, identity: Card, cards: &Vec<CardId>) -> (r: Vec<
    ConventionIdentityClaim,
>)
    ensures
        claim_views(r@) == kept_after_retraction(claim_views(claims@), identity, cards@),
{
    let mut r: Vec<ConventionIdentityClaim> = Vec::new();
    let mut i: usize = 0;
    while i < claims.len()
        invariant
            i <= claims@.len(),
            claim_views(r@) == kept_after_retraction(claim_views(claims@).take(i as int), identity, cards@),
        decreases claims@.len() - i,
    {
        let ghost before = r@;
        proof {
            assert(claim_views(claims@).take(i + 1).drop_last() =~= claim_views(claims@).take(i as int));
        }
        if claims[i].identity != identity || !mentions_any_of(&claims[i].cards, cards) {
            r.push(copy_claim(&claims[i]));
            proof {
                assert(claim_views(r@) =~= claim_views(before).push(claims@[i as int]@));
            }
        }
        i = i + 1;
    }
    proof {
        assert(claim_views(claims@).take(i as int) =~= claim_views(claims@));
    }
    r
}

/// The claims that survive an Elimination Rewrite.
fn retain_after_rewrite(claims: &Vec<ConventionIdentityClaim>, target: Option<PlayerId>, identity: Card) -> (r: Vec<
    ConventionIdentityClaim,
>)
    ensures
        claim_views(r@) == kept_after_rewrite(claim_views(claims@), target, identity),
{
    let mut r: Vec<ConventionIdentityClaim> = Vec::new();
    let mut i: usize = 0;
    while i < claims.len()
        invariant
            i <= claims@.len(),
            claim_views(r@) == kept_after_rewrite(claim_views(claims@).take(i as int), target, identity),
        decreases claims@.len() - i,
    {
        let ghost before = r@;
        proof {
            assert(claim_views(claims@).take(i + 1).drop_last() =~= claim_views(claims@).take(i as int));
        }
        let c = &claims[i];
        let rewritten = c.target == target && c.identity == identity && (c.source
            == HGroupMoveKind::Elimination || c.source == HGroupMoveKind::EliminationRewrite);
        if !rewritten {
            r.push(copy_claim(c));
            proof {
                assert(claim_views(r@) =~= claim_views(before).push(claims@[i as int]@));
            }
        }
        i = i + 1;
    }
    proof {
        assert(claim_views(claims@).take(i as int) =~= claim_views(claims@));
    }
    r
}

/// The slot of `card` rebuilt from the `Each` claims that mention it.
fn rebuild_slot(claims: &Vec<ConventionIdentityClaim>, card: CardId) -> (r: (Option<Card>, bool))
    ensures
        r == rebuilt(claim_views(claims@), card),
{
    let mut slot: Option<Card> = None;
    let mut conflict = false;
    let mut i: usize = 0;
    while i < claims.len()
        invariant
            i <= claims@.len(),
            (slot, conflict) == rebuilt(claim_views(claims@).take(i as int), card),
        decreases claims@.len() - i,
    {
        proof {
            assert(claim_views(claims@).take(i + 1).drop_last() =~= claim_views(claims@).take(i as int));
            assert(claim_views(claims@).take(i + 1).last() == claims@[i as int]@);
        }
        let c = &claims[i];
        if c.relation == IdentityClaimRelation::Each && card_listed(&c.cards, card) {
            let r = merge_identity(slot, conflict, c.identity);
            slot = r.0;
            conflict = r.1;
        }
        i = i + 1;
    }
    proof {
        assert(claim_views(claims@).take(i as int) =~= claim_views(claims@));
    }
    (slot, conflict)
}

/// The relation of the claim a move of `kind` makes.
fn relation_of(kind: HGroupMoveKind) -> (r: IdentityClaimRelation)
    ensures
        r == claim_relation(kind),
{
    if kind == HGroupMoveKind::Elimination || kind == HGroupMoveKind::EliminationFinesse || kind
        == HGroupMoveKind::EliminationRewrite {
        IdentityClaimRelation::OneOf
    } else {
        IdentityClaimRelation::Each
    }
}

impl ConventionFacts {
    /// Rebuilds the known identities of `cards` from the retained claims.
    fn rebuild_known_identities(&mut self, cards: &Vec<CardId>)
        requires
            old(self).wf(),
            cards_in_range(cards@),
        ensures
            final(self).wf(),
            ({
                let slots = rebuild_slots(old(self)@.known, old(self)@.conflicts, old(self)@.claims, cards@);
                final(self)@ == (FactsView { known: slots.0, conflicts: slots.1, ..old(self)@ })
            }),
    {
        let ghost sk = self.known_identities@;
        let ghost sc = self.known_conflicts@;
        let ghost claims = self@.claims;
        let mut k: usize = 0;
        while k < cards.len()
            invariant
                k <= cards@.len(),
                cards_in_range(cards@),
                sk.len() == 50,
                sc.len() == 50,
                claims == claim_views(self.identity_claims@),
                self.known_identities@ == rebuild_slots(sk, sc, claims, cards@.take(k as int)).0,
                self.known_conflicts@ == rebuild_slots(sk, sc, claims, cards@.take(k as int)).1,
                self.fixed_cards == old(self).fixed_cards,
                self.excluded_identities == old(self).excluded_identities,
                self.demonstrated_layers == old(self).demonstrated_layers,
                self.layer_conflicts == old(self).layer_conflicts,
                self.active_priority == old(self).active_priority,
                self.identity_claims == old(self).identity_claims,
                sk == old(self).known_identities@,
                sc == old(self).known_conflicts@,
                old(self).wf(),
            decreases cards@.len() - k,
        {
            let card = cards[k];
            let slot = card.index();
            let r = rebuild_slot(&self.identity_claims, card);
            self.known_identities.set(slot, r.0);
            self.known_conflicts.set(slot, r.1);
            proof {
                assert forall|i: int| 0 <= i < 50 implies self.known_identities@[i] == rebuild_slots(
                    sk,
                    sc,
                    claims,
                    cards@.take(k + 1),
                ).0[i] && self.known_conflicts@[i] == rebuild_slots(sk, sc, claims, cards@.take(k + 1)).1[i] by {
                    lemma_touches_push(cards@, k as int, i);
                    if i == slot as int {
                        assert(card == CardId { id: i as u8 });
                    }
                }
                assert(self.known_identities@ =~= rebuild_slots(sk, sc, claims, cards@.take(k + 1)).0);
                assert(self.known_conflicts@ =~= rebuild_slots(sk, sc, claims, cards@.take(k + 1)).1);
            }
            k = k + 1;
        }
        proof {
            assert(cards@.take(k as int) =~= cards@);
        }
    }

    /// Incrementally materializes the identity part of one explanation
    /// signal into current facts.
    pub fn apply_identity_effect(&mut self, signal: &HGroupSignal)
        requires
            old(self).wf(),
            cards_in_range(signal@.cards),
        ensures
            final(self).wf(),
            final(self)@ == after_identity_effect(old(self)@, signal@),
    {
        let identity = match signal.identity {
            None => {
                return;
            },
            Some(identity) => identity,
        };
        if signal.kind == HGroupMoveKind::Retraction {
            exclude_cards(&mut self.excluded_identities, &signal.cards, identity, true);
            let kept = retain_after_retraction(&self.identity_claims, identity, &signal.cards);
            self.identity_claims = kept;
            self.rebuild_known_identities(&signal.cards);
            return;
        }
        if signal.kind == HGroupMoveKind::EliminationRewrite {
            let kept = retain_after_rewrite(&self.identity_claims, signal.target, identity);
            self.identity_claims = kept;
        }
        let relation = relation_of(signal.kind);
        let claim = ConventionIdentityClaim {
            turn: signal.turn,
            actor: signal.actor,
            target: signal.target,
            source: signal.kind,
            cards: copy_ids(&signal.cards),
            identity,
            relation,
        };
        proof {
            assert(claim@ == claim_of(signal@, identity));
        }
        if !holds_claim(&self.identity_claims, &claim) {
            let ghost before = self.identity_claims@;
            self.identity_claims.push(claim);
            proof {
                assert(claim_views(self.identity_claims@) =~= claim_views(before).push(claim_of(signal@, identity)));
            }
        }
        if relation == IdentityClaimRelation::OneOf {
            return;
        }
        exclude_cards(&mut self.excluded_identities, &signal.cards, identity, false);
        merge_cards(&mut self.known_identities, &mut self.known_conflicts, &signal.cards, 0, identity);
        if signal.kind == HGroupMoveKind::LayeredFinesse {
            merge_cards(&mut self.demonstrated_layers, &mut self.layer_conflicts, &signal.cards, 1, identity);
        }
    }
}

/// The facts after the fixed and priority part of a signal: a Fix Clue
/// fixes its cards, a Play Clue unfixes them, a Priority signal activates
/// priority on them and a Retraction withdraws it.
pub open spec fn after_marks(f: FactsView, s: SignalView) -> FactsView {
    if s.kind == HGroupMoveKind::FixClue {
        FactsView { fixed: with_cards(f.fixed, s.cards, true), ..f }
    } else if s.kind == HGroupMoveKind::PlayClue {
        FactsView { fixed: with_cards(f.fixed, s.cards, false), ..f }
    } else if s.kind == HGroupMoveKind::Priority {
        FactsView { priority: with_cards(f.priority, s.cards, true), ..f }
    } else if s.kind == HGroupMoveKind::Retraction {
        FactsView { priority: with_cards(f.priority, s.cards, false), ..f }
    } else {
        f
    }
}

/// The facts after one explanation signal.
pub open spec fn after_signal(f: FactsView, s: SignalView) -> FactsView {
    after_identity_effect(after_marks(f, s), s)
}

/// The signals as plain values.
pub open spec fn signal_views(signals: Seq<HGroupSignal>) -> Seq<SignalView> {
    signals.map_values(|s: HGroupSignal| s@)
}

/// The facts after a sequence of signals, in order.
pub open spec fn after_signals(f: FactsView, signals: Seq<SignalView>) -> FactsView
    decreases signals.len(),
{
    if signals.len() == 0 {
        f
    } else {
        after_signal(after_signals(f, signals.drop_last()), signals.last())
    }
}

impl ConventionFacts {
    /// Incrementally materializes one explanation signal into current facts.
    pub fn apply_signal(&mut self, signal: &HGroupSignal)
        requires
            old(self).wf(),
            cards_in_range(signal@.cards),
        ensures
            final(self).wf(),
            final(self)@ == after_signal(old(self)@, signal@),
    {
        if signal.kind == HGroupMoveKind::FixClue {
            self.set_fixed(&signal.cards, true);
        } else if signal.kind == HGroupMoveKind::PlayClue {
            self.set_fixed(&signal.cards, false);
        } else if signal.kind == HGroupMoveKind::Priority {
            self.set_priority(&signal.cards, true);
        } else if signal.kind == HGroupMoveKind::Retraction {
            self.set_priority(&signal.cards, false);
        }
        self.apply_identity_effect(signal);
    }

    /// The facts after applying `signals` in order to empty facts.
    pub fn from_signals(signals: &Vec<HGroupSignal>) -> (f: Self)
        requires
            forall|k: int| 0 <= k < signals@.len() ==> cards_in_range(#[trigger] signals@[k]@.cards),
        ensures
            f.wf(),
            f@ == after_signals(initial_facts(), signal_views(signals@)),
    {
        let mut facts = ConventionFacts::new();
        let mut k: usize = 0;
        while k < signals.len()
            invariant
                k <= signals@.len(),
                forall|j: int| 0 <= j < signals@.len() ==> cards_in_range(#[trigger] signals@[j]@.cards),
                facts.wf(),
                facts@ == after_signals(initial_facts(), signal_views(signals@).take(k as int)),
            decreases signals@.len() - k,
        {
            proof {
                assert(signal_views(signals@).take(k + 1).drop_last() =~= signal_views(signals@).take(k as int));
                assert(signal_views(signals@).take(k + 1).last() == signals@[k as int]@);
            }
            facts.apply_signal(&signals[k]);
            k = k + 1;
        }
        proof {
            assert(signal_views(signals@).take(k as int) =~= signal_views(signals@));
        }
        facts
    }
}

proof fn lemma_kept_after_retraction_keeps(claims: Seq<ClaimView>, identity: Card, cards: Seq<CardId>)
    ensures
        forall|k: int| 0 <= k < kept_after_retraction(claims, identity, cards).len() ==> ({
            let c = #[trigger] kept_after_retraction(claims, identity, cards)[k];
            c.identity != identity || !mentions_any(c.cards, cards)
        }),
        (forall|k: int| 0 <= k < claims.len() ==> ({
            let c = #[trigger] claims[k];
            c.identity != identity || !mentions_any(c.cards, cards)
        })) ==> kept_after_retraction(claims, identity, cards) == claims,
    decreases claims.len(),
{
    if claims.len() > 0 {
        let init = claims.drop_last();
        lemma_kept_after_retraction_keeps(init, identity, cards);
        if forall|k: int| 0 <= k < claims.len() ==> ({
            let c = #[trigger] claims[k];
            c.identity != identity || !mentions_any(c.cards, cards)
        }) {
            assert forall|k: int| 0 <= k < init.len() implies ({
                let c = #[trigger] init[k];
                c.identity != identity || !mentions_any(c.cards, cards)
            }) by {
                assert(init[k] == claims[k]);
            }
            let last = claims[claims.len() - 1];
            assert(last.identity != identity || !mentions_any(last.cards, cards));
            assert(kept_after_retraction(claims, identity, cards) =~= init.push(claims.last()));
            assert(init.push(claims.last()) =~= claims);
        }
    }
}

proof fn lemma_kept_after_rewrite_keeps(claims: Seq<ClaimView>, target: Option<PlayerId>, identity: Card)
    ensures
        forall|k: int| 0 <= k < kept_after_rewrite(claims, target, identity).len() ==> !rewritten_by(
            #[trigger] kept_after_rewrite(claims, target, identity)[k],
            target,
            identity,
        ),
        (forall|k: int| 0 <= k < claims.len() ==> !rewritten_by(#[trigger] claims[k], target, identity))
            ==> kept_after_rewrite(claims, target, identity) == claims,
    decreases claims.len(),
{
    if claims.len() > 0 {
        let init = claims.drop_last();
        lemma_kept_after_rewrite_keeps(init, target, identity);
        let r = kept_after_rewrite(claims, target, identity);
        let rest = kept_after_rewrite(init, target, identity);
        assert forall|k: int| 0 <= k < r.len() implies !rewritten_by(#[trigger] r[k], target, identity) by {
            if k < rest.len() {
                assert(r[k] == rest[k]);
            }
        }
        if forall|k: int| 0 <= k < claims.len() ==> !rewritten_by(#[trigger] claims[k], target, identity) {
            assert forall|k: int| 0 <= k < init.len() implies !rewritten_by(#[trigger] init[k], target, identity) by {
                assert(init[k] == claims[k]);
            }
            assert(!rewritten_by(claims[claims.len() - 1], target, identity));
            assert(init.push(claims.last()) =~= claims);
        }
    }
}

proof fn lemma_identity_effect_idempotent(f: FactsView, s: SignalView)
    requires
        facts_shape(f),
    ensures
        after_identity_effect(after_identity_effect(f, s), s) == after_identity_effect(f, s),
{
    match s.identity {
        None => {},
        Some(identity) => {
            let a = after_identity_effect(f, s);
            let b = after_identity_effect(a, s);
            if s.kind == HGroupMoveKind::Retraction {
                let claims = kept_after_retraction(f.claims, identity, s.cards);
                lemma_kept_after_retraction_keeps(f.claims, identity, s.cards);
                lemma_kept_after_retraction_keeps(claims, identity, s.cards);
                assert(b.claims == a.claims);
                assert(b.excluded =~= a.excluded) by {
                    assert forall|i: int| 0 <= i < a.excluded.len() implies b.excluded[i] == a.excluded[i] by {
                        if touches_slot(s.cards, i) {
                            assert(f.excluded[i].insert(identity).insert(identity) =~= f.excluded[i].insert(identity));
                        }
                    }
                }
                assert(b.known =~= a.known);
                assert(b.conflicts =~= a.conflicts);
            } else {
                let base = if s.kind == HGroupMoveKind::EliminationRewrite {
                    kept_after_rewrite(f.claims, s.target, identity)
                } else {
                    f.claims
                };
                let claim = claim_of(s, identity);
                if s.kind == HGroupMoveKind::EliminationRewrite {
                    lemma_kept_after_rewrite_keeps(f.claims, s.target, identity);
                    assert(rewritten_by(claim, s.target, identity));
                    assert(!base.contains(claim)) by {
                        if base.contains(claim) {
                            let k = choose|k: int| 0 <= k < base.len() && base[k] == claim;
                            assert(!rewritten_by(base[k], s.target, identity));
                        }
                    }
                    assert(a.claims == base.push(claim));
                    lemma_kept_after_rewrite_keeps(base, s.target, identity);
                    lemma_kept_after_rewrite_keeps(a.claims, s.target, identity);
                    assert(kept_after_rewrite(a.claims, s.target, identity) =~= kept_after_rewrite(
                        base,
                        s.target,
                        identity,
                    )) by {
                        assert(a.claims.drop_last() =~= base);
                    }
                    assert(kept_after_rewrite(base, s.target, identity) == base);
                } else {
                    assert(with_claim(a.claims, claim) =~= a.claims) by {
                        assert(a.claims.contains(claim)) by {
                            if !base.contains(claim) {
                                assert(a.claims[a.claims.len() - 1] == claim);
                            }
                        }
                    }
                }
                assert(b.claims == a.claims);
                if claim_relation(s.kind) == IdentityClaimRelation::Each {
                    assert(b.excluded =~= a.excluded) by {
                        assert forall|i: int| 0 <= i < a.excluded.len() implies b.excluded[i] == a.excluded[i] by {
                            if touches_slot(s.cards, i) {
                                assert(f.excluded[i].remove(identity).remove(identity) =~= f.excluded[i].remove(identity));
                            }
                        }
                    }
                    assert forall|i: int| 0 <= i < f.known.len() implies #[trigger] b.known[i] == a.known[i] && b.conflicts[i] == a.conflicts[i] by {
                        lemma_merged_idempotent(f.known[i], f.conflicts[i], identity);
                    }
                    assert(b.known =~= a.known);
                    assert(b.conflicts =~= a.conflicts);
                    if s.kind == HGroupMoveKind::LayeredFinesse {
                        assert forall|i: int| 0 <= i < f.layers.len() implies #[trigger] b.layers[i] == a.layers[i] && b.layer_conflicts[i] == a.layer_conflicts[i] by {
                            lemma_merged_idempotent(f.layers[i], f.layer_conflicts[i], identity);
                        }
                        assert(b.layers =~= a.layers);
                        assert(b.layer_conflicts =~= a.layer_conflicts);
                    }
                }
            }
        },
    }
}

/// Applying the same explanation signal twice leaves the same facts as
/// applying it once.
pub proof fn lemma_apply_signal_idempotent(f: FactsView, s: SignalView)
    requires
        facts_shape(f),
    ensures
        after_signal(after_signal(f, s), s) == after_signal(f, s),
{
    let g = after_marks(f, s);
    let a = after_identity_effect(g, s);
    lemma_identity_effect_idempotent(g, s);
    assert(after_marks(a, s) == (FactsView { fixed: after_marks(a, s).fixed, priority: after_marks(a, s).priority, ..a }));
    assert(after_marks(a, s).fixed =~= a.fixed);
    assert(after_marks(a, s).priority =~= a.priority);
    assert(after_marks(a, s) == a);
}

} // verus!
