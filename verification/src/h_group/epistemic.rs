//! What one observer is entitled to believe about every current card.

use vstd::prelude::*;

use crate::cards::{Card, CardId, IdentitySet, PlayerId};
use crate::h_group::admission::VisibleCard;
use crate::h_group::constraint_graph::DomainEntry;

verus! {

/// Why an observer may retain a card identity domain.
#[derive(Clone, Copy, Debug, PartialEq, Eq, Structural)]
pub enum BeliefProvenance {
    Visible,
    Logical,
    Convention,
}

/// Everything one observer is entitled to believe about one current card.
#[derive(Clone, Copy, Debug, PartialEq, Eq, Structural)]
pub struct CardBelief {
    pub card: CardId,
    pub owner: PlayerId,
    pub observer: PlayerId,
    pub identities: IdentitySet,
    pub provenance: BeliefProvenance,
}

/// A belief as plain values.
pub struct BeliefView {
    pub card: CardId,
    pub owner: PlayerId,
    pub observer: PlayerId,
    pub identities: Set<Card>,
    pub provenance: BeliefProvenance,
}

impl View for CardBelief {
    type V = BeliefView;

    open spec fn view(&self) -> BeliefView {
        BeliefView {
            card: self.card,
            owner: self.owner,
            observer: self.observer,
            identities: self.identities@,
            provenance: self.provenance,
        }
    }
}

impl CardBelief {
    /// The identity, when the belief allows exactly one.
    pub fn known_identity(self) -> (r: Option<Card>)
        ensures
            r == crate::h_group::claims::sole_member(self.identities),
    {
        self.identities.sole()
    }
}

/// The domain the first entry for `card` gives, or the empty domain.
pub open spec fn domain_from(entries: Seq<DomainEntry>, card: CardId, k: int) -> Option<IdentitySet>
    decreases entries.len() - k,
{
    if k < 0 || k >= entries.len() {
        None
    } else if entries[k].0 == card {
        Some(entries[k].1)
    } else {
        domain_from(entries, card, k + 1)
    }
}

/// Every domain of the entries is well formed.
pub open spec fn domains_wf(entries: Seq<DomainEntry>) -> bool {
    forall|k: int| 0 <= k < entries.len() ==> (#[trigger] entries[k]).1.wf()
}

/// The belief of `observer` about the card `c` held by `owner`: for an own
/// card, its logical domain narrowed by the convention note when that
/// leaves something; for a visible card, its identity; nothing for another
/// player's unresolved card.
pub open spec fn belief_of(
    observer: PlayerId,
    owner: PlayerId,
    c: VisibleCard,
    logical: Seq<DomainEntry>,
    notes: Seq<DomainEntry>,
) -> Option<BeliefView> {
    let base = match domain_from(logical, c.id, 0) {
        Some(s) => s@,
        None => Set::empty(),
    };
    if owner == observer {
        match domain_from(notes, c.id, 0) {
            Some(note) => {
                let narrowed = base.intersect(note@);
                Some(
                    BeliefView {
                        card: c.id,
                        owner,
                        observer,
                        identities: if narrowed == Set::<Card>::empty() {
                            base
                        } else {
                            narrowed
                        },
                        provenance: BeliefProvenance::Convention,
                    },
                )
            },
            None => Some(BeliefView { card: c.id, owner, observer, identities: base, provenance: BeliefProvenance::Logical }),
        }
    } else {
        match c.identity {
            Some(identity) => Some(
                BeliefView {
                    card: c.id,
                    owner,
                    observer,
                    identities: Set::empty().insert(identity),
                    provenance: BeliefProvenance::Visible,
                },
            ),
            None => None,
        }
    }
}

/// The beliefs about the first `j` cards of `hand`, held by `owner`.
pub open spec fn hand_beliefs(
    observer: PlayerId,
    owner: PlayerId,
    hand: Seq<VisibleCard>,
    logical: Seq<DomainEntry>,
    notes: Seq<DomainEntry>,
    j: int,
) -> Seq<BeliefView>
    decreases j,
{
    if j <= 0 || j > hand.len() {
        Seq::empty()
    } else {
        let before = hand_beliefs(observer, owner, hand, logical, notes, j - 1);
        match belief_of(observer, owner, hand[j - 1], logical, notes) {
            Some(b) => before.push(b),
            None => before,
        }
    }
}

/// The beliefs about every card of the first `p` hands, seat by seat.
pub open spec fn all_beliefs(
    observer: PlayerId,
    hands: Seq<Vec<VisibleCard>>,
    logical: Seq<DomainEntry>,
    notes: Seq<DomainEntry>,
    p: int,
) -> Seq<BeliefView>
    decreases p,
{
    if p <= 0 || p > hands.len() {
        Seq::empty()
    } else {
        all_beliefs(observer, hands, logical, notes, p - 1) + hand_beliefs(
            observer,
            PlayerId { seat: (p - 1) as u8 },
            hands[p - 1]@,
            logical,
            notes,
            hands[p - 1]@.len() as int,
        )
    }
}

/// The beliefs as plain values.
pub open spec fn belief_views(cards: Seq<CardBelief>) -> Seq<BeliefView> {
    cards.map_values(|b: CardBelief| b@)
}

/// Observer-relative knowledge used by convention strategy and outcome
/// comparison. It holds no deck order and no hidden-card truth.
#[derive(Clone, Debug)]
pub struct EpistemicState {
    observer: PlayerId,
    cards: Vec<CardBelief>,
}

fn domain_of(entries: &Vec<DomainEntry>, card: CardId) -> (r: Option<IdentitySet>)
    ensures
        r == domain_from(entries@, card, 0),
{
    let mut k: usize = 0;
    while k < entries.len()
        invariant
            k <= entries@.len(),
            domain_from(entries@, card, 0) == domain_from(entries@, card, k as int),
        decreases entries@.len() - k,
    {
        if entries[k].0 == card {
            return Some(entries[k].1);
        }
        k = k + 1;
    }
    None
}

impl EpistemicState {
    /// The observer whose beliefs these are.
    pub closed spec fn spec_observer(&self) -> PlayerId {
        self.observer
    }

    /// The beliefs, seat by seat and oldest card first.
    pub closed spec fn spec_beliefs(&self) -> Seq<BeliefView> {
        belief_views(self.cards@)
    }

    /// The beliefs of `observer` about every current card: `logical` gives
    /// the logical domain of the observer's own cards (the empty domain when
    /// absent) and `notes` their convention domains.
    pub fn from_analysis(
        hands: &Vec<Vec<VisibleCard>>,
        observer: PlayerId,
        logical: &Vec<DomainEntry>,
        notes: &Vec<DomainEntry>,
    ) -> (s: Self)
        requires
            hands@.len() <= 256,
            domains_wf(logical@),
            domains_wf(notes@),
        ensures
            s.spec_observer() == observer,
            s.spec_beliefs() == all_beliefs(observer, hands@, logical@, notes@, hands@.len() as int),
    {
        let mut cards: Vec<CardBelief> = Vec::new();
        let mut p: usize = 0;
        while p < hands.len()
            invariant
                hands@.len() <= 256,
                domains_wf(logical@),
                domains_wf(notes@),
                p <= hands@.len(),
                belief_views(cards@) == all_beliefs(observer, hands@, logical@, notes@, p as int),
            decreases hands@.len() - p,
        {
            let owner = PlayerId::new(p as u8);
            let hand = &hands[p];
            let ghost start = belief_views(cards@);
            let mut j: usize = 0;
            while j < hand.len()
                invariant
                    domains_wf(logical@),
                    domains_wf(notes@),
                    p < hands@.len(),
                    hand@ == hands@[p as int]@,
                    owner == (PlayerId { seat: p as u8 }),
                    j <= hand@.len(),
                    belief_views(cards@) == start + hand_beliefs(observer, owner, hand@, logical@, notes@, j as int),
                decreases hand@.len() - j,
            {
                let observed = hand[j];
                let base = match domain_of(logical, observed.id) {
                    Some(s) => s,
                    None => IdentitySet::empty(),
                };
                proof {
                    if domain_from(logical@, observed.id, 0) is Some {
                        lemma_domain_wf(logical@, observed.id, 0);
                    }
                }
                let belief = if owner == observer {
                    match domain_of(notes, observed.id) {
                        Some(note) => {
                            proof {
                                lemma_domain_wf(notes@, observed.id, 0);
                            }
                            let narrowed = base.intersection(note);
                            let empty = narrowed.is_empty();
                            Some(
                                CardBelief {
                                    card: observed.id,
                                    owner,
                                    observer,
                                    identities: if empty {
                                        base
                                    } else {
                                        narrowed
                                    },
                                    provenance: BeliefProvenance::Convention,
                                },
                            )
                        },
                        None => Some(
                            CardBelief {
                                card: observed.id,
                                owner,
                                observer,
                                identities: base,
                                provenance: BeliefProvenance::Logical,
                            },
                        ),
                    }
                } else {
                    match observed.identity {
                        Some(identity) => Some(
                            CardBelief {
                                card: observed.id,
                                owner,
                                observer,
                                identities: IdentitySet::singleton(identity),
                                provenance: BeliefProvenance::Visible,
                            },
                        ),
                        None => None,
                    }
                };
                assert(hand@[j as int] == observed);
                proof {
                    let expected = belief_of(observer, owner, observed, logical@, notes@);
                    match belief {
                        Some(b) => {
                            assert(expected is Some);
                            assert(expected->0.identities =~= b@.identities);
                            assert(expected == Some(b@));
                        },
                        None => {
                            assert(expected is None);
                        },
                    }
                }
                let ghost old_cards = cards@;
                match belief {
                    Some(b) => {
                        cards.push(b);
                        proof {
                            assert(belief_views(cards@) =~= belief_views(old_cards).push(b@));
                        }
                    },
                    None => {},
                }
                j = j + 1;
                proof {
                    assert(belief_views(cards@) =~= start + hand_beliefs(
                        observer,
                        owner,
                        hand@,
                        logical@,
                        notes@,
                        j as int,
                    ));
                }
            }
            p = p + 1;
        }
        EpistemicState { observer, cards }
    }

    /// The belief about `card`, if any.
    pub fn belief(&self, card: CardId) -> (r: Option<CardBelief>)
        ensures
            match r {
                Some(b) => exists|k: int|
                    0 <= k < self.spec_beliefs().len() && self.spec_beliefs()[k] == b@ && b.card == card && forall|m: int|
                        0 <= m < k ==> (#[trigger] self.spec_beliefs()[m]).card != card,
                None => forall|k: int| 0 <= k < self.spec_beliefs().len() ==> (#[trigger] self.spec_beliefs()[k]).card != card,
            },
    {
        let mut k: usize = 0;
        while k < self.cards.len()
            invariant
                k <= self.cards@.len(),
                forall|m: int| 0 <= m < k ==> (#[trigger] self.cards@[m]).card != card,
            decreases self.cards@.len() - k,
        {
            if self.cards[k].card == card {
                let b = self.cards[k];
                proof {
                    assert(self.spec_beliefs()[k as int] == b@);
                    assert forall|m: int| 0 <= m < k implies (#[trigger] self.spec_beliefs()[m]).card != card by {
                        assert(self.spec_beliefs()[m] == self.cards@[m]@);
                    }
                }
                return Some(b);
            }
            k = k + 1;
        }
        proof {
            assert forall|m: int| 0 <= m < self.spec_beliefs().len() implies (#[trigger] self.spec_beliefs()[m]).card != card by {
                assert(self.spec_beliefs()[m] == self.cards@[m]@);
            }
        }
        None
    }

    /// The beliefs about the observer's own cards, in order.
    pub fn own_beliefs(&self) -> (r: Vec<CardBelief>)
        ensures
            belief_views(r@) == self.spec_beliefs().filter(|b: BeliefView| b.owner == self.spec_observer()),
    {
        let ghost pred = |b: BeliefView| b.owner == self.spec_observer();
        let mut r: Vec<CardBelief> = Vec::new();
        let mut k: usize = 0;
        proof {
            assert(self.spec_beliefs().take(0).filter(pred) =~= Seq::<BeliefView>::empty());
            assert(belief_views(r@) =~= Seq::<BeliefView>::empty());
        }
        while k < self.cards.len()
            invariant
                k <= self.cards@.len(),
                pred == (|b: BeliefView| b.owner == self.spec_observer()),
                belief_views(r@) == self.spec_beliefs().take(k as int).filter(pred),
            decreases self.cards@.len() - k,
        {
            let b = self.cards[k];
            proof {
                assert(self.spec_beliefs()[k as int] == b@);
                assert(self.spec_beliefs().take(k + 1) =~= self.spec_beliefs().take(k as int).push(b@));
                self.spec_beliefs().take(k as int).lemma_filter_push(b@, pred);
            }
            let ghost before = r@;
            if b.owner == self.observer {
                r.push(b);
                proof {
                    assert(belief_views(r@) =~= belief_views(before).push(b@));
                }
            }
            k = k + 1;
        }
        proof {
            assert(self.spec_beliefs().take(k as int) =~= self.spec_beliefs());
        }
        r
    }
}

proof fn lemma_domain_wf(entries: Seq<DomainEntry>, card: CardId, k: int)
    requires
        domains_wf(entries),
        0 <= k,
    ensures
        domain_from(entries, card, k) matches Some(s) ==> s.wf(),
    decreases entries.len() - k,
{
    if k < entries.len() && entries[k].0 != card {
        lemma_domain_wf(entries, card, k + 1);
    }
}

/// The logical domain recorded for `card`, empty when none is.
pub open spec fn logical_domain(logical: Seq<DomainEntry>, card: CardId) -> Set<Card> {
    match domain_from(logical, card, 0) {
        Some(s) => s@,
        None => Set::empty(),
    }
}

/// What a belief of `observer` may hold: about another player's card, only
/// the one identity the observer sees; about one of its own cards, only
/// identities its logical domain allows, at least one when that domain
/// allows any, and, when the convention note leaves something of that
/// domain, only identities the note allows.
pub open spec fn own_belief_respects(
    observer: PlayerId,
    logical: Seq<DomainEntry>,
    notes: Seq<DomainEntry>,
    b: BeliefView,
) -> bool {
    &&& b.observer == observer
    &&& b.owner != observer ==> b.provenance == BeliefProvenance::Visible && b.identities.len() == 1
    &&& b.owner == observer ==> {
        &&& b.identities.subset_of(logical_domain(logical, b.card))
        &&& logical_domain(logical, b.card) != Set::<Card>::empty() ==> b.identities != Set::<Card>::empty()
        &&& (domain_from(notes, b.card, 0) matches Some(note) && logical_domain(logical, b.card).intersect(note@)
            != Set::<Card>::empty()) ==> b.identities.subset_of(domain_from(notes, b.card, 0)->0@)
    }
}

proof fn lemma_belief_of_respects(
    observer: PlayerId,
    owner: PlayerId,
    c: VisibleCard,
    logical: Seq<DomainEntry>,
    notes: Seq<DomainEntry>,
)
    ensures
        belief_of(observer, owner, c, logical, notes) matches Some(b) ==> b.card == c.id && b.owner == owner
            && own_belief_respects(observer, logical, notes, b),
{
    let base = logical_domain(logical, c.id);
    if owner == observer {
        if let Some(note) = domain_from(notes, c.id, 0) {
            let narrowed = base.intersect(note@);
            assert(narrowed.subset_of(base));
            assert(narrowed.subset_of(note@));
        }
    }
}

proof fn lemma_hand_beliefs_respect(
    observer: PlayerId,
    owner: PlayerId,
    hand: Seq<VisibleCard>,
    logical: Seq<DomainEntry>,
    notes: Seq<DomainEntry>,
    j: int,
)
    ensures
        forall|k: int|
            0 <= k < hand_beliefs(observer, owner, hand, logical, notes, j).len() ==> own_belief_respects(
                observer,
                logical,
                notes,
                #[trigger] hand_beliefs(observer, owner, hand, logical, notes, j)[k],
            ),
    decreases j,
{
    if 0 < j <= hand.len() {
        lemma_hand_beliefs_respect(observer, owner, hand, logical, notes, j - 1);
        lemma_belief_of_respects(observer, owner, hand[j - 1], logical, notes);
        let before = hand_beliefs(observer, owner, hand, logical, notes, j - 1);
        let now = hand_beliefs(observer, owner, hand, logical, notes, j);
        assert forall|k: int| 0 <= k < now.len() implies own_belief_respects(observer, logical, notes, #[trigger] now[k]) by {
            if k < before.len() {
                assert(now[k] == before[k]);
            }
        }
    }
}

/// The observer's beliefs about its own cards stay within logic: each
/// believed identity is one its logical domain allows, a non-empty domain
/// leaves a non-empty belief, and a convention note narrows the belief
/// whenever it leaves something of the domain.
pub proof fn lemma_own_beliefs_respect_logic(
    observer: PlayerId,
    hands: Seq<Vec<VisibleCard>>,
    logical: Seq<DomainEntry>,
    notes: Seq<DomainEntry>,
    p: int,
)
    ensures
        forall|k: int|
            0 <= k < all_beliefs(observer, hands, logical, notes, p).len() ==> own_belief_respects(
                observer,
                logical,
                notes,
                #[trigger] all_beliefs(observer, hands, logical, notes, p)[k],
            ),
    decreases p,
{
    if 0 < p <= hands.len() {
        lemma_own_beliefs_respect_logic(observer, hands, logical, notes, p - 1);
        let owner = PlayerId { seat: (p - 1) as u8 };
        let hand = hands[p - 1]@;
        lemma_hand_beliefs_respect(observer, owner, hand, logical, notes, hand.len() as int);
        let before = all_beliefs(observer, hands, logical, notes, p - 1);
        let added = hand_beliefs(observer, owner, hand, logical, notes, hand.len() as int);
        let now = all_beliefs(observer, hands, logical, notes, p);
        assert forall|k: int| 0 <= k < now.len() implies own_belief_respects(observer, logical, notes, #[trigger] now[k]) by {
            if k < before.len() {
                assert(now[k] == before[k]);
            } else {
                assert(now[k] == added[k - before.len()]);
            }
        }
    }
}

} // verus!
