//! Symbolic convention constraints passed to exact world building.
//!
//! Relational claims and ordered connection alternatives are mutually
//! exclusive branches; they are kept symbolic rather than flattened into
//! unrelated marginal domains.

use vstd::prelude::*;

use crate::cards::{
    lemma_card_index_injective, lemma_card_index_roundtrip, lemma_identity_set_extensional, Card, CardId, IdentitySet,
    PlayerId,
};
use crate::h_group::action_schedule::playable_at;
use crate::h_group::admission::VisibleCard;
use crate::h_group::facts::{claim_views, ClaimView, ConventionFacts, IdentityClaimRelation};
use crate::h_group::queue::{hand_holds, holds, identity_of, seen_identity};
use crate::h_group::{is_connection_claim, spec_is_connection_claim};

verus! {

/// One card restricted to a domain of identities.
pub type DomainEntry = (CardId, IdentitySet);

/// The contents of each branch.
pub open spec fn branch_views(branches: Seq<Vec<DomainEntry>>) -> Seq<Seq<DomainEntry>> {
    branches.map_values(|b: Vec<DomainEntry>| b@)
}

/// Each alternative extended on the left by `head`.
pub open spec fn prefixed(head: Seq<DomainEntry>, alternatives: Seq<Seq<DomainEntry>>) -> Seq<
    Seq<DomainEntry>,
> {
    alternatives.map_values(|a: Seq<DomainEntry>| head + a)
}

/// Every existing branch combined with every alternative, branch-major: the
/// branch at `i * m + j` is existing branch `i` followed by alternative `j`.
pub open spec fn product(existing: Seq<Seq<DomainEntry>>, alternatives: Seq<Seq<DomainEntry>>) -> Seq<
    Seq<DomainEntry>,
>
    decreases existing.len(),
{
    if existing.len() == 0 {
        Seq::empty()
    } else {
        product(existing.drop_last(), alternatives) + prefixed(existing.last(), alternatives)
    }
}

/// The product has one branch per pair, and each pair's branch is the
/// existing branch followed by the alternative: mutually exclusive choices
/// stay separate branches.
pub proof fn lemma_product_index(
    existing: Seq<Seq<DomainEntry>>,
    alternatives: Seq<Seq<DomainEntry>>,
)
    ensures
        product(existing, alternatives).len() == existing.len() * alternatives.len(),
        forall|i: int, j: int|
            0 <= i < existing.len() && 0 <= j < alternatives.len() ==> #[trigger] product(
                existing,
                alternatives,
            )[i * alternatives.len() + j] == existing[i] + alternatives[j],
    decreases existing.len(),
{
    let n = existing.len() as int;
    let m = alternatives.len() as int;
    if n > 0 {
        let init = existing.drop_last();
        lemma_product_index(init, alternatives);
        assert((n - 1) * m + m == n * m) by (nonlinear_arith);
        assert forall|i: int, j: int| 0 <= i < n && 0 <= j < m implies #[trigger] product(
            existing,
            alternatives,
        )[i * m + j] == existing[i] + alternatives[j] by {
            if i < n - 1 {
                assert(i * m + j < (n - 1) * m) by (nonlinear_arith)
                    requires
                        0 <= i < n - 1,
                        0 <= j < m,
                ;
                assert(init[i] == existing[i]);
            } else {
                assert(i * m == (n - 1) * m);
            }
        }
    }
}

/// `a` followed by `b`.
fn concat(a: &Vec<DomainEntry>, b: &Vec<DomainEntry>) -> (c: Vec<DomainEntry>)
    ensures
        c@ == a@ + b@,
{
    let mut c: Vec<DomainEntry> = Vec::new();
    let mut k: usize = 0;
    while k < a.len()
        invariant
            k <= a@.len(),
            c@ == a@.take(k as int),
        decreases a@.len() - k,
    {
        c.push(a[k]);
        k = k + 1;
        proof {
            assert(c@ =~= a@.take(k as int));
        }
    }
    let mut k: usize = 0;
    while k < b.len()
        invariant
            k <= b@.len(),
            c@ == a@ + b@.take(k as int),
        decreases b@.len() - k,
    {
        c.push(b[k]);
        k = k + 1;
        proof {
            assert(c@ =~= a@ + b@.take(k as int));
        }
    }
    proof {
        assert(b@.take(k as int) =~= b@);
    }
    c
}

/// Every existing branch combined with every alternative.
pub fn cross_product(existing: Vec<Vec<DomainEntry>>, alternatives: &Vec<Vec<DomainEntry>>) -> (r: Vec<
    Vec<DomainEntry>,
>)
    ensures
        branch_views(r@) == product(branch_views(existing@), branch_views(alternatives@)),
{
    let ghost ex = branch_views(existing@);
    let ghost alts = branch_views(alternatives@);
    let mut result: Vec<Vec<DomainEntry>> = Vec::new();
    let mut i: usize = 0;
    while i < existing.len()
        invariant
            i <= existing@.len(),
            ex == branch_views(existing@),
            alts == branch_views(alternatives@),
            branch_views(result@) == product(ex.take(i as int), alts),
        decreases existing@.len() - i,
    {
        let ghost before = branch_views(result@);
        let mut j: usize = 0;
        while j < alternatives.len()
            invariant
                i < existing@.len(),
                j <= alternatives@.len(),
                ex == branch_views(existing@),
                alts == branch_views(alternatives@),
                branch_views(result@) == before + prefixed(ex[i as int], alts.take(j as int)),
            decreases alternatives@.len() - j,
        {
            let combined = concat(&existing[i], &alternatives[j]);
            let ghost old_result = result@;
            result.push(combined);
            proof {
                assert(ex[i as int] == existing@[i as int]@);
                assert(alts[j as int] == alternatives@[j as int]@);
                assert(branch_views(result@) =~= branch_views(old_result).push(combined@));
                assert(prefixed(ex[i as int], alts.take(j + 1)) =~= prefixed(
                    ex[i as int],
                    alts.take(j as int),
                ).push(ex[i as int] + alts[j as int]));
            }
            j = j + 1;
            proof {
                assert(branch_views(result@) =~= before + prefixed(ex[i as int], alts.take(j as int)));
            }
        }
        proof {
            assert(alts.take(j as int) =~= alts);
            assert(ex.take(i + 1).drop_last() =~= ex.take(i as int));
            assert(ex.take(i + 1).last() == ex[i as int]);
        }
        i = i + 1;
    }
    proof {
        assert(ex.take(i as int) =~= ex);
    }
    result
}

/// The well-formed set holding exactly `c`.
pub open spec fn only(c: Card) -> IdentitySet {
    choose|s: IdentitySet| s.wf() && s@ == Set::<Card>::empty().insert(c)
}

/// The well-formed set of every identity but `c`.
pub open spec fn all_but(c: Card) -> IdentitySet {
    choose|s: IdentitySet| s.wf() && s@ == Set::<Card>::full().remove(c)
}

/// The well-formed set of the identities playable at `heights` other than
/// `expected`: what a wrong card could successfully play as.
pub open spec fn wrong_success(heights: Seq<u8>, expected: Card) -> IdentitySet {
    choose|s: IdentitySet| s.wf() && s@ == Set::new(|c: Card| playable_at(heights, c)).remove(expected)
}

/// A relational claim that is not part of a Prompt or Finesse connection.
pub open spec fn relational(c: ClaimView) -> bool {
    c.relation == IdentityClaimRelation::OneOf && !spec_is_connection_claim(c.source)
}

/// A card of the claim is visibly the claimed identity.
pub open spec fn demonstrated(hands: Seq<Vec<VisibleCard>>, c: ClaimView) -> bool {
    exists|k: int| 0 <= k < c.cards.len() && seen_identity(hands, #[trigger] c.cards[k]) == Some(c.identity)
}

/// The cards of `cards` the observer holds, in order.
pub open spec fn own(hands: Seq<Vec<VisibleCard>>, observer: PlayerId, cards: Seq<CardId>) -> Seq<CardId> {
    cards.filter(|card: CardId| holds(hands[observer.seat as int]@, card))
}

/// The cards of the claim the observer holds and cannot see.
pub open spec fn candidates(hands: Seq<Vec<VisibleCard>>, observer: PlayerId, c: ClaimView) -> Seq<CardId> {
    c.cards.filter(|card: CardId| holds(hands[observer.seat as int]@, card) && seen_identity(hands, card) is None)
}

/// One branch per candidate: it is the claimed identity, and every other
/// candidate is not.
pub open spec fn claim_alternatives(cands: Seq<CardId>, identity: Card) -> Seq<Seq<DomainEntry>> {
    Seq::new(
        cands.len(),
        |i: int|
            Seq::new(
                cands.len(),
                |j: int|
                    (cands[j], if cands[j] == cands[i] {
                        only(identity)
                    } else {
                        all_but(identity)
                    }),
            ),
    )
}

/// The common domains the first `n` claims add: every own card of a
/// demonstrated relational claim is not the claimed identity.
pub open spec fn claim_common(hands: Seq<Vec<VisibleCard>>, observer: PlayerId, claims: Seq<ClaimView>, n: int) -> Seq<DomainEntry>
    decreases n,
{
    if n <= 0 || n > claims.len() {
        Seq::empty()
    } else {
        let c = claims[n - 1];
        claim_common(hands, observer, claims, n - 1) + if relational(c) && demonstrated(hands, c) {
            own(hands, observer, c.cards).map_values(|card: CardId| (card, all_but(c.identity)))
        } else {
            Seq::empty()
        }
    }
}

/// The branches after the first `n` claims: each undemonstrated relational
/// claim with hidden own candidates multiplies them by its alternatives.
pub open spec fn claim_branches(hands: Seq<Vec<VisibleCard>>, observer: PlayerId, claims: Seq<ClaimView>, n: int) -> Seq<Seq<DomainEntry>>
    decreases n,
{
    if n <= 0 || n > claims.len() {
        seq![Seq::empty()]
    } else {
        let c = claims[n - 1];
        let before = claim_branches(hands, observer, claims, n - 1);
        if relational(c) && !demonstrated(hands, c) && candidates(hands, observer, c).len() > 0 {
            product(before, claim_alternatives(candidates(hands, observer, c), c.identity))
        } else {
            before
        }
    }
}

/// One branch per position of a connection promise: the card there is the
/// expected identity and every earlier card was some other playable card.
pub open spec fn promise_alternatives(cards: Seq<CardId>, expected: Card, heights: Seq<u8>) -> Seq<Seq<DomainEntry>> {
    Seq::new(
        cards.len(),
        |c: int| Seq::new(c as nat, |k: int| (cards[k], wrong_success(heights, expected))).push((cards[c], only(expected))),
    )
}

/// A connection promise: the identity it expects and the ordered cards
/// that may supply it.
pub struct PromiseView {
    pub identity: Card,
    pub cards: Seq<CardId>,
}

/// The branches after multiplying `base` by the first `n` promises.
pub open spec fn promise_branches(base: Seq<Seq<DomainEntry>>, promises: Seq<PromiseView>, heights: Seq<u8>, n: int) -> Seq<Seq<DomainEntry>>
    decreases n,
{
    if n <= 0 || n > promises.len() {
        base
    } else {
        product(
            promise_branches(base, promises, heights, n - 1),
            promise_alternatives(promises[n - 1].cards, promises[n - 1].identity, heights),
        )
    }
}

/// Canonical symbolic convention constraints: common per-card domains and
/// mutually exclusive branches.
#[derive(Clone, Debug)]
pub struct ConventionConstraintGraph {
    pub common: Vec<DomainEntry>,
    pub alternatives: Vec<Vec<DomainEntry>>,
}

/// The constraints handed to exact world building.
#[derive(Clone, Debug)]
pub struct BeliefConstraints {
    pub constraints: Vec<DomainEntry>,
    pub branches: Vec<Vec<DomainEntry>>,
}

pub(crate) fn singleton_is_only(c: Card) -> (s: IdentitySet)
    ensures
        s == only(c),
        s.wf(),
{
    let s = IdentitySet::singleton(c);
    proof {
        let t = only(c);
        assert(t.wf() && t@ == Set::<Card>::empty().insert(c));
        lemma_identity_set_extensional(s, t);
    }
    s
}

fn everything_but(c: Card) -> (s: IdentitySet)
    ensures
        s == all_but(c),
        s.wf(),
{
    let s = IdentitySet::all().without(IdentitySet::singleton(c));
    proof {
        assert(s@ =~= Set::<Card>::full().remove(c));
        let t = all_but(c);
        assert(t.wf() && t@ == Set::<Card>::full().remove(c));
        lemma_identity_set_extensional(s, t);
    }
    s
}

fn wrong_successes(heights: [u8; 5], expected: Card) -> (s: IdentitySet)
    ensures
        s == wrong_success(heights@, expected),
        s.wf(),
{
    let mut playable = IdentitySet::empty();
    let mut i: usize = 0;
    while i < 25
        invariant
            i <= 25,
            playable.wf(),
            forall|c: Card| playable@.contains(c) <==> (c.spec_index() < i && playable_at(heights@, c)),
        decreases 25 - i,
    {
        let card = Card::from_index(i);
        if heights[card.suit.index()] as u16 + 1 == card.rank.number() as u16 {
            playable = playable.union(IdentitySet::singleton(card));
        }
        proof {
            assert forall|c: Card| playable@.contains(c) <==> (c.spec_index() < i + 1 && playable_at(heights@, c)) by {
                lemma_card_index_injective(c, card);
            }
        }
        i = i + 1;
    }
    let s = playable.without(IdentitySet::singleton(expected));
    proof {
        assert forall|c: Card| s@.contains(c) <==> Set::new(|c: Card| playable_at(heights@, c)).remove(expected).contains(c) by {
            lemma_card_index_roundtrip(c);
        }
        assert(s@ =~= Set::new(|c: Card| playable_at(heights@, c)).remove(expected));
        let t = wrong_success(heights@, expected);
        assert(t.wf() && t@ == Set::new(|c: Card| playable_at(heights@, c)).remove(expected));
        lemma_identity_set_extensional(s, t);
    }
    s
}

/// A connection promise as it enters world building: the identity it
/// expects and the ordered cards that may supply it.
#[derive(Clone, Debug)]
pub struct ConnectionPromise {
    pub identity: Card,
    pub cards: Vec<CardId>,
}

impl View for ConnectionPromise {
    type V = PromiseView;

    open spec fn view(&self) -> PromiseView {
        PromiseView { identity: self.identity, cards: self.cards@ }
    }
}

/// The promises as plain values.
pub open spec fn promise_views(promises: Seq<ConnectionPromise>) -> Seq<PromiseView> {
    promises.map_values(|p: ConnectionPromise| p@)
}

/// No branch at all when the only branch constrains nothing.
pub open spec fn pruned(branches: Seq<Seq<DomainEntry>>) -> Seq<Seq<DomainEntry>> {
    if branches == seq![Seq::<DomainEntry>::empty()] {
        Seq::empty()
    } else {
        branches
    }
}

fn own_cards(hands: &Vec<Vec<VisibleCard>>, observer: PlayerId, cards: &Vec<CardId>, hidden_only: bool) -> (v: Vec<CardId>)
    requires
        observer.seat < hands@.len(),
    ensures
        hidden_only ==> v@ == cards@.filter(
            |card: CardId| holds(hands@[observer.seat as int]@, card) && seen_identity(hands@, card) is None,
        ),
        !hidden_only ==> v@ == cards@.filter(|card: CardId| holds(hands@[observer.seat as int]@, card)),
{
    let ghost pred = if hidden_only {
        |card: CardId| holds(hands@[observer.seat as int]@, card) && seen_identity(hands@, card) is None
    } else {
        |card: CardId| holds(hands@[observer.seat as int]@, card)
    };
    let hand = &hands[observer.index()];
    let mut v: Vec<CardId> = Vec::new();
    let mut k: usize = 0;
    proof {
        assert(cards@.take(0).filter(pred) =~= Seq::<CardId>::empty());
    }
    while k < cards.len()
        invariant
            observer.seat < hands@.len(),
            hand@ == hands@[observer.seat as int]@,
            k <= cards@.len(),
            pred == if hidden_only {
                |card: CardId| holds(hands@[observer.seat as int]@, card) && seen_identity(hands@, card) is None
            } else {
                |card: CardId| holds(hands@[observer.seat as int]@, card)
            },
            v@ == cards@.take(k as int).filter(pred),
        decreases cards@.len() - k,
    {
        let card = cards[k];
        proof {
            assert(cards@.take(k + 1) =~= cards@.take(k as int).push(card));
            cards@.take(k as int).lemma_filter_push(card, pred);
        }
        if hand_holds(hand, card) && (!hidden_only || identity_of(hands, card).is_none()) {
            v.push(card);
        }
        k = k + 1;
    }
    proof {
        assert(cards@.take(k as int) =~= cards@);
    }
    v
}

fn is_demonstrated(hands: &Vec<Vec<VisibleCard>>, claim: &crate::h_group::facts::ConventionIdentityClaim) -> (b: bool)
    ensures
        b == demonstrated(hands@, claim@),
{
    let mut k: usize = 0;
    while k < claim.cards.len()
        invariant
            k <= claim.cards@.len(),
            forall|m: int| 0 <= m < k ==> seen_identity(hands@, #[trigger] claim.cards@[m]) != Some(claim.identity),
        decreases claim.cards@.len() - k,
    {
        if identity_of(hands, claim.cards[k]) == Some(claim.identity) {
            assert(seen_identity(hands@, claim@.cards[k as int]) == Some(claim@.identity));
            return true;
        }
        k = k + 1;
    }
    false
}

fn build_claim_alternatives(cands: &Vec<CardId>, identity: Card) -> (alts: Vec<Vec<DomainEntry>>)
    ensures
        branch_views(alts@) == claim_alternatives(cands@, identity),
{
    let claimed = singleton_is_only(identity);
    let other = everything_but(identity);
    let mut alts: Vec<Vec<DomainEntry>> = Vec::new();
    let mut i: usize = 0;
    while i < cands.len()
        invariant
            claimed == only(identity),
            other == all_but(identity),
            i <= cands@.len(),
            branch_views(alts@) == claim_alternatives(cands@, identity).take(i as int),
        decreases cands@.len() - i,
    {
        let mut branch: Vec<DomainEntry> = Vec::new();
        let mut j: usize = 0;
        while j < cands.len()
            invariant
                claimed == only(identity),
                other == all_but(identity),
                i < cands@.len(),
                j <= cands@.len(),
                branch@ == claim_alternatives(cands@, identity)[i as int].take(j as int),
            decreases cands@.len() - j,
        {
            let domain = if cands[j] == cands[i] {
                claimed
            } else {
                other
            };
            branch.push((cands[j], domain));
            j = j + 1;
            proof {
                assert(branch@ =~= claim_alternatives(cands@, identity)[i as int].take(j as int));
            }
        }
        let ghost before = alts@;
        alts.push(branch);
        i = i + 1;
        proof {
            assert(claim_alternatives(cands@, identity)[(i - 1) as int].take(j as int) =~= claim_alternatives(
                cands@,
                identity,
            )[(i - 1) as int]);
            assert(branch_views(alts@) =~= branch_views(before).push(alts@[(i - 1) as int]@));
            assert(branch_views(alts@) =~= claim_alternatives(cands@, identity).take(i as int));
        }
    }
    proof {
        assert(claim_alternatives(cands@, identity).take(i as int) =~= claim_alternatives(cands@, identity));
    }
    alts
}

fn build_promise_alternatives(cards: &Vec<CardId>, expected: Card, heights: [u8; 5]) -> (alts: Vec<Vec<DomainEntry>>)
    ensures
        branch_views(alts@) == promise_alternatives(cards@, expected, heights@),
{
    let exact = singleton_is_only(expected);
    let wrong = wrong_successes(heights, expected);
    let mut alts: Vec<Vec<DomainEntry>> = Vec::new();
    let mut c: usize = 0;
    while c < cards.len()
        invariant
            exact == only(expected),
            wrong == wrong_success(heights@, expected),
            c <= cards@.len(),
            branch_views(alts@) == promise_alternatives(cards@, expected, heights@).take(c as int),
        decreases cards@.len() - c,
    {
        let mut branch: Vec<DomainEntry> = Vec::new();
        let mut k: usize = 0;
        while k < c
            invariant
                wrong == wrong_success(heights@, expected),
                c < cards@.len(),
                k <= c,
                branch@ == Seq::new(k as nat, |m: int| (cards@[m], wrong_success(heights@, expected))),
            decreases c - k,
        {
            branch.push((cards[k], wrong));
            k = k + 1;
            proof {
                assert(branch@ =~= Seq::new(k as nat, |m: int| (cards@[m], wrong_success(heights@, expected))));
            }
        }
        branch.push((cards[c], exact));
        proof {
            assert(branch@ =~= promise_alternatives(cards@, expected, heights@)[c as int]);
        }
        let ghost before = alts@;
        let ghost pushed = branch@;
        assert(branch_views(before).len() == before.len());
        assert(before.len() == c);
        alts.push(branch);
        c = c + 1;
        proof {
            assert(alts@[(c - 1) as int]@ == pushed);
            assert(branch_views(alts@) =~= branch_views(before).push(alts@[(c - 1) as int]@));
            assert(branch_views(alts@) =~= promise_alternatives(cards@, expected, heights@).take(c as int));
        }
    }
    proof {
        assert(promise_alternatives(cards@, expected, heights@).take(c as int) =~= promise_alternatives(
            cards@,
            expected,
            heights@,
        ));
    }
    alts
}

impl ConventionConstraintGraph {
    /// Builds the graph from the convention notes of each card (the common
    /// domains), the relational claims of the convention facts and the
    /// connection promises. A relational claim one of whose cards is visibly
    /// the claimed identity rules it out for the observer's own cards; one
    /// with hidden own candidates branches over which of them it is. A
    /// promise branches over which of its cards supplies the identity, every
    /// earlier card having played as something else.
    pub fn from_replay(
        hands: &Vec<Vec<VisibleCard>>,
        observer: PlayerId,
        stack_heights: [u8; 5],
        facts: &ConventionFacts,
        notes: &Vec<DomainEntry>,
        promises: &Vec<ConnectionPromise>,
    ) -> (g: Self)
        requires
            observer.seat < hands@.len(),
        ensures
            g.common@ == notes@ + claim_common(hands@, observer, facts@.claims, facts@.claims.len() as int),
            branch_views(g.alternatives@) == pruned(
                promise_branches(
                    claim_branches(hands@, observer, facts@.claims, facts@.claims.len() as int),
                    promise_views(promises@),
                    stack_heights@,
                    promises@.len() as int,
                ),
            ),
    {
        let claims = facts.identity_claims();
        let ghost cv = facts@.claims;
        let mut common: Vec<DomainEntry> = concat(notes, &Vec::new());
        let mut alternatives: Vec<Vec<DomainEntry>> = Vec::new();
        alternatives.push(Vec::new());
        proof {
            assert(common@ =~= notes@ + claim_common(hands@, observer, cv, 0));
            assert(branch_views(alternatives@) =~= claim_branches(hands@, observer, cv, 0));
        }
        let mut k: usize = 0;
        while k < claims.len()
            invariant
                observer.seat < hands@.len(),
                claim_views(claims@) == cv,
                cv.len() == claims@.len(),
                k <= claims@.len(),
                common@ == notes@ + claim_common(hands@, observer, cv, k as int),
                branch_views(alternatives@) == claim_branches(hands@, observer, cv, k as int),
            decreases claims@.len() - k,
        {
            let claim = &claims[k];
            assert(cv[k as int] == claim@);
            if claim.relation == IdentityClaimRelation::OneOf && !is_connection_claim(claim.source) {
                if is_demonstrated(hands, claim) {
                    let mine = own_cards(hands, observer, &claim.cards, false);
                    let other = everything_but(claim.identity);
                    let ghost start = common@;
                    let mut j: usize = 0;
                    while j < mine.len()
                        invariant
                            other == all_but(claim.identity),
                            j <= mine@.len(),
                            common@ == start + mine@.take(j as int).map_values(|card: CardId| (card, all_but(claim.identity))),
                        decreases mine@.len() - j,
                    {
                        common.push((mine[j], other));
                        j = j + 1;
                        proof {
                            assert(common@ =~= start + mine@.take(j as int).map_values(
                                |card: CardId| (card, all_but(claim.identity)),
                            ));
                        }
                    }
                    proof {
                        assert(mine@.take(j as int) =~= mine@);
                        assert(common@ =~= notes@ + claim_common(hands@, observer, cv, (k + 1) as int));
                        assert(claim_branches(hands@, observer, cv, (k + 1) as int) == claim_branches(
                            hands@,
                            observer,
                            cv,
                            k as int,
                        ));
                    }
                } else {
                    let cands = own_cards(hands, observer, &claim.cards, true);
                    proof {
                        assert(common@ =~= notes@ + claim_common(hands@, observer, cv, (k + 1) as int));
                    }
                    if cands.len() > 0 {
                        let alts = build_claim_alternatives(&cands, claim.identity);
                        alternatives = cross_product(alternatives, &alts);
                    }
                }
            } else {
                proof {
                    assert(common@ =~= notes@ + claim_common(hands@, observer, cv, (k + 1) as int));
                }
            }
            k = k + 1;
        }
        let mut m: usize = 0;
        let ghost base = branch_views(alternatives@);
        while m < promises.len()
            invariant
                m <= promises@.len(),
                branch_views(alternatives@) == promise_branches(base, promise_views(promises@), stack_heights@, m as int),
            decreases promises@.len() - m,
        {
            assert(promise_views(promises@)[m as int] == promises@[m as int]@);
            let alts = build_promise_alternatives(&promises[m].cards, promises[m].identity, stack_heights);
            alternatives = cross_product(alternatives, &alts);
            m = m + 1;
        }
        if alternatives.len() == 1 && alternatives[0].len() == 0 {
            proof {
                assert(branch_views(alternatives@)[0] == alternatives@[0]@);
                assert(alternatives@[0]@ =~= Seq::<DomainEntry>::empty());
                assert(branch_views(alternatives@) =~= seq![Seq::<DomainEntry>::empty()]);
            }
            alternatives = Vec::new();
            proof {
                assert(branch_views(alternatives@) =~= Seq::<Seq<DomainEntry>>::empty());
            }
        } else {
            proof {
                if branch_views(alternatives@) == seq![Seq::<DomainEntry>::empty()] {
                    assert(branch_views(alternatives@)[0] == alternatives@[0]@);
                }
            }
        }
        ConventionConstraintGraph { common, alternatives }
    }

    /// The common domains and the branches, as world-building constraints.
    pub fn into_belief_constraints(self) -> (b: BeliefConstraints)
        ensures
            b.constraints@ == self.common@,
            b.branches@ == self.alternatives@,
    {
        BeliefConstraints { constraints: self.common, branches: self.alternatives }
    }
}

/// The belief constraints of the H-Group inferences: each card's convention
/// domain in common, and when connection promises exist, one branch per
/// combination of which card supplies each promise.
pub fn h_group_belief_constraints(
    stack_heights: [u8; 5],
    notes: &Vec<DomainEntry>,
    promises: &Vec<ConnectionPromise>,
) -> (b: BeliefConstraints)
    ensures
        b.constraints@ == notes@,
        branch_views(b.branches@) == if promises@.len() == 0 {
            Seq::<Seq<DomainEntry>>::empty()
        } else {
            promise_branches(seq![Seq::<DomainEntry>::empty()], promise_views(promises@), stack_heights@, promises@.len() as int)
        },
{
    let constraints = concat(notes, &Vec::new());
    proof {
        assert(constraints@ =~= notes@);
    }
    if promises.len() == 0 {
        let branches: Vec<Vec<DomainEntry>> = Vec::new();
        proof {
            assert(branch_views(branches@) =~= Seq::<Seq<DomainEntry>>::empty());
        }
        return BeliefConstraints { constraints, branches };
    }
    let mut branches: Vec<Vec<DomainEntry>> = Vec::new();
    branches.push(Vec::new());
    let ghost base = branch_views(branches@);
    proof {
        assert(base =~= seq![Seq::<DomainEntry>::empty()]);
    }
    let mut m: usize = 0;
    while m < promises.len()
        invariant
            base == seq![Seq::<DomainEntry>::empty()],
            m <= promises@.len(),
            branch_views(branches@) == promise_branches(base, promise_views(promises@), stack_heights@, m as int),
        decreases promises@.len() - m,
    {
        assert(promise_views(promises@)[m as int] == promises@[m as int]@);
        let alts = build_promise_alternatives(&promises[m].cards, promises[m].identity, stack_heights);
        branches = cross_product(branches, &alts);
        m = m + 1;
    }
    BeliefConstraints { constraints, branches }
}

} // verus!
