//! Conditional discard safety from a declined mandatory protection
//! opportunity: strategy knowledge, not a card identity or a trash note.
//! [Save Principle](https://hanabi.github.io/beginner/save-principle/)
//! forbids knowingly letting a teammate discard a unique playable or last
//! copy.

use vstd::prelude::*;

use crate::cards::{lemma_card_index_injective, lemma_card_index_roundtrip, Card, CardId, IdentitySet, Rank};
use crate::h_group::action_schedule::playable_at;
use crate::h_group::admission::VisibleCard;

verus! {

/// Another held card is visibly `identity`.
pub open spec fn replaced(hands: Seq<Vec<VisibleCard>>, card: CardId, identity: Card) -> bool {
    exists|p: int, j: int|
        0 <= p < hands.len() && 0 <= j < hands[p]@.len() && {
            let held = #[trigger] hands[p]@[j];
            held.id != card && held.identity == Some(identity)
        }
}

/// Whether a teammate was obliged to protect `card` as `identity`: it is
/// still useful, no other held card replaces it, and it is a 5, a critical
/// save, playable now, or a 2.
pub open spec fn protection_required(
    hands: Seq<Vec<VisibleCard>>,
    card: CardId,
    heights: Seq<u8>,
    useful: Set<Card>,
    critical_saves: Set<Card>,
    identity: Card,
) -> bool {
    &&& useful.contains(identity)
    &&& !replaced(hands, card, identity)
    &&& (identity.rank == Rank::Five || critical_saves.contains(identity) || playable_at(heights, identity)
        || identity.rank == Rank::Two)
}

fn is_replaced(hands: &Vec<Vec<VisibleCard>>, card: CardId, identity: Card) -> (b: bool)
    ensures
        b == replaced(hands@, card, identity),
{
    let mut p: usize = 0;
    while p < hands.len()
        invariant
            p <= hands@.len(),
            forall|q: int, j: int|
                0 <= q < p && 0 <= j < hands@[q]@.len() ==> !({
                    let held = #[trigger] hands@[q]@[j];
                    held.id != card && held.identity == Some(identity)
                }),
        decreases hands@.len() - p,
    {
        let hand = &hands[p];
        let mut j: usize = 0;
        while j < hand.len()
            invariant
                p < hands@.len(),
                hand@ == hands@[p as int]@,
                j <= hand@.len(),
                forall|q: int, m: int|
                    0 <= q < p && 0 <= m < hands@[q]@.len() ==> !({
                        let held = #[trigger] hands@[q]@[m];
                        held.id != card && held.identity == Some(identity)
                    }),
                forall|m: int|
                    0 <= m < j ==> !({
                        let held = #[trigger] hands@[p as int]@[m];
                        held.id != card && held.identity == Some(identity)
                    }),
            decreases hand@.len() - j,
        {
            let held = hand[j];
            assert(hands@[p as int]@[j as int] == held);
            if held.id != card && held.identity == Some(identity) {
                return true;
            }
            j = j + 1;
        }
        p = p + 1;
    }
    false
}

/// The identities of `card`'s domain that remain when a teammate declined
/// to protect it: those the teammate was not obliged to protect. When no
/// protection duty applied (`duty_applies` false: the card was not the
/// chop, a play or connection was due, or the giver had a clue to give),
/// the whole domain remains. `critical_saves` holds the critical identities
/// a Save must protect and `useful` those still eventually useful.
pub fn declined_protection_domain(
    hands: &Vec<Vec<VisibleCard>>,
    card: CardId,
    domain: IdentitySet,
    stack_heights: [u8; 5],
    useful: IdentitySet,
    critical_saves: IdentitySet,
    duty_applies: bool,
) -> (allowed: IdentitySet)
    requires
        domain.wf(),
    ensures
        allowed.wf(),
        !duty_applies ==> allowed == domain,
        duty_applies ==> allowed@ == domain@.filter(
            |c: Card| !protection_required(hands@, card, stack_heights@, useful@, critical_saves@, c),
        ),
{
    if !duty_applies {
        return domain;
    }
    let mut allowed = IdentitySet::empty();
    let mut i: usize = 0;
    while i < 25
        invariant
            i <= 25,
            allowed.wf(),
            forall|c: Card|
                allowed@.contains(c) <==> (c.spec_index() < i && domain@.contains(c) && !protection_required(
                    hands@,
                    card,
                    stack_heights@,
                    useful@,
                    critical_saves@,
                    c,
                )),
        decreases 25 - i,
    {
        let candidate = Card::from_index(i);
        if domain.contains(candidate) {
            let required = useful.contains(candidate) && !is_replaced(hands, card, candidate) && (candidate.rank
                == Rank::Five || critical_saves.contains(candidate) || stack_heights[candidate.suit.index()] as u16 + 1
                == candidate.rank.number() as u16 || candidate.rank == Rank::Two);
            if !required {
                allowed = allowed.union(IdentitySet::singleton(candidate));
            }
        }
        proof {
            assert forall|c: Card|
                allowed@.contains(c) <==> (c.spec_index() < i + 1 && domain@.contains(c) && !protection_required(
                    hands@,
                    card,
                    stack_heights@,
                    useful@,
                    critical_saves@,
                    c,
                )) by {
                lemma_card_index_injective(c, candidate);
            }
        }
        i = i + 1;
    }
    proof {
        assert forall|c: Card|
            allowed@.contains(c) <==> domain@.filter(
                |c: Card| !protection_required(hands@, card, stack_heights@, useful@, critical_saves@, c),
            ).contains(c) by {
            lemma_card_index_roundtrip(c);
        }
        assert(allowed@ =~= domain@.filter(
            |c: Card| !protection_required(hands@, card, stack_heights@, useful@, critical_saves@, c),
        ));
    }
    allowed
}

} // verus!
