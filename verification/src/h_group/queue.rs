//! Whether a pending card can still connect an identity, and whether an
//! identity is already queued to play before a clue's target acts.

use vstd::prelude::*;

use crate::cards::{Card, CardId, CardSet, PlayerId};
use crate::h_group::action_schedule::playable_at;
use crate::h_group::admission::{visible_from, visible_identity, VisibleCard};
use crate::h_group::connection::{ConnectionManager, ManagerView, ObligationView};
use crate::h_group::facts::{claim_views, ClaimView, ConventionFacts, FactsView, IdentityClaimRelation};
use crate::h_group::hand::list_contains;
use crate::h_group::HGroupMoveKind;

verus! {

/// Moves whose claims hold only while their Prompt, Finesse or Bluff
/// connection is live.
pub open spec fn spec_conditional_connection(kind: HGroupMoveKind) -> bool {
    match kind {
        HGroupMoveKind::Prompt | HGroupMoveKind::Finesse | HGroupMoveKind::ReverseFinesse
        | HGroupMoveKind::SelfFinesse | HGroupMoveKind::LayeredFinesse
        | HGroupMoveKind::HiddenFinesse | HGroupMoveKind::ClandestineFinesse
        | HGroupMoveKind::QueuedFinesse | HGroupMoveKind::AmbiguousFinesse | HGroupMoveKind::Bluff
        | HGroupMoveKind::SelfBluff | HGroupMoveKind::ThreeBluff
        | HGroupMoveKind::CriticalColorBluff | HGroupMoveKind::HardBluff
        | HGroupMoveKind::GoodTouchBluff | HGroupMoveKind::DoubleBluff
        | HGroupMoveKind::HardDoubleBluff | HGroupMoveKind::PestilentDoubleBluff
        | HGroupMoveKind::TrashBluff | HGroupMoveKind::NoInformationDoubleBluff
        | HGroupMoveKind::SelfColorBluff | HGroupMoveKind::SelfColorDoubleBluff
        | HGroupMoveKind::EliminationBluff | HGroupMoveKind::KnownPriorityBluff
        | HGroupMoveKind::PestilentTripleBluff | HGroupMoveKind::PassBluff
        | HGroupMoveKind::PurgeBluff => true,
        _ => false,
    }
}

#[verifier::when_used_as_spec(spec_conditional_connection)]
pub fn is_conditional_connection(kind: HGroupMoveKind) -> (b: bool)
    ensures
        b == spec_conditional_connection(kind),
{
    match kind {
        HGroupMoveKind::Prompt | HGroupMoveKind::Finesse | HGroupMoveKind::ReverseFinesse
        | HGroupMoveKind::SelfFinesse | HGroupMoveKind::LayeredFinesse
        | HGroupMoveKind::HiddenFinesse | HGroupMoveKind::ClandestineFinesse
        | HGroupMoveKind::QueuedFinesse | HGroupMoveKind::AmbiguousFinesse | HGroupMoveKind::Bluff
        | HGroupMoveKind::SelfBluff | HGroupMoveKind::ThreeBluff
        | HGroupMoveKind::CriticalColorBluff | HGroupMoveKind::HardBluff
        | HGroupMoveKind::GoodTouchBluff | HGroupMoveKind::DoubleBluff
        | HGroupMoveKind::HardDoubleBluff | HGroupMoveKind::PestilentDoubleBluff
        | HGroupMoveKind::TrashBluff | HGroupMoveKind::NoInformationDoubleBluff
        | HGroupMoveKind::SelfColorBluff | HGroupMoveKind::SelfColorDoubleBluff
        | HGroupMoveKind::EliminationBluff | HGroupMoveKind::KnownPriorityBluff
        | HGroupMoveKind::PestilentTripleBluff | HGroupMoveKind::PassBluff
        | HGroupMoveKind::PurgeBluff => true,
        _ => false,
    }
}

/// A claim that gives `card` its identity outright, by a direct clue or
/// another fact that no connection can take back.
pub open spec fn hard_claim_on(c: ClaimView, card: CardId) -> bool {
    &&& c.relation == IdentityClaimRelation::Each
    &&& c.cards.contains(card)
    &&& !spec_conditional_connection(c.source)
}

/// Some hard claim on `card` names `identity`.
pub open spec fn hard_claim_agrees(claims: Seq<ClaimView>, card: CardId, identity: Card) -> bool {
    exists|k: int| 0 <= k < claims.len() && hard_claim_on(#[trigger] claims[k], card) && claims[k].identity == identity
}

/// Some hard claim on `card` names another identity.
pub open spec fn hard_claim_conflicts(claims: Seq<ClaimView>, card: CardId, identity: Card) -> bool {
    exists|k: int| 0 <= k < claims.len() && hard_claim_on(#[trigger] claims[k], card) && claims[k].identity != identity
}

/// A live single-card step already expects another identity from `card`.
pub open spec fn single_step_expects_other(active: Seq<ObligationView>, card: CardId, identity: Card) -> bool {
    exists|k: int|
        0 <= k < active.len() && (#[trigger] active[k]).cards.len() == 1 && active[k].cards.contains(card)
            && active[k].expected != identity
}

/// Whether `card` may still be the connecting `identity`: it is not fixed,
/// and either a hard claim already names `identity`, or no hard claim names
/// another identity, the identity is not excluded, and no single-card step
/// expects something else from it unless `identity` is playable right now.
pub open spec fn spec_pending_allows(m: ManagerView, f: FactsView, card: CardId, identity: Card, heights: Seq<u8>) -> bool {
    if f.fixed.contains(card) {
        false
    } else if hard_claim_agrees(f.claims, card, identity) {
        true
    } else {
        &&& !hard_claim_conflicts(f.claims, card, identity)
        &&& !f.excluded[card.id as int].contains(identity)
        &&& !(single_step_expects_other(m.active, card, identity) && !playable_at(heights, identity))
    }
}

/// Whether `identity` is the next card of its stack.
fn playable_now(heights: [u8; 5], identity: Card) -> (b: bool)
    ensures
        b == playable_at(heights@, identity),
{
    heights[identity.suit.index()] as u16 + 1 == identity.rank.number() as u16
}

/// A Fix retracts the card's former Play meaning. Until a later Play clue
/// explicitly reactivates that card, it cannot become a Prompt merely
/// because its physical clues still allow the connecting identity; a later
/// conditional connection cannot erase an identity a hard fact established.
/// <https://hanabi.github.io/level-2/#the-reverse-finesse>
pub fn pending_card_allows_identity(
    pending: &ConnectionManager,
    facts: &ConventionFacts,
    card: CardId,
    identity: Card,
    stack_heights: [u8; 5],
) -> (b: bool)
    requires
        facts.wf(),
        card.id < 50,
    ensures
        b == spec_pending_allows(pending@, facts@, card, identity, stack_heights@),
{
    if facts.fixed_cards().contains(&card) {
        return false;
    }
    let claims = facts.identity_claims();
    let ghost cv = facts@.claims;
    let mut agrees = false;
    let mut conflicts = false;
    let mut i: usize = 0;
    while i < claims.len()
        invariant
            i <= claims@.len(),
            claim_views(claims@) == cv,
            cv.len() == claims@.len(),
            agrees == exists|k: int| 0 <= k < i && hard_claim_on(#[trigger] cv[k], card) && cv[k].identity == identity,
            conflicts == exists|k: int| 0 <= k < i && hard_claim_on(#[trigger] cv[k], card) && cv[k].identity != identity,
        decreases claims@.len() - i,
    {
        let claim = &claims[i];
        proof {
            assert(cv[i as int] == claims@[i as int]@);
        }
        let hard = claim.relation == IdentityClaimRelation::Each && list_contains(claim.cards.as_slice(), card)
            && !is_conditional_connection(claim.source);
        if hard {
            if claim.identity == identity {
                agrees = true;
            } else {
                conflicts = true;
            }
        }
        proof {
            assert(hard == hard_claim_on(cv[i as int], card));
        }
        i = i + 1;
    }
    if agrees {
        return true;
    }
    if conflicts {
        return false;
    }
    if facts.excluded_identities(card).contains(identity) {
        return false;
    }
    if playable_now(stack_heights, identity) {
        return true;
    }
    let active = pending.active();
    let mut j: usize = 0;
    while j < active.len()
        invariant
            !facts@.fixed.contains(card),
            !hard_claim_agrees(facts@.claims, card, identity),
            !hard_claim_conflicts(facts@.claims, card, identity),
            !facts@.excluded[card.id as int].contains(identity),
            !playable_at(stack_heights@, identity),
            j <= active@.len(),
            active@.len() == pending@.active.len(),
            forall|k: int| 0 <= k < active@.len() ==> #[trigger] pending@.active[k] == active@[k]@,
            forall|k: int|
                0 <= k < j ==> !((#[trigger] pending@.active[k]).cards.len() == 1 && pending@.active[k].cards.contains(
                    card,
                ) && pending@.active[k].expected != identity),
        decreases active@.len() - j,
    {
        let o = &active[j];
        if o.cards.len() == 1 && list_contains(o.cards.as_slice(), card) && o.expected != identity {
            assert(pending@.active[j as int] == active@[j as int]@);
            return false;
        }
        assert(pending@.active[j as int] == active@[j as int]@);
        j = j + 1;
    }
    true
}

/// How far `player` sits after `giver` around a table of `players`.
pub open spec fn seats_after(players: int, giver: PlayerId, player: PlayerId) -> int {
    (player.seat + players - giver.seat) % players
}

/// Whether `player` acts after `giver` and no later than `target`.
pub open spec fn acts_before_target(players: int, giver: PlayerId, target: PlayerId, player: PlayerId) -> bool {
    seats_after(players, giver, player) != 0 && seats_after(players, giver, player) <= seats_after(
        players,
        giver,
        target,
    )
}

/// Whether `hand` holds `card`.
pub open spec fn holds(hand: Seq<VisibleCard>, card: CardId) -> bool {
    exists|j: int| 0 <= j < hand.len() && (#[trigger] hand[j]).id == card
}

/// The first seat at or after `p` whose hand holds `card`.
pub open spec fn owner_from(hands: Seq<Vec<VisibleCard>>, card: CardId, p: int) -> Option<int>
    decreases hands.len() - p,
{
    if p < 0 || p >= hands.len() {
        None
    } else if holds(hands[p]@, card) {
        Some(p)
    } else {
        owner_from(hands, card, p + 1)
    }
}

/// The visible identity of `card` in the first hand that holds it.
pub open spec fn seen_identity(hands: Seq<Vec<VisibleCard>>, card: CardId) -> Option<Card> {
    match owner_from(hands, card, 0) {
        Some(p) => visible_from(hands[p]@, card, 0),
        None => None,
    }
}

/// The holder of `card` acts after `giver` and no later than `target`.
pub open spec fn held_before_target(hands: Seq<Vec<VisibleCard>>, giver: PlayerId, target: PlayerId, card: CardId) -> bool {
    match owner_from(hands, card, 0) {
        Some(p) => acts_before_target(hands.len() as int, giver, target, PlayerId { seat: p as u8 }),
        None => false,
    }
}

/// A live step, or a card already playing, will supply `identity` before the
/// target acts: a step expects it from a player acting in between, a step's
/// focus promised to be it is held by such a player, or a card already
/// playing that is visibly it is held by one.
pub open spec fn spec_queued_before_target(
    hands: Seq<Vec<VisibleCard>>,
    giver: PlayerId,
    target: PlayerId,
    already_playing: Set<CardId>,
    m: ManagerView,
    identity: Card,
) -> bool {
    ||| exists|k: int|
        0 <= k < m.active.len() && {
            let o = #[trigger] m.active[k];
            ||| o.expected == identity && acts_before_target(hands.len() as int, giver, target, o.actor)
            ||| o.focus_identity == identity && held_before_target(hands, giver, target, o.focus)
        }
    ||| exists|c: CardId|
        #[trigger] already_playing.contains(c) && seen_identity(hands, c) == Some(identity) && held_before_target(
            hands,
            giver,
            target,
            c,
        )
}

pub(crate) fn hand_holds(hand: &Vec<VisibleCard>, card: CardId) -> (b: bool)
    ensures
        b == holds(hand@, card),
{
    let mut j: usize = 0;
    while j < hand.len()
        invariant
            j <= hand@.len(),
            forall|k: int| 0 <= k < j ==> (#[trigger] hand@[k]).id != card,
        decreases hand@.len() - j,
    {
        if hand[j].id == card {
            assert(hand@[j as int].id == card);
            return true;
        }
        j = j + 1;
    }
    false
}

/// The seat whose hand holds `card`.
pub fn owner_of(hands: &Vec<Vec<VisibleCard>>, card: CardId) -> (r: Option<usize>)
    ensures
        match r {
            Some(p) => owner_from(hands@, card, 0) == Some(p as int),
            None => owner_from(hands@, card, 0) is None,
        },
{
    let mut p: usize = 0;
    while p < hands.len()
        invariant
            p <= hands@.len(),
            owner_from(hands@, card, 0) == owner_from(hands@, card, p as int),
        decreases hands@.len() - p,
    {
        if hand_holds(&hands[p], card) {
            return Some(p);
        }
        p = p + 1;
    }
    None
}

/// The visible identity of `card` in the first hand that holds it.
pub fn identity_of(hands: &Vec<Vec<VisibleCard>>, card: CardId) -> (r: Option<Card>)
    ensures
        r == seen_identity(hands@, card),
{
    match owner_of(hands, card) {
        Some(p) => {
            proof {
                lemma_owner_in_range(hands@, card, 0);
            }
            visible_identity(&hands[p], card)
        },
        None => None,
    }
}

fn seats_after_exec(players: usize, giver: PlayerId, player: PlayerId) -> (d: usize)
    requires
        0 < players <= 256,
        giver.seat < players,
    ensures
        d == seats_after(players as int, giver, player),
{
    (player.index() + players - giver.index()) % players
}

fn holder_before_target(hands: &Vec<Vec<VisibleCard>>, giver: PlayerId, target: PlayerId, card: CardId) -> (b: bool)
    requires
        0 < hands@.len() <= 256,
        giver.seat < hands@.len(),
    ensures
        b == held_before_target(hands@, giver, target, card),
{
    match owner_of(hands, card) {
        Some(p) => {
            proof {
                lemma_owner_in_range(hands@, card, 0);
            }
            let d = seats_after_exec(hands.len(), giver, PlayerId::new(p as u8));
            d != 0 && d <= seats_after_exec(hands.len(), giver, target)
        },
        None => false,
    }
}

/// The seat found for a card is a seat of the table.
pub proof fn lemma_owner_in_range(hands: Seq<Vec<VisibleCard>>, card: CardId, p: int)
    requires
        0 <= p,
    ensures
        owner_from(hands, card, p) matches Some(q) ==> p <= q < hands.len(),
    decreases hands.len() - p,
{
    if p < hands.len() && !holds(hands[p]@, card) {
        lemma_owner_in_range(hands, card, p + 1);
    }
}

/// Whether a live connection step or a card already playing supplies
/// `identity` before `target` acts on a clue from `giver`, so the clue's
/// target may count on it.
pub fn identity_is_queued_before_target(
    hands: &Vec<Vec<VisibleCard>>,
    giver: PlayerId,
    target: PlayerId,
    already_playing: &CardSet,
    pending: &ConnectionManager,
    identity: Card,
) -> (b: bool)
    requires
        0 < hands@.len() <= 256,
        giver.seat < hands@.len(),
    ensures
        b == spec_queued_before_target(hands@, giver, target, already_playing@, pending@, identity),
{
    let players = hands.len();
    let target_distance = seats_after_exec(players, giver, target);
    let active = pending.active();
    let mut j: usize = 0;
    while j < active.len()
        invariant
            0 < players <= 256,
            players == hands@.len(),
            giver.seat < players,
            target_distance == seats_after(players as int, giver, target),
            j <= active@.len(),
            active@.len() == pending@.active.len(),
            forall|k: int| 0 <= k < active@.len() ==> #[trigger] pending@.active[k] == active@[k]@,
            forall|k: int|
                0 <= k < j ==> !({
                    let o = #[trigger] pending@.active[k];
                    ||| o.expected == identity && acts_before_target(players as int, giver, target, o.actor)
                    ||| o.focus_identity == identity && held_before_target(hands@, giver, target, o.focus)
                }),
        decreases active@.len() - j,
    {
        let o = &active[j];
        assert(pending@.active[j as int] == active@[j as int]@);
        let d = seats_after_exec(players, giver, o.actor);
        if o.expected == identity && d != 0 && d <= target_distance {
            return true;
        }
        if o.focus_identity == identity && holder_before_target(hands, giver, target, o.focus) {
            return true;
        }
        j = j + 1;
    }
    let cards = already_playing.to_vec();
    proof {
        already_playing.lemma_listed();
    }
    let mut k: usize = 0;
    while k < cards.len()
        invariant
            0 < hands@.len() <= 256,
            giver.seat < hands@.len(),
            k <= cards@.len(),
            cards@ == already_playing.order(),
            forall|c: CardId| #[trigger] already_playing@.contains(c) <==> cards@.contains(c),
            forall|m: int|
                0 <= m < k ==> !(seen_identity(hands@, #[trigger] cards@[m]) == Some(identity) && held_before_target(
                    hands@,
                    giver,
                    target,
                    cards@[m],
                )),
            !exists|m: int|
                0 <= m < pending@.active.len() && {
                    let o = #[trigger] pending@.active[m];
                    ||| o.expected == identity && acts_before_target(hands@.len() as int, giver, target, o.actor)
                    ||| o.focus_identity == identity && held_before_target(hands@, giver, target, o.focus)
                },
        decreases cards@.len() - k,
    {
        let c = cards[k];
        let seen = identity_of(hands, c);
        if seen == Some(identity) && holder_before_target(hands, giver, target, c) {
            assert(already_playing@.contains(c));
            return true;
        }
        k = k + 1;
    }
    proof {
        assert forall|c: CardId| #[trigger] already_playing@.contains(c) implies !(seen_identity(hands@, c) == Some(
            identity,
        ) && held_before_target(hands@, giver, target, c)) by {
            assert(cards@.contains(c));
            let m = choose|m: int| 0 <= m < cards@.len() && cards@[m] == c;
            assert(cards@[m] == c);
        }
    }
    false
}

} // verus!
