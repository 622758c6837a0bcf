//! Which of two known playable cards the Priority flowchart plays first.
//! <https://hanabi.github.io/level-25/#priority>

use vstd::prelude::*;

use crate::cards::{lemma_identity_set_extensional, Card, CardId, CardSet, IdentitySet, PlayerId, Rank};
use crate::h_group::admission::VisibleCard;
use crate::h_group::queue::{identity_of, seen_identity};

verus! {

/// The next identity of the same suit, unless `identity` is a 5.
pub open spec fn successor(identity: Card) -> Option<Card> {
    if identity.rank == Rank::Five {
        None
    } else {
        Some(Card { suit: identity.suit, rank: Rank::spec_from_index((identity.rank.spec_index() + 1) as usize) })
    }
}

/// The logical identities of `card` are exactly `identity`.
pub open spec fn exactly(logical: Seq<IdentitySet>, card: CardId, identity: Card) -> bool {
    logical[card.id as int]@ == Set::<Card>::empty().insert(identity)
}

/// The features the flowchart compares: whether the card is a blind play
/// (forced playable yet not exactly known), whether its successor is visible
/// in another player's hand, whether its successor is exactly known in the
/// actor's own hand (unless it completes the actor's own chain to a 5), and
/// its position in the hand.
pub struct PriorityFeatures {
    pub blind: bool,
    pub leads_other: bool,
    pub leads_self: bool,
    pub position: int,
}

/// The first position of `card` in `hand`, or 0.
pub open spec fn position_of(hand: Seq<CardId>, card: CardId) -> int {
    if hand.contains(card) {
        choose|j: int| 0 <= j < hand.len() && hand[j] == card && forall|m: int| 0 <= m < j ==> hand[m] != card
    } else {
        0
    }
}

/// The flowchart's features of `card` with `identity`; `terminal_chain`
/// says whether it completes the actor's own chain to a 5.
pub open spec fn features(
    seen: Seq<Vec<VisibleCard>>,
    hands: Seq<Vec<CardId>>,
    logical: Seq<IdentitySet>,
    forced_playable: Set<CardId>,
    actor: PlayerId,
    hand: Seq<CardId>,
    card: CardId,
    identity: Card,
    terminal_chain: bool,
) -> PriorityFeatures {
    PriorityFeatures {
        blind: forced_playable.contains(card) && !exactly(logical, card, identity),
        leads_other: successor(identity) is Some && exists|p: int, j: int|
            0 <= p < hands.len() && p != actor.seat && 0 <= j < hands[p]@.len() && seen_identity(
                seen,
                #[trigger] hands[p]@[j],
            ) == successor(identity),
        leads_self: !terminal_chain && successor(identity) is Some && exists|j: int|
            0 <= j < hand.len() && #[trigger] hand[j] != card && exactly(logical, hand[j], successor(identity)->0),
        position: position_of(hand, card),
    }
}

/// Whether a card with features `c` and identity `ci` is played before one
/// with features `p` and identity `pi`: blind plays first, then cards
/// leading into another hand, then cards leading into the own hand, then 5s,
/// then lower ranks, then the newer card. Two blind plays, or two cards
/// leading into other hands, have equal priority.
pub open spec fn higher_priority(c: PriorityFeatures, ci: Card, p: PriorityFeatures, pi: Card) -> bool {
    if c.blind != p.blind {
        c.blind
    } else if c.blind {
        false
    } else if c.leads_other != p.leads_other {
        c.leads_other
    } else if c.leads_other {
        false
    } else if c.leads_self != p.leads_self {
        c.leads_self
    } else if ci.rank == Rank::Five && pi.rank != Rank::Five {
        true
    } else if ci.rank != Rank::Five && pi.rank == Rank::Five {
        false
    } else if ci.rank.spec_number() < pi.rank.spec_number() {
        true
    } else if ci.rank.spec_number() > pi.rank.spec_number() {
        false
    } else {
        c.position > p.position
    }
}

/// The card identifiers `hand` and `hands` mention, and `candidate` and
/// `played`, index the logical identities, which are well formed.
pub open spec fn logical_covers(logical: Seq<IdentitySet>, hand: Seq<CardId>, cards: Seq<CardId>) -> bool {
    &&& forall|k: int| 0 <= k < logical.len() ==> (#[trigger] logical[k]).wf()
    &&& forall|j: int| 0 <= j < hand.len() ==> (#[trigger] hand[j]).id < logical.len()
    &&& forall|j: int| 0 <= j < cards.len() ==> (#[trigger] cards[j]).id < logical.len()
}

fn is_exact(logical: &Vec<IdentitySet>, card: CardId, identity: Card) -> (b: bool)
    requires
        card.id < logical@.len(),
        logical@[card.id as int].wf(),
    ensures
        b == exactly(logical@, card, identity),
{
    let set = logical[card.index()];
    let single = IdentitySet::singleton(identity);
    proof {
        if set@ == Set::<Card>::empty().insert(identity) {
            lemma_identity_set_extensional(set, single);
        }
    }
    set == single
}

fn next_identity(identity: Card) -> (r: Option<Card>)
    ensures
        r == successor(identity),
{
    if identity.rank == Rank::Five {
        None
    } else {
        Some(Card { suit: identity.suit, rank: Rank::from_index(identity.rank.index() + 1) })
    }
}

/// Whether a player other than `actor` visibly holds `next`.
fn seen_in_other_hand(seen: &Vec<Vec<VisibleCard>>, hands: &Vec<Vec<CardId>>, actor: PlayerId, next: Option<Card>) -> (b:
    bool)
    ensures
        b == exists|p: int, j: int|
            0 <= p < hands@.len() && p != actor.seat && 0 <= j < hands@[p]@.len() && seen_identity(
                seen@,
                #[trigger] hands@[p]@[j],
            ) == next,
{
    let mut p: usize = 0;
    while p < hands.len()
        invariant
            p <= hands@.len(),
            forall|q: int, j: int|
                0 <= q < p && q != actor.seat && 0 <= j < hands@[q]@.len() ==> seen_identity(
                    seen@,
                    #[trigger] hands@[q]@[j],
                ) != next,
        decreases hands@.len() - p,
    {
        if p != actor.index() {
            let other_hand = &hands[p];
            let mut j: usize = 0;
            while j < other_hand.len()
                invariant
                    p < hands@.len(),
                    p != actor.seat,
                    other_hand@ == hands@[p as int]@,
                    j <= other_hand@.len(),
                    forall|q: int, m: int|
                        0 <= q < p && q != actor.seat && 0 <= m < hands@[q]@.len() ==> seen_identity(
                            seen@,
                            #[trigger] hands@[q]@[m],
                        ) != next,
                    forall|m: int| 0 <= m < j ==> seen_identity(seen@, #[trigger] hands@[p as int]@[m]) != next,
                decreases other_hand@.len() - j,
            {
                if identity_of(seen, other_hand[j]) == next {
                    assert(seen_identity(seen@, hands@[p as int]@[j as int]) == next);
                    return true;
                }
                j = j + 1;
            }
        }
        p = p + 1;
    }
    false
}

/// Whether a card of `hand` other than `card` is exactly `next`.
fn known_in_own_hand(logical: &Vec<IdentitySet>, hand: &Vec<CardId>, card: CardId, next: Card) -> (b: bool)
    requires
        logical_covers(logical@, hand@, seq![card]),
    ensures
        b == exists|j: int| 0 <= j < hand@.len() && #[trigger] hand@[j] != card && exactly(logical@, hand@[j], next),
{
    let mut j: usize = 0;
    while j < hand.len()
        invariant
            logical_covers(logical@, hand@, seq![card]),
            j <= hand@.len(),
            forall|m: int| 0 <= m < j ==> !(#[trigger] hand@[m] != card && exactly(logical@, hand@[m], next)),
        decreases hand@.len() - j,
    {
        let other = hand[j];
        assert(other == hand@[j as int]);
        if other != card && is_exact(logical, other, next) {
            return true;
        }
        j = j + 1;
    }
    false
}

/// The first position of `card` in `hand`, or 0.
fn first_position(hand: &Vec<CardId>, card: CardId) -> (r: usize)
    ensures
        r == position_of(hand@, card),
{
    let mut j: usize = 0;
    while j < hand.len()
        invariant
            j <= hand@.len(),
            forall|m: int| 0 <= m < j ==> hand@[m] != card,
        decreases hand@.len() - j,
    {
        if hand[j] == card {
            proof {
                assert(hand@.contains(card));
                let chosen = position_of(hand@, card);
                assert(0 <= chosen < hand@.len() && hand@[chosen] == card && forall|m: int|
                    0 <= m < chosen ==> hand@[m] != card);
                if chosen > j {
                    assert(hand@[j as int] == card);
                }
                assert(chosen == j);
            }
            return j;
        }
        j = j + 1;
    }
    proof {
        assert(!hand@.contains(card));
    }
    0
}

/// The flowchart's features of one card, as computed values.
fn compute_features(
    seen: &Vec<Vec<VisibleCard>>,
    hands: &Vec<Vec<CardId>>,
    logical: &Vec<IdentitySet>,
    forced_playable: &CardSet,
    actor: PlayerId,
    hand: &Vec<CardId>,
    card: CardId,
    identity: Card,
    terminal_chain: bool,
) -> (r: (bool, bool, bool, usize))
    requires
        logical_covers(logical@, hand@, seq![card]),
    ensures
        r.0 == features(seen@, hands@, logical@, forced_playable@, actor, hand@, card, identity, terminal_chain).blind,
        r.1 == features(seen@, hands@, logical@, forced_playable@, actor, hand@, card, identity, terminal_chain).leads_other,
        r.2 == features(seen@, hands@, logical@, forced_playable@, actor, hand@, card, identity, terminal_chain).leads_self,
        r.3 == features(seen@, hands@, logical@, forced_playable@, actor, hand@, card, identity, terminal_chain).position,
{
    assert(seq![card][0] == card);
    let blind = forced_playable.contains(&card) && !is_exact(logical, card, identity);
    let next = next_identity(identity);
    let leads_other = next.is_some() && seen_in_other_hand(seen, hands, actor, next);
    let leads_self = match next {
        Some(n) => !terminal_chain && known_in_own_hand(logical, hand, card, n),
        None => false,
    };
    (blind, leads_other, leads_self, first_position(hand, card))
}

/// Whether `candidate` is played before `played` under the Level 25
/// Priority flowchart. The ordering between unresolved blind plays depends
/// on the order of their Finesses, and the flowchart gives equal priority
/// to two cards leading into other hands; neither is invented here.
/// `candidate_terminal` and `played_terminal` say whether each card
/// completes the actor's own chain to a 5, which only matters when one of
/// the two cards is a 5.
pub fn has_higher_basic_priority(
    seen: &Vec<Vec<VisibleCard>>,
    hands: &Vec<Vec<CardId>>,
    logical: &Vec<IdentitySet>,
    forced_playable: &CardSet,
    actor: PlayerId,
    hand: &Vec<CardId>,
    candidate: CardId,
    candidate_identity: Card,
    candidate_terminal: bool,
    played: CardId,
    played_identity: Card,
    played_terminal: bool,
) -> (b: bool)
    requires
        logical_covers(logical@, hand@, seq![candidate, played]),
    ensures
        ({
            let five = candidate_identity.rank == Rank::Five || played_identity.rank == Rank::Five;
            b == higher_priority(
                features(
                    seen@,
                    hands@,
                    logical@,
                    forced_playable@,
                    actor,
                    hand@,
                    candidate,
                    candidate_identity,
                    five && candidate_terminal,
                ),
                candidate_identity,
                features(
                    seen@,
                    hands@,
                    logical@,
                    forced_playable@,
                    actor,
                    hand@,
                    played,
                    played_identity,
                    five && played_terminal,
                ),
                played_identity,
            )
        }),
{
    assert(seq![candidate, played][0] == candidate);
    assert(seq![candidate, played][1] == played);
    assert(logical_covers(logical@, hand@, seq![candidate])) by {
        assert(seq![candidate][0] == candidate);
    }
    assert(logical_covers(logical@, hand@, seq![played])) by {
        assert(seq![played][0] == played);
    }
    let five = candidate_identity.rank == Rank::Five || played_identity.rank == Rank::Five;
    let (c_blind, c_other, c_self, c_position) = compute_features(
        seen,
        hands,
        logical,
        forced_playable,
        actor,
        hand,
        candidate,
        candidate_identity,
        five && candidate_terminal,
    );
    let (p_blind, p_other, p_self, p_position) = compute_features(
        seen,
        hands,
        logical,
        forced_playable,
        actor,
        hand,
        played,
        played_identity,
        five && played_terminal,
    );
    if c_blind != p_blind {
        return c_blind;
    }
    if c_blind {
        return false;
    }
    if c_other != p_other {
        return c_other;
    }
    if c_other {
        return false;
    }
    if c_self != p_self {
        return c_self;
    }
    let c_five = candidate_identity.rank == Rank::Five;
    let p_five = played_identity.rank == Rank::Five;
    if c_five && !p_five {
        return true;
    }
    if !c_five && p_five {
        return false;
    }
    let c_number = candidate_identity.rank.number();
    let p_number = played_identity.rank.number();
    if c_number < p_number {
        true
    } else if c_number > p_number {
        false
    } else {
        c_position > p_position
    }
}

/// The Priority flowchart never puts each of two cards before the other.
pub proof fn lemma_priority_asymmetric(c: PriorityFeatures, ci: Card, p: PriorityFeatures, pi: Card)
    ensures
        !(higher_priority(c, ci, p, pi) && higher_priority(p, pi, c, ci)),
{
}

} // verus!
