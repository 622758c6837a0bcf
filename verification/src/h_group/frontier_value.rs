//! Resource arithmetic for comparing positions at a projection frontier.
//! Unknown draws create opportunities and contingencies, never concrete
//! identities.

use vstd::prelude::*;

use crate::cards::{lemma_card_index_injective, lemma_card_index_roundtrip, Card, IdentitySet, Rank};
use crate::evaluation::{count_copies, discard_count};
use crate::future_card_quality::{descending, padded, FutureCardQuality, SecuredCardQuality};
use crate::h_group::admission::VisibleCard;

verus! {

/// A count clamped into a byte.
pub open spec fn clamp_to_byte(value: int) -> int {
    if value <= 255 {
        value
    } else {
        255
    }
}

/// Narrows a count into a byte, saturating at 255.
pub fn narrow(value: usize) -> (n: u8)
    ensures
        n == clamp_to_byte(value as int),
{
    if value <= 255 {
        value as u8
    } else {
        u8::MAX
    }
}

/// How many turns of pressure a second consecutive save puts on the team:
/// one turn for the save itself plus one for each clue token short of two.
pub open spec fn save_pressure(tokens: int) -> int {
    1 + if tokens >= 2 {
        0
    } else {
        2 - tokens
    }
}

/// A contingent second save accounts for the shortfall of clue tokens.
pub fn consecutive_save_pressure(tokens: u8) -> (p: u8)
    ensures
        p == save_pressure(tokens as int),
        1 <= p <= 3,
{
    1 + 2u8.saturating_sub(tokens)
}

/// How many cards of `hand` are visibly `identity`.
pub open spec fn hand_count(hand: Seq<VisibleCard>, identity: Card) -> nat
    decreases hand.len(),
{
    if hand.len() == 0 {
        0
    } else {
        hand_count(hand.drop_last(), identity) + if hand.last().identity == Some(identity) {
            1nat
        } else {
            0nat
        }
    }
}

/// How many cards of all `hands` are visibly `identity`.
pub open spec fn hands_count(hands: Seq<Vec<VisibleCard>>, identity: Card) -> nat
    decreases hands.len(),
{
    if hands.len() == 0 {
        0
    } else {
        hands_count(hands.drop_last(), identity) + hand_count(hands.last()@, identity)
    }
}

/// Some hand visibly holds `identity`.
pub open spec fn visible(hands: Seq<Vec<VisibleCard>>, identity: Card) -> bool {
    exists|p: int, j: int| 0 <= p < hands.len() && 0 <= j < hands[p]@.len() && (#[trigger] hands[p]@[j]).identity == Some(identity)
}

/// The stack of `identity`'s suit already holds it.
pub open spec fn already_played(heights: Seq<u8>, identity: Card) -> bool {
    heights[identity.suit.spec_index() as int] >= identity.rank.spec_number()
}

/// Copies of `identity` neither visible in a hand, discarded, nor played.
pub open spec fn spec_unseen(hands: Seq<Vec<VisibleCard>>, pile: Seq<Card>, heights: Seq<u8>, identity: Card) -> int {
    let accounted = hands_count(hands, identity) + discard_count(pile, identity) + if already_played(heights, identity) {
        1int
    } else {
        0int
    };
    if accounted >= identity.rank.spec_copies() {
        0
    } else {
        identity.rank.spec_copies() - accounted
    }
}

fn count_in_hand(hand: &Vec<VisibleCard>, identity: Card) -> (n: usize)
    ensures
        n == hand_count(hand@, identity),
{
    let mut n: usize = 0;
    let mut k: usize = 0;
    while k < hand.len()
        invariant
            k <= hand@.len(),
            n <= k,
            n == hand_count(hand@.take(k as int), identity),
        decreases hand@.len() - k,
    {
        proof {
            assert(hand@.take(k + 1).drop_last() =~= hand@.take(k as int));
        }
        if hand[k].identity == Some(identity) {
            n = n + 1;
        }
        k = k + 1;
    }
    proof {
        assert(hand@.take(k as int) =~= hand@);
    }
    n
}

/// How many cards of all `hands` are visibly `identity`, saturating.
fn count_in_hands(hands: &Vec<Vec<VisibleCard>>, identity: Card) -> (n: usize)
    ensures
        n == if hands_count(hands@, identity) >= usize::MAX {
            usize::MAX as int
        } else {
            hands_count(hands@, identity) as int
        },
{
    let mut n: usize = 0;
    let mut p: usize = 0;
    while p < hands.len()
        invariant
            p <= hands@.len(),
            n == if hands_count(hands@.take(p as int), identity) >= usize::MAX {
                usize::MAX as int
            } else {
                hands_count(hands@.take(p as int), identity) as int
            },
        decreases hands@.len() - p,
    {
        proof {
            assert(hands@.take(p + 1).drop_last() =~= hands@.take(p as int));
        }
        n = n.saturating_add(count_in_hand(&hands[p], identity));
        p = p + 1;
    }
    proof {
        assert(hands@.take(p as int) =~= hands@);
    }
    n
}

/// Copies of `identity` neither visible in any hand, discarded, nor played.
pub fn unseen(hands: &Vec<Vec<VisibleCard>>, discard_pile: &Vec<Card>, stack_heights: [u8; 5], identity: Card) -> (n: usize)
    ensures
        n == spec_unseen(hands@, discard_pile@, stack_heights@, identity),
{
    let played: usize = if stack_heights[identity.suit.index()] >= identity.rank.number() {
        1
    } else {
        0
    };
    let accounted = count_in_hands(hands, identity).saturating_add(count_copies(discard_pile, identity)).saturating_add(
        played,
    );
    (identity.rank.copies() as usize).saturating_sub(accounted)
}

/// A still useful identity whose other copies are all discarded.
pub open spec fn spec_critical(useful: Set<Card>, pile: Seq<Card>, identity: Card) -> bool {
    useful.contains(identity) && discard_count(pile, identity) + 1 >= identity.rank.spec_copies()
}

/// Whether `identity` is still useful and its other copies are all
/// discarded; `useful` holds the identities still eventually useful.
pub fn critical(useful: IdentitySet, discard_pile: &Vec<Card>, identity: Card) -> (b: bool)
    ensures
        b == spec_critical(useful@, discard_pile@, identity),
{
    useful.contains(identity) && count_copies(discard_pile, identity) >= (identity.rank.copies() - 1) as usize
}

/// The identity of `suit`'s stack with number `n`.
pub open spec fn with_number(identity: Card, n: int) -> Card {
    Card { suit: identity.suit, rank: Rank::spec_from_index((n - 1) as usize) }
}

/// Every predecessor of `identity` above its stack is secured or visible.
pub open spec fn predecessors_available(hands: Seq<Vec<VisibleCard>>, heights: Seq<u8>, secured: Set<Card>, identity: Card) -> bool {
    forall|n: int|
        heights[identity.suit.spec_index() as int] + 1 <= n < identity.rank.spec_number() ==> (secured.contains(
            #[trigger] with_number(identity, n),
        ) || visible(hands, with_number(identity, n)))
}

/// Feasibility, not a promise: every still useful identity of a non-empty
/// `domain` has all its predecessors played, secured or visible.
pub open spec fn spec_can_play_soon(
    hands: Seq<Vec<VisibleCard>>,
    heights: Seq<u8>,
    useful: Set<Card>,
    domain: Set<Card>,
    secured: Set<Card>,
) -> bool {
    &&& domain != Set::<Card>::empty()
    &&& forall|c: Card| #[trigger] domain.contains(c) ==> (!useful.contains(c) || predecessors_available(hands, heights, secured, c))
}

fn is_visible(hands: &Vec<Vec<VisibleCard>>, identity: Card) -> (b: bool)
    ensures
        b == visible(hands@, identity),
{
    let mut p: usize = 0;
    while p < hands.len()
        invariant
            p <= hands@.len(),
            forall|q: int, j: int| 0 <= q < p && 0 <= j < hands@[q]@.len() ==> (#[trigger] hands@[q]@[j]).identity != Some(identity),
        decreases hands@.len() - p,
    {
        let hand = &hands[p];
        let mut j: usize = 0;
        while j < hand.len()
            invariant
                p < hands@.len(),
                hand@ == hands@[p as int]@,
                j <= hand@.len(),
                forall|q: int, m: int| 0 <= q < p && 0 <= m < hands@[q]@.len() ==> (#[trigger] hands@[q]@[m]).identity != Some(identity),
                forall|m: int| 0 <= m < j ==> (#[trigger] hands@[p as int]@[m]).identity != Some(identity),
            decreases hand@.len() - j,
        {
            if hand[j].identity == Some(identity) {
                assert(hands@[p as int]@[j as int].identity == Some(identity));
                return true;
            }
            j = j + 1;
        }
        p = p + 1;
    }
    false
}

fn predecessors_ready(hands: &Vec<Vec<VisibleCard>>, heights: [u8; 5], secured: IdentitySet, identity: Card) -> (b: bool)
    ensures
        b == predecessors_available(hands@, heights@, secured@, identity),
{
    let mut n: u8 = heights[identity.suit.index()];
    if n < 255 {
        n = n + 1;
    }
    let start = n;
    let number = identity.rank.number();
    while n < number
        invariant
            start == if heights@[identity.suit.spec_index() as int] < 255 {
                heights@[identity.suit.spec_index() as int] + 1
            } else {
                255
            },
            start <= n,
            number == identity.rank.spec_number(),
            forall|m: int|
                start <= m < n ==> (secured@.contains(#[trigger] with_number(identity, m)) || visible(
                    hands@,
                    with_number(identity, m),
                )),
        decreases number - n,
    {
        let predecessor = Card { suit: identity.suit, rank: Rank::from_index((n - 1) as usize) };
        assert(predecessor == with_number(identity, n as int));
        if !secured.contains(predecessor) && !is_visible(hands, predecessor) {
            return false;
        }
        n = n + 1;
    }
    true
}

/// Feasibility, not a promise: all predecessors are played or visible. An
/// ambiguous saved 2 is not a long-term hand burden when every remaining 1
/// is visible and can be obtained by the team.
pub fn can_play_soon(
    hands: &Vec<Vec<VisibleCard>>,
    stack_heights: [u8; 5],
    useful: IdentitySet,
    domain: IdentitySet,
    secured: IdentitySet,
) -> (b: bool)
    ensures
        b == spec_can_play_soon(hands@, stack_heights@, useful@, domain@, secured@),
{
    if domain.is_empty() {
        return false;
    }
    let mut i: usize = 0;
    while i < 25
        invariant
            i <= 25,
            domain@ != Set::<Card>::empty(),
            forall|c: Card|
                c.spec_index() < i && #[trigger] domain@.contains(c) ==> (!useful@.contains(c) || predecessors_available(
                    hands@,
                    stack_heights@,
                    secured@,
                    c,
                )),
        decreases 25 - i,
    {
        let card = Card::from_index(i);
        if domain.contains(card) && useful.contains(card) && !predecessors_ready(hands, stack_heights, secured, card) {
            return false;
        }
        proof {
            assert forall|c: Card|
                c.spec_index() < i + 1 && #[trigger] domain@.contains(c) implies (!useful@.contains(c)
                || predecessors_available(hands@, stack_heights@, secured@, c)) by {
                lemma_card_index_injective(c, card);
            }
        }
        i = i + 1;
    }
    proof {
        assert forall|c: Card| #[trigger] domain@.contains(c) implies (!useful@.contains(c) || predecessors_available(
            hands@,
            stack_heights@,
            secured@,
            c,
        )) by {
            lemma_card_index_roundtrip(c);
        }
    }
    true
}

/// The members of `set` with index below `i`, in index order.
pub open spec fn members_below(set: IdentitySet, i: int) -> Seq<Card>
    decreases i,
{
    if i <= 0 {
        Seq::empty()
    } else if set@.contains(Card::spec_from_index((i - 1) as usize)) {
        members_below(set, i - 1).push(Card::spec_from_index((i - 1) as usize))
    } else {
        members_below(set, i - 1)
    }
}

proof fn lemma_members_below_len(set: IdentitySet, i: int)
    ensures
        members_below(set, i).len() <= if i < 0 {
            0
        } else {
            i
        },
    decreases i,
{
    if i > 0 {
        lemma_members_below_len(set, i - 1);
    }
}

/// Predecessors of `identity` numbered in `[low, n)` that are neither
/// secured nor visible.
pub open spec fn missing_between(hands: Seq<Vec<VisibleCard>>, secured: Set<Card>, identity: Card, low: int, n: int) -> nat
    decreases n - low,
{
    if n <= low {
        0
    } else {
        missing_between(hands, secured, identity, low, n - 1) + if !secured.contains(with_number(identity, n - 1))
            && !visible(hands, with_number(identity, n - 1)) {
            1nat
        } else {
            0nat
        }
    }
}

/// The quality of securing `identity`: its rank, how many predecessors
/// above the stack are neither secured nor visible, and whether its
/// successor is visible.
pub open spec fn secured_quality(hands: Seq<Vec<VisibleCard>>, heights: Seq<u8>, secured: Set<Card>, identity: Card) -> FutureCardQuality {
    FutureCardQuality {
        rank: identity.rank,
        missing_predecessors: clamp_to_byte(
            missing_between(
                hands,
                secured,
                identity,
                heights[identity.suit.spec_index() as int] + 1,
                identity.rank.spec_number() as int,
            ) as int,
        ) as u8,
        visible_successor: identity.rank != Rank::Five && visible(hands, with_number(identity, identity.rank.spec_number() + 1)),
    }
}

fn quality_of(hands: &Vec<Vec<VisibleCard>>, heights: [u8; 5], secured: IdentitySet, identity: Card) -> (q: FutureCardQuality)
    ensures
        q == secured_quality(hands@, heights@, secured@, identity),
{
    let low: u16 = heights[identity.suit.index()] as u16 + 1;
    let number: u16 = identity.rank.number() as u16;
    let mut missing: usize = 0;
    let mut n: u16 = low;
    while n < number
        invariant
            low == heights@[identity.suit.spec_index() as int] + 1,
            number == identity.rank.spec_number(),
            low <= n <= 256,
            n == low || n <= number,
            missing <= n - low,
            missing == missing_between(hands@, secured@, identity, low as int, n as int),
        decreases number - n,
    {
        let predecessor = Card { suit: identity.suit, rank: Rank::from_index((n - 1) as usize) };
        assert(predecessor == with_number(identity, n as int));
        if !secured.contains(predecessor) && !is_visible(hands, predecessor) {
            missing = missing + 1;
        }
        n = n + 1;
    }
    proof {
        if low < number {
            assert(n == number);
        } else {
            assert(missing == 0);
        }
    }
    let visible_successor = match identity.rank {
        Rank::Five => false,
        _ => is_visible(hands, Card { suit: identity.suit, rank: Rank::from_index(identity.rank.index() + 1) }),
    };
    proof {
        if identity.rank != Rank::Five {
            assert(Card { suit: identity.suit, rank: Rank::spec_from_index((identity.rank.spec_index() + 1) as usize) }
                == with_number(identity, identity.rank.spec_number() + 1));
        }
    }
    FutureCardQuality { rank: identity.rank, missing_predecessors: narrow(missing), visible_successor }
}

/// The qualities of the secured identities, in identity order.
pub open spec fn secured_qualities(hands: Seq<Vec<VisibleCard>>, heights: Seq<u8>, secured: IdentitySet) -> Seq<FutureCardQuality> {
    members_below(secured, 25).map_values(|c: Card| secured_quality(hands, heights, secured@, c))
}

/// Missing prerequisites are neither already played, secured, nor visible.
/// This measures remaining access, not the number of turns until a play.
pub fn secured_card_quality(hands: &Vec<Vec<VisibleCard>>, stack_heights: [u8; 5], secured: IdentitySet) -> (s: SecuredCardQuality)
    ensures
        s@ == padded(secured_qualities(hands@, stack_heights@, secured)).sort_by(descending()),
{
    let mut cards: Vec<FutureCardQuality> = Vec::new();
    let mut i: usize = 0;
    while i < 25
        invariant
            i <= 25,
            cards@ == members_below(secured, i as int).map_values(
                |c: Card| secured_quality(hands@, stack_heights@, secured@, c),
            ),
        decreases 25 - i,
    {
        let card = Card::from_index(i);
        if secured.contains(card) {
            cards.push(quality_of(hands, stack_heights, secured, card));
        }
        i = i + 1;
        proof {
            assert(cards@ =~= members_below(secured, i as int).map_values(
                |c: Card| secured_quality(hands@, stack_heights@, secured@, c),
            ));
        }
    }
    proof {
        lemma_members_below_len(secured, 25);
    }
    SecuredCardQuality::from_cards(cards)
}

} // verus!
