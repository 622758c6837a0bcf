//! Hand positions used by the H-Group conventions. Hands are stored oldest
//! first: the chop is the oldest card that is not gotten, and the Finesse
//! Position is the newest such card.

use vstd::prelude::*;

use crate::cards::{Card, CardId, CardSet, Rank};
use crate::evaluation::{count_copies, discard_count};

verus! {

/// The oldest card of `hand` outside `gotten`.
pub open spec fn oldest_outside(hand: Seq<CardId>, gotten: Set<CardId>) -> Option<CardId>
    decreases hand.len(),
{
    if hand.len() == 0 {
        None
    } else if !gotten.contains(hand[0]) {
        Some(hand[0])
    } else {
        oldest_outside(hand.drop_first(), gotten)
    }
}

/// The `n`-th newest card of `hand` outside `gotten`, counting from zero.
pub open spec fn nth_newest_outside(hand: Seq<CardId>, gotten: Set<CardId>, n: nat) -> Option<
    CardId,
>
    decreases hand.len(),
{
    if hand.len() == 0 {
        None
    } else if gotten.contains(hand.last()) {
        nth_newest_outside(hand.drop_last(), gotten, n)
    } else if n == 0 {
        Some(hand.last())
    } else {
        nth_newest_outside(hand.drop_last(), gotten, (n - 1) as nat)
    }
}

/// The newest card of `hand` outside `gotten`.
pub open spec fn newest_outside(hand: Seq<CardId>, gotten: Set<CardId>) -> Option<CardId> {
    nth_newest_outside(hand, gotten, 0)
}

/// The newest card of `hand` that belongs to `s`.
pub open spec fn newest_inside(hand: Seq<CardId>, s: Set<CardId>) -> Option<CardId>
    decreases hand.len(),
{
    if hand.len() == 0 {
        None
    } else if s.contains(hand.last()) {
        Some(hand.last())
    } else {
        newest_inside(hand.drop_last(), s)
    }
}

/// Cards that are not gotten.
pub open spec fn not_gotten(gotten: Set<CardId>) -> spec_fn(CardId) -> bool {
    |c: CardId| !gotten.contains(c)
}

/// The largest index `k` whose card is in `s` and does not occur earlier in
/// `hand`: the greatest first position of a member of `s`.
pub open spec fn last_first_position_in(hand: Seq<CardId>, s: Set<CardId>) -> Option<int>
    decreases hand.len(),
{
    if hand.len() == 0 {
        None
    } else {
        let k = hand.len() - 1;
        if s.contains(hand[k]) && !hand.take(k).contains(hand[k]) {
            Some(k)
        } else {
            last_first_position_in(hand.take(k), s)
        }
    }
}

/// The smallest index whose card is in `s`.
pub open spec fn first_position_in(hand: Seq<CardId>, s: Set<CardId>) -> Option<int>
    decreases hand.len(),
{
    if hand.len() == 0 {
        None
    } else if s.contains(hand[0]) {
        Some(0)
    } else {
        match first_position_in(hand.drop_first(), s) {
            Some(k) => Some(k + 1),
            None => None,
        }
    }
}

/// Whether `v` lists `card`.
pub fn list_contains(v: &[CardId], card: CardId) -> (b: bool)
    ensures
        b == v@.contains(card),
{
    let mut i: usize = 0;
    while i < v.len()
        invariant
            i <= v@.len(),
            forall|k: int| 0 <= k < i ==> v@[k] != card,
        decreases v@.len() - i,
    {
        if v[i] == card {
            assert(v@[i as int] == card);
            return true;
        }
        i = i + 1;
    }
    false
}

proof fn lemma_oldest_step(hand: Seq<CardId>, gotten: Set<CardId>, i: int)
    requires
        0 <= i < hand.len(),
        gotten.contains(hand[i]),
    ensures
        oldest_outside(hand.skip(i), gotten) == oldest_outside(hand.skip(i + 1), gotten),
{
    assert(hand.skip(i).drop_first() =~= hand.skip(i + 1));
    assert(hand.skip(i)[0] == hand[i]);
}

proof fn lemma_newest_step(hand: Seq<CardId>, gotten: Set<CardId>, i: int, n: nat)
    requires
        0 < i <= hand.len(),
    ensures
        nth_newest_outside(hand.take(i), gotten, n) == if gotten.contains(hand[i - 1]) {
            nth_newest_outside(hand.take(i - 1), gotten, n)
        } else if n == 0 {
            Some(hand[i - 1])
        } else {
            nth_newest_outside(hand.take(i - 1), gotten, (n - 1) as nat)
        },
{
    assert(hand.take(i).drop_last() =~= hand.take(i - 1));
    assert(hand.take(i).last() == hand[i - 1]);
}

proof fn lemma_newest_inside_step(hand: Seq<CardId>, s: Set<CardId>, i: int)
    requires
        0 < i <= hand.len(),
    ensures
        newest_inside(hand.take(i), s) == if s.contains(hand[i - 1]) {
            Some(hand[i - 1])
        } else {
            newest_inside(hand.take(i - 1), s)
        },
{
    assert(hand.take(i).drop_last() =~= hand.take(i - 1));
    assert(hand.take(i).last() == hand[i - 1]);
}

/// The chop: the oldest card that is not gotten.
pub fn chop(hand: &[CardId], gotten: &CardSet) -> (r: Option<CardId>)
    ensures
        r == oldest_outside(hand@, gotten@),
{
    let mut i: usize = 0;
    proof {
        assert(hand@.skip(0) =~= hand@);
    }
    while i < hand.len()
        invariant
            i <= hand@.len(),
            oldest_outside(hand@, gotten@) == oldest_outside(hand@.skip(i as int), gotten@),
        decreases hand@.len() - i,
    {
        if !gotten.contains(&hand[i]) {
            assert(hand@.skip(i as int)[0] == hand@[i as int]);
            return Some(hand[i]);
        }
        proof {
            lemma_oldest_step(hand@, gotten@, i as int);
        }
        i = i + 1;
    }
    proof {
        assert(hand@.skip(i as int).len() == 0);
    }
    None
}

/// The card at Finesse position `position`: the `position`-th newest card
/// that is not gotten.
pub fn finesse_position_id(hand: &[CardId], gotten: &CardSet, position: usize) -> (r: Option<
    CardId,
>)
    ensures
        r == nth_newest_outside(hand@, gotten@, position as nat),
{
    let mut i: usize = hand.len();
    let mut remaining: usize = position;
    proof {
        assert(hand@.take(hand@.len() as int) =~= hand@);
    }
    while i > 0
        invariant
            i <= hand@.len(),
            nth_newest_outside(hand@, gotten@, position as nat) == nth_newest_outside(
                hand@.take(i as int),
                gotten@,
                remaining as nat,
            ),
        decreases i,
    {
        proof {
            lemma_newest_step(hand@, gotten@, i as int, remaining as nat);
        }
        let card = hand[i - 1];
        if !gotten.contains(&card) {
            if remaining == 0 {
                return Some(card);
            }
            remaining = remaining - 1;
        }
        i = i - 1;
    }
    None
}

/// The newest card of `hand` listed in `cards`.
pub fn newest_listed(hand: &[CardId], cards: &[CardId]) -> (r: Option<CardId>)
    ensures
        r == newest_inside(hand@, cards@.to_set()),
{
    let ghost s = cards@.to_set();
    let mut i: usize = hand.len();
    proof {
        assert(hand@.take(hand@.len() as int) =~= hand@);
    }
    while i > 0
        invariant
            i <= hand@.len(),
            s == cards@.to_set(),
            newest_inside(hand@, s) == newest_inside(hand@.take(i as int), s),
        decreases i,
    {
        proof {
            lemma_newest_inside_step(hand@, s, i as int);
        }
        let card = hand[i - 1];
        if list_contains(cards, card) {
            return Some(card);
        }
        i = i - 1;
    }
    None
}

/// The newest card among the first `end` cards of `hand` that is not gotten.
fn newest_not_gotten_before(hand: &[CardId], end: usize, gotten: &CardSet) -> (r: Option<CardId>)
    requires
        end <= hand@.len(),
    ensures
        r == newest_outside(hand@.take(end as int), gotten@),
{
    let ghost prefix = hand@.take(end as int);
    let mut i: usize = end;
    proof {
        assert(prefix.take(end as int) =~= prefix);
    }
    while i > 0
        invariant
            i <= end,
            end <= hand@.len(),
            prefix == hand@.take(end as int),
            newest_outside(prefix, gotten@) == newest_outside(prefix.take(i as int), gotten@),
        decreases i,
    {
        proof {
            lemma_newest_step(prefix, gotten@, i as int, 0);
        }
        let card = hand[i - 1];
        if !gotten.contains(&card) {
            return Some(card);
        }
        i = i - 1;
    }
    None
}

/// The touched cards that were not gotten before the clue, in clue order.
pub fn newly_touched(touched: &[CardId], gotten: &CardSet) -> (v: Vec<CardId>)
    ensures
        v@ == touched@.filter(not_gotten(gotten@)),
{
    let ghost p = not_gotten(gotten@);
    let mut v: Vec<CardId> = Vec::new();
    let mut i: usize = 0;
    while i < touched.len()
        invariant
            i <= touched@.len(),
            p == not_gotten(gotten@),
            v@ == touched@.take(i as int).filter(p),
        decreases touched@.len() - i,
    {
        proof {
            assert(touched@.take(i + 1) =~= touched@.take(i as int).push(touched@[i as int]));
            touched@.take(i as int).lemma_filter_push(touched@[i as int], p);
        }
        if !gotten.contains(&touched[i]) {
            v.push(touched[i]);
        }
        i = i + 1;
    }
    proof {
        assert(touched@.take(touched@.len() as int) =~= touched@);
    }
    v
}

/// First index of `card` in `hand`.
fn position_of(hand: &[CardId], card: CardId) -> (r: Option<usize>)
    ensures
        match r {
            Some(k) => k < hand@.len() && hand@[k as int] == card && !hand@.take(k as int).contains(
                card,
            ),
            None => !hand@.contains(card),
        },
{
    let mut i: usize = 0;
    while i < hand.len()
        invariant
            i <= hand@.len(),
            forall|k: int| 0 <= k < i ==> hand@[k] != card,
        decreases hand@.len() - i,
    {
        if hand[i] == card {
            proof {
                assert forall|k: int| 0 <= k < i implies hand@.take(i as int)[k] != card by {}
            }
            return Some(i);
        }
        i = i + 1;
    }
    None
}

proof fn lemma_last_first_step(hand: Seq<CardId>, s: Set<CardId>, i: int)
    requires
        0 < i <= hand.len(),
    ensures
        last_first_position_in(hand.take(i), s) == if s.contains(hand[i - 1]) && !hand.take(
            i - 1,
        ).contains(hand[i - 1]) {
            Some(i - 1)
        } else {
            last_first_position_in(hand.take(i - 1), s)
        },
{
    assert(hand.take(i).take(i - 1) =~= hand.take(i - 1));
    assert(hand.take(i)[i - 1] == hand[i - 1]);
}

proof fn lemma_last_first_bound(hand: Seq<CardId>, s: Set<CardId>)
    ensures
        last_first_position_in(hand, s) matches Some(k) ==> 0 <= k < hand.len(),
    decreases hand.len(),
{
    if hand.len() > 0 {
        lemma_last_first_bound(hand.take(hand.len() - 1), s);
    }
}

/// The largest first position in `hand` of a card that `touched` lists and
/// that is not gotten.
fn highest_new_touch_position(hand: &[CardId], touched: &[CardId], gotten: &CardSet) -> (r:
    Option<usize>)
    ensures
        match r {
            Some(k) => k < hand@.len() && last_first_position_in(
                hand@,
                touched@.to_set().difference(gotten@),
            ) == Some(k as int),
            None => last_first_position_in(hand@, touched@.to_set().difference(gotten@))
                is None,
        },
{
    let ghost s = touched@.to_set().difference(gotten@);
    let mut i: usize = hand.len();
    proof {
        assert(hand@.take(hand@.len() as int) =~= hand@);
    }
    while i > 0
        invariant
            i <= hand@.len(),
            s == touched@.to_set().difference(gotten@),
            last_first_position_in(hand@, s) == last_first_position_in(hand@.take(i as int), s),
        decreases i,
    {
        proof {
            lemma_last_first_step(hand@, s, i as int);
        }
        let card = hand[i - 1];
        if list_contains(touched, card) && !gotten.contains(&card) {
            match position_of(hand, card) {
                Some(first) => {
                    if first == i - 1 {
                        return Some(i - 1);
                    }
                    proof {
                        assert(hand@.take(i - 1)[first as int] == card);
                    }
                },
                None => {},
            }
        } else {
        }
        proof {
            if s.contains(card) && !hand@.take(i - 1).contains(card) {
                assert(hand@[i - 1] == card);
            }
        }
        i = i - 1;
    }
    None
}

/// The card pulled by a [5 Pull](https://hanabi.github.io/level-19/#the-5-pull):
/// the newest card that is not gotten to the left (older side) of the newest
/// newly touched 5.
pub fn five_pulled_card(hand: &[CardId], touched: &[CardId], gotten: &CardSet) -> (r: Option<
    CardId,
>)
    ensures
        r == match last_first_position_in(hand@, touched@.to_set().difference(gotten@)) {
            Some(k) => newest_outside(hand@.take(k), gotten@),
            None => None,
        },
{
    match highest_new_touch_position(hand, touched, gotten) {
        Some(position) => newest_not_gotten_before(hand, position, gotten),
        None => None,
    }
}

/// The smallest position in `hand` of a card that `touched` lists.
fn lowest_touch_position(hand: &[CardId], touched: &[CardId]) -> (r: Option<usize>)
    ensures
        match r {
            Some(k) => first_position_in(hand@, touched@.to_set()) == Some(k as int) && k
                < hand@.len(),
            None => first_position_in(hand@, touched@.to_set()) is None,
        },
{
    let ghost s = touched@.to_set();
    let mut i: usize = 0;
    proof {
        assert(hand@.skip(0) =~= hand@);
    }
    while i < hand.len()
        invariant
            i <= hand@.len(),
            s == touched@.to_set(),
            first_position_in(hand@, s) == match first_position_in(hand@.skip(i as int), s) {
                Some(k) => Some(k + i),
                None => None,
            },
        decreases hand@.len() - i,
    {
        proof {
            assert(hand@.skip(i as int).drop_first() =~= hand@.skip(i + 1));
            assert(hand@.skip(i as int)[0] == hand@[i as int]);
        }
        if list_contains(touched, hand[i]) {
            return Some(i);
        }
        i = i + 1;
    }
    proof {
        assert(hand@.skip(i as int).len() == 0);
    }
    None
}

/// The single card moved by a
/// [5's Chop Move](https://hanabi.github.io/level-4/#the-5s-chop-move-5cm):
/// the newest card that is not gotten to the left (older side) of the oldest
/// touched card, provided it is the recipient's current chop.
pub fn five_chop_moved_card(hand: &[CardId], touched: &[CardId], gotten: &CardSet) -> (r: Option<
    CardId,
>)
    ensures
        r == match first_position_in(hand@, touched@.to_set()) {
            Some(boundary) => match newest_outside(hand@.take(boundary), gotten@) {
                Some(moved) => if oldest_outside(hand@, gotten@) == Some(moved) {
                    Some(moved)
                } else {
                    None
                },
                None => None,
            },
            None => None,
        },
{
    let boundary = match lowest_touch_position(hand, touched) {
        Some(b) => b,
        None => return None,
    };
    let moved = match newest_not_gotten_before(hand, boundary, gotten) {
        Some(m) => m,
        None => return None,
    };
    match chop(hand, gotten) {
        Some(c) => if c == moved {
            Some(moved)
        } else {
            None
        },
        None => None,
    }
}

/// The focus of a clue. With no new card touched, the newest touched card;
/// with one, that card; with several, the chop when it was touched and
/// otherwise the newest newly touched card.
/// <https://hanabi.github.io/beginner/focus/>
pub fn focus(hand: &[CardId], touched: &[CardId], chop: Option<CardId>, gotten: &CardSet) -> (r:
    Option<CardId>)
    ensures
        r == ({
            let fresh = touched@.filter(not_gotten(gotten@));
            if fresh.len() == 0 {
                newest_inside(hand@, touched@.to_set())
            } else if fresh.len() == 1 {
                Some(fresh[0])
            } else if chop is Some && touched@.contains(chop.unwrap()) {
                chop
            } else {
                newest_inside(hand@, fresh.to_set())
            }
        }),
{
    let fresh = newly_touched(touched, gotten);
    if fresh.len() == 0 {
        newest_listed(hand, touched)
    } else if fresh.len() == 1 {
        Some(fresh[0])
    } else {
        match chop {
            Some(c) => if list_contains(touched, c) {
                return chop;
            },
            None => {},
        }
        newest_listed(hand, fresh.as_slice())
    }
}

/// Removes the first copy of `card` from `hand`, if present.
pub fn remove_card(hand: &mut Vec<CardId>, card: CardId)
    ensures
        match position_in_seq(old(hand)@, card) {
            Some(k) => final(hand)@ == old(hand)@.remove(k),
            None => final(hand)@ == old(hand)@,
        },
{
    match position_of(hand.as_slice(), card) {
        Some(k) => {
            proof {
                lemma_position_in_seq(old(hand)@, card, k as int);
            }
            hand.remove(k);
        },
        None => {
            proof {
                lemma_position_in_seq_none(old(hand)@, card);
            }
        },
    }
}

/// First index of `card` in `s`.
pub open spec fn position_in_seq(s: Seq<CardId>, card: CardId) -> Option<int>
    decreases s.len(),
{
    if s.len() == 0 {
        None
    } else if s[0] == card {
        Some(0)
    } else {
        match position_in_seq(s.drop_first(), card) {
            Some(k) => Some(k + 1),
            None => None,
        }
    }
}

proof fn lemma_position_in_seq(s: Seq<CardId>, card: CardId, k: int)
    requires
        0 <= k < s.len(),
        s[k] == card,
        !s.take(k).contains(card),
    ensures
        position_in_seq(s, card) == Some(k),
    decreases s.len(),
{
    if k > 0 {
        assert(s.take(k)[0] == s[0]);
        assert(s.drop_first().take(k - 1) =~= s.take(k).drop_first());
        if s.drop_first().take(k - 1).contains(card) {
            let j = choose|j: int| 0 <= j < k - 1 && #[trigger] s.drop_first().take(k - 1)[j] == card;
            assert(s.take(k)[j + 1] == card);
        }
        lemma_position_in_seq(s.drop_first(), card, k - 1);
    }
}

proof fn lemma_position_in_seq_none(s: Seq<CardId>, card: CardId)
    requires
        !s.contains(card),
    ensures
        position_in_seq(s, card) is None,
    decreases s.len(),
{
    if s.len() > 0 {
        assert(s[0] != card);
        if s.drop_first().contains(card) {
            let j = choose|j: int| 0 <= j < s.len() - 1 && #[trigger] s.drop_first()[j] == card;
            assert(s[j + 1] == card);
        }
        lemma_position_in_seq_none(s.drop_first(), card);
    }
}

/// A card is critical when it is not a 5 and every other copy of its
/// identity has been discarded.
pub open spec fn critical_identity(discard_pile: Seq<Card>, identity: Card) -> bool {
    identity.rank != Rank::Five && discard_count(discard_pile, identity) + 1 == identity.rank.spec_copies()
}

/// Whether `identity` is critical given the discard pile.
pub fn is_critical(discard_pile: &Vec<Card>, identity: Card) -> (b: bool)
    ensures
        b == critical_identity(discard_pile@, identity),
{
    identity.rank != Rank::Five && count_copies(discard_pile, identity) as u128 + 1 == identity.rank.copies() as u128
}

} // verus!
