//! Draw allocation is strategic value, not a new card-identity promise.
//!
//! [Team Distribution Principle](https://hanabi.github.io/level-8/#team-distribution-principle)
//! motivates letting an unloaded player draw an unseen connector while the
//! player holding its successor gives an interchangeable clue instead.

use vstd::prelude::*;

use crate::cards::{Action, Card, CardId, IdentitySet, PlayerId, Rank, Suit, MAX_CLUE_TOKENS};
use crate::h_group::admission::VisibleCard;
use crate::h_group::candidate::{CluePurpose, CompiledClueAction};
use crate::h_group::completion::{next_player, spec_next_player};
use crate::h_group::hand::{critical_identity, is_critical, list_contains};

verus! {

/// What the next player would do after the discard, if the discarded card
/// turned out to be one identity.
#[derive(Clone, Copy, Debug, PartialEq, Eq)]
pub struct NextPlayerOutcome {
    pub has_connection: bool,
    pub has_playable: bool,
    pub has_required_discard: bool,
    /// The next player could still give the same clue, as an immediate
    /// play.
    pub same_clue_immediate: bool,
}

/// The position and the convention's judgements that the discard priority
/// reads.
pub struct DrawDistributionEvidence {
    /// End Game rules are in force for the profile.
    pub end_game_rules: bool,
    pub observer: PlayerId,
    pub hands: Vec<Vec<VisibleCard>>,
    pub stack_heights: [u8; 5],
    pub discard_pile: Vec<Card>,
    pub deck_size: u8,
    pub clue_tokens: u8,
    pub has_playable: bool,
    pub has_connection: bool,
    pub must_clue: bool,
    /// The convention's clue candidates.
    pub candidates: Vec<CompiledClueAction>,
    /// The identities still eventually useful.
    pub useful: IdentitySet,
    /// Identities that one of the observer's card notes pins down exactly.
    pub known_own: IdentitySet,
    /// Cards that carry a positive suit clue.
    pub suit_clued: Vec<CardId>,
    /// What each card may be, by the observer's deductions.
    pub possibilities: Vec<(CardId, IdentitySet)>,
    /// What the next player would do for each identity the discard might
    /// have; an identity without an entry cannot be projected.
    pub next_outcomes: Vec<(Card, NextPlayerOutcome)>,
}

/// The first possibilities recorded for `card`.
pub open spec fn possibilities_of(s: Seq<(CardId, IdentitySet)>, card: CardId) -> Option<IdentitySet>
    decreases s.len(),
{
    if s.len() == 0 {
        None
    } else {
        let earlier = possibilities_of(s.drop_last(), card);
        if earlier is Some {
            earlier
        } else if s.last().0 == card {
            Some(s.last().1)
        } else {
            None
        }
    }
}

/// The first outcome recorded for `identity`.
pub open spec fn outcome_of(s: Seq<(Card, NextPlayerOutcome)>, identity: Card) -> Option<NextPlayerOutcome>
    decreases s.len(),
{
    if s.len() == 0 {
        None
    } else {
        let earlier = outcome_of(s.drop_last(), identity);
        if earlier is Some {
            earlier
        } else if s.last().0 == identity {
            Some(s.last().1)
        } else {
            None
        }
    }
}

/// A save important enough to preempt a promised play.
pub open spec fn urgent_save(c: CompiledClueAction) -> bool {
    c.semantics.schedule.urgent_save && c.value.spec_semantic_strength() >= 400
}

/// The sum of the stack heights.
pub open spec fn played_total(h: Seq<u8>) -> int {
    h[0] + h[1] + h[2] + h[3] + h[4]
}

/// The best candidate among the first `n` by score, the later among equals.
pub open spec fn best_candidate(c: Seq<CompiledClueAction>, n: int) -> Option<CompiledClueAction>
    decreases n,
{
    if n <= 0 {
        None
    } else {
        let earlier = best_candidate(c, n - 1);
        match earlier {
            Some(b) => if c[n - 1].value.spec_total() >= b.value.spec_total() {
                Some(c[n - 1])
            } else {
                earlier
            },
            None => Some(c[n - 1]),
        }
    }
}

/// Whether some hand visibly holds `identity`.
pub open spec fn visible_anywhere(hands: Seq<Vec<VisibleCard>>, identity: Card) -> bool {
    exists|p: int, k: int|
        0 <= p < hands.len() && 0 <= k < hands[p]@.len() && (#[trigger] hands[p]@[k]).identity == Some(identity)
}

/// The next card of each suit that is neither visible, pinned down in the
/// observer's hand, nor useless: the suits among the first `n`.
pub open spec fn missing_connectors(e: DrawDistributionEvidence, n: int) -> Seq<Card>
    decreases n,
{
    if n <= 0 {
        Seq::empty()
    } else {
        let rest = missing_connectors(e, n - 1);
        let suit = Suit::spec_from_index((n - 1) as usize);
        let height = e.stack_heights@[n - 1];
        if height < 5 {
            let identity = Card { suit, rank: Rank::spec_from_index(height as usize) };
            if !visible_anywhere(e.hands@, identity) && !e.known_own@.contains(identity) && e.useful@.contains(
                identity,
            ) {
                rest.push(identity)
            } else {
                rest
            }
        } else {
            rest
        }
    }
}

/// Whether the next player holds `successor`, clued by its suit or rank.
pub open spec fn next_holds_clued(e: DrawDistributionEvidence, next: PlayerId, successor: Card) -> bool {
    exists|k: int|
        0 <= k < e.hands@[next.spec_index() as int]@.len() && {
            let card = #[trigger] e.hands@[next.spec_index() as int]@[k];
            card.identity == Some(successor) && (e.suit_clued@.contains(card.id) || card.rank_clued)
        }
}

/// Whether one of the observer's cards might be `identity`.
pub open spec fn own_might_be(e: DrawDistributionEvidence, identity: Card) -> bool {
    exists|k: int|
        0 <= k < e.hands@[e.observer.spec_index() as int]@.len() && (possibilities_of(
            e.possibilities@,
            (#[trigger] e.hands@[e.observer.spec_index() as int]@[k]).id,
        ) matches Some(set) && set@.contains(identity))
}

/// Whether the discard might be a card that must not be thrown away.
pub open spec fn risky(e: DrawDistributionEvidence, identity: Card) -> bool {
    e.useful@.contains(identity) && (identity.rank == Rank::Five || critical_identity(e.discard_pile@, identity))
}

/// Whether the next player stays free to give the same clue after the
/// discard turned out to be `identity`.
pub open spec fn next_stays_free(e: DrawDistributionEvidence, identity: Card) -> bool {
    outcome_of(e.next_outcomes@, identity) matches Some(o) && !o.has_connection && !o.has_playable
        && !o.has_required_discard && o.same_clue_immediate
}

/// The priority of discarding `discard` to let the next player draw the
/// missing connector while giving the clue instead, if the discard is such a
/// handoff.
pub open spec fn spec_discard_priority(e: DrawDistributionEvidence, discard: CardId) -> Option<int> {
    let players = e.hands@.len() as int;
    let remaining = if played_total(e.stack_heights@) >= 25 {
        0
    } else {
        25 - played_total(e.stack_heights@)
    };
    let candidates = e.candidates@;
    let missing = missing_connectors(e, 5);
    let next = spec_next_player(e.observer, players);
    if !e.end_game_rules || e.deck_size < players || e.deck_size + players <= remaining + 1 || e.clue_tokens
        == 0 || e.clue_tokens >= MAX_CLUE_TOKENS || e.has_playable || e.has_connection || e.must_clue || (
    exists|k: int|
        0 <= k < candidates.len() && (urgent_save(#[trigger] candidates[k])
            || candidates[k].semantics.purpose == CluePurpose::Fix)) {
        None
    } else {
        match best_candidate(candidates, candidates.len() as int) {
            None => None,
            Some(best) => if best.semantics.purpose != CluePurpose::Play || !best.semantics.schedule.immediate_play
                || best.semantics.line.connection_steps != 0 || best.value.spec_total() >= 425 || missing.len()
                != 1 || missing[0].rank == Rank::Five {
                None
            } else {
                let connector = missing[0];
                let successor = Card {
                    suit: connector.suit,
                    rank: Rank::spec_from_index(connector.rank.spec_number() as usize),
                };
                if best.action->target == next || !next_holds_clued(e, next, successor) || own_might_be(
                    e,
                    successor,
                ) {
                    None
                } else {
                    match possibilities_of(e.possibilities@, discard) {
                        None => None,
                        Some(set) => if set@ == Set::<Card>::empty() || set@.contains(connector) || (exists|i: int|
                            0 <= i < 25 && set@.contains(#[trigger] Card::spec_from_index(i as usize)) && risky(
                                e,
                                Card::spec_from_index(i as usize),
                            )) || (exists|i: int|
                            0 <= i < 25 && set@.contains(#[trigger] Card::spec_from_index(i as usize))
                                && !next_stays_free(e, Card::spec_from_index(i as usize))) {
                            None
                        } else {
                            Some(101 + best.value.spec_total())
                        },
                    }
                }
            },
        }
    }
}

// ---------------------------------------------------------------------------
// Executable pieces.

fn find_possibilities(s: &Vec<(CardId, IdentitySet)>, card: CardId) -> (r: Option<IdentitySet>)
    ensures
        r == possibilities_of(s@, card),
{
    let mut i: usize = 0;
    while i < s.len()
        invariant
            i <= s@.len(),
            possibilities_of(s@.take(i as int), card) is None,
        decreases s@.len() - i,
    {
        proof {
            assert(s@.take(i + 1).drop_last() =~= s@.take(i as int));
        }
        if s[i].0 == card {
            proof {
                lemma_possibilities_prefix(s@, card, i + 1);
            }
            return Some(s[i].1);
        }
        i = i + 1;
    }
    proof {
        assert(s@.take(i as int) =~= s@);
    }
    None
}

proof fn lemma_possibilities_prefix(s: Seq<(CardId, IdentitySet)>, card: CardId, n: int)
    requires
        0 < n <= s.len(),
        possibilities_of(s.take(n), card) is Some,
    ensures
        possibilities_of(s, card) == possibilities_of(s.take(n), card),
    decreases s.len() - n,
{
    if n < s.len() {
        assert(s.take(n + 1).drop_last() =~= s.take(n));
        lemma_possibilities_prefix(s, card, n + 1);
    } else {
        assert(s.take(n) =~= s);
    }
}

fn find_outcome(s: &Vec<(Card, NextPlayerOutcome)>, identity: Card) -> (r: Option<NextPlayerOutcome>)
    ensures
        r == outcome_of(s@, identity),
{
    let mut i: usize = 0;
    while i < s.len()
        invariant
            i <= s@.len(),
            outcome_of(s@.take(i as int), identity) is None,
        decreases s@.len() - i,
    {
        proof {
            assert(s@.take(i + 1).drop_last() =~= s@.take(i as int));
        }
        if s[i].0 == identity {
            proof {
                lemma_outcome_prefix(s@, identity, i + 1);
            }
            return Some(s[i].1);
        }
        i = i + 1;
    }
    proof {
        assert(s@.take(i as int) =~= s@);
    }
    None
}

proof fn lemma_outcome_prefix(s: Seq<(Card, NextPlayerOutcome)>, identity: Card, n: int)
    requires
        0 < n <= s.len(),
        outcome_of(s.take(n), identity) is Some,
    ensures
        outcome_of(s, identity) == outcome_of(s.take(n), identity),
    decreases s.len() - n,
{
    if n < s.len() {
        assert(s.take(n + 1).drop_last() =~= s.take(n));
        lemma_outcome_prefix(s, identity, n + 1);
    } else {
        assert(s.take(n) =~= s);
    }
}

fn is_visible_anywhere(hands: &Vec<Vec<VisibleCard>>, identity: Card) -> (b: bool)
    ensures
        b == visible_anywhere(hands@, identity),
{
    let mut p: usize = 0;
    while p < hands.len()
        invariant
            p <= hands@.len(),
            forall|q: int, k: int|
                0 <= q < p && 0 <= k < hands@[q]@.len() ==> (#[trigger] hands@[q]@[k]).identity != Some(identity),
        decreases hands@.len() - p,
    {
        let hand = &hands[p];
        let mut k: usize = 0;
        while k < hand.len()
            invariant
                p < hands@.len(),
                hand@ == hands@[p as int]@,
                k <= hand@.len(),
                forall|q: int, j: int|
                    0 <= q < p && 0 <= j < hands@[q]@.len() ==> (#[trigger] hands@[q]@[j]).identity != Some(identity),
                forall|j: int| 0 <= j < k ==> (#[trigger] hand@[j]).identity != Some(identity),
            decreases hand@.len() - k,
        {
            if hand[k].identity == Some(identity) {
                assert(hands@[p as int]@[k as int].identity == Some(identity));
                return true;
            }
            k = k + 1;
        }
        p = p + 1;
    }
    false
}

fn connectors(e: &DrawDistributionEvidence) -> (r: Vec<Card>)
    ensures
        r@ == missing_connectors(*e, 5),
{
    let mut r: Vec<Card> = Vec::new();
    let mut s: usize = 0;
    while s < 5
        invariant
            s <= 5,
            r@ == missing_connectors(*e, s as int),
        decreases 5 - s,
    {
        let height = e.stack_heights[s];
        if height < 5 {
            let identity = Card::new(Suit::from_index(s), Rank::from_index(height as usize));
            if !is_visible_anywhere(&e.hands, identity) && !e.known_own.contains(identity) && e.useful.contains(
                identity,
            ) {
                r.push(identity);
            }
        }
        s = s + 1;
    }
    r
}

fn best_of(c: &Vec<CompiledClueAction>) -> (r: Option<CompiledClueAction>)
    ensures
        r == best_candidate(c@, c@.len() as int),
{
    let mut best: Option<CompiledClueAction> = None;
    let mut i: usize = 0;
    while i < c.len()
        invariant
            i <= c@.len(),
            best == best_candidate(c@, i as int),
        decreases c@.len() - i,
    {
        best = match best {
            Some(b) => if c[i].score() >= b.score() {
                Some(c[i])
            } else {
                Some(b)
            },
            None => Some(c[i]),
        };
        i = i + 1;
    }
    best
}

fn any_blocking_candidate(c: &Vec<CompiledClueAction>) -> (b: bool)
    ensures
        b == exists|k: int|
            0 <= k < c@.len() && (urgent_save(#[trigger] c@[k]) || c@[k].semantics.purpose
                == CluePurpose::Fix),
{
    let mut i: usize = 0;
    while i < c.len()
        invariant
            i <= c@.len(),
            forall|k: int|
                0 <= k < i ==> !(urgent_save(#[trigger] c@[k]) || c@[k].semantics.purpose
                    == CluePurpose::Fix),
        decreases c@.len() - i,
    {
        if c[i].is_urgent_save() || c[i].purpose() == CluePurpose::Fix {
            assert(urgent_save(c@[i as int]) || c@[i as int].semantics.purpose == CluePurpose::Fix);
            return true;
        }
        i = i + 1;
    }
    false
}

fn holds_clued(e: &DrawDistributionEvidence, next: PlayerId, successor: Card) -> (b: bool)
    requires
        next.spec_index() < e.hands@.len(),
    ensures
        b == next_holds_clued(*e, next, successor),
{
    let hand = &e.hands[next.index()];
    let mut k: usize = 0;
    while k < hand.len()
        invariant
            next.spec_index() < e.hands@.len(),
            hand@ == e.hands@[next.spec_index() as int]@,
            k <= hand@.len(),
            forall|j: int|
                0 <= j < k ==> !((#[trigger] hand@[j]).identity == Some(successor) && (e.suit_clued@.contains(
                    hand@[j].id,
                ) || hand@[j].rank_clued)),
        decreases hand@.len() - k,
    {
        let card = hand[k];
        if card.identity == Some(successor) && (list_contains(e.suit_clued.as_slice(), card.id) || card.rank_clued) {
            assert(hand@[k as int] == card);
            return true;
        }
        k = k + 1;
    }
    false
}

fn might_be_own(e: &DrawDistributionEvidence, identity: Card) -> (b: bool)
    requires
        e.observer.spec_index() < e.hands@.len(),
    ensures
        b == own_might_be(*e, identity),
{
    let hand = &e.hands[e.observer.index()];
    let mut k: usize = 0;
    while k < hand.len()
        invariant
            e.observer.spec_index() < e.hands@.len(),
            hand@ == e.hands@[e.observer.spec_index() as int]@,
            k <= hand@.len(),
            forall|j: int|
                0 <= j < k ==> !(possibilities_of(e.possibilities@, (#[trigger] hand@[j]).id) matches Some(set)
                    && set@.contains(identity)),
        decreases hand@.len() - k,
    {
        match find_possibilities(&e.possibilities, hand[k].id) {
            Some(set) => {
                if set.contains(identity) {
                    assert(possibilities_of(e.possibilities@, hand@[k as int].id) == Some(set));
                    return true;
                }
            },
            None => {},
        }
        k = k + 1;
    }
    false
}

fn any_unsafe_identity(e: &DrawDistributionEvidence, set: IdentitySet) -> (b: bool)
    ensures
        b == ((exists|i: int|
            0 <= i < 25 && set@.contains(#[trigger] Card::spec_from_index(i as usize)) && risky(
                *e,
                Card::spec_from_index(i as usize),
            )) || (exists|i: int|
            0 <= i < 25 && set@.contains(#[trigger] Card::spec_from_index(i as usize)) && !next_stays_free(
                *e,
                Card::spec_from_index(i as usize),
            ))),
{
    let mut i: usize = 0;
    while i < 25
        invariant
            i <= 25,
            forall|k: int|
                0 <= k < i ==> !(set@.contains(#[trigger] Card::spec_from_index(k as usize)) && risky(
                    *e,
                    Card::spec_from_index(k as usize),
                )),
        decreases 25 - i,
    {
        let identity = Card::from_index(i);
        if set.contains(identity) && e.useful.contains(identity) && (identity.rank == Rank::Five || is_critical(
            &e.discard_pile,
            identity,
        )) {
            assert(risky(*e, Card::spec_from_index(i as usize)));
            return true;
        }
        i = i + 1;
    }
    let mut j: usize = 0;
    while j < 25
        invariant
            j <= 25,
            forall|k: int|
                0 <= k < 25 ==> !(set@.contains(#[trigger] Card::spec_from_index(k as usize)) && risky(
                    *e,
                    Card::spec_from_index(k as usize),
                )),
            forall|k: int|
                0 <= k < j ==> !(set@.contains(#[trigger] Card::spec_from_index(k as usize)) && !next_stays_free(
                    *e,
                    Card::spec_from_index(k as usize),
                )),
        decreases 25 - j,
    {
        let identity = Card::from_index(j);
        if set.contains(identity) {
            let free = match find_outcome(&e.next_outcomes, identity) {
                Some(o) => !o.has_connection && !o.has_playable && !o.has_required_discard && o.same_clue_immediate,
                None => false,
            };
            if !free {
                assert(!next_stays_free(*e, Card::spec_from_index(j as usize)));
                return true;
            }
        }
        j = j + 1;
    }
    false
}

/// The priority of discarding `discard` so that the next player, who holds
/// the successor of the one missing connector, gives the clue instead and
/// the team draws toward the connector; `None` when the discard is no such
/// handoff. It stays below a guaranteed play.
pub fn discard_priority(e: &DrawDistributionEvidence, discard: CardId) -> (r: Option<i32>)
    requires
        0 < e.hands@.len() <= 256,
        e.observer.spec_index() < e.hands@.len(),
        forall|k: int| 0 <= k < e.candidates@.len() ==> (#[trigger] e.candidates@[k]).action is Clue,
    ensures
        r matches Some(p) ==> spec_discard_priority(*e, discard) == Some(p as int),
        r is None ==> spec_discard_priority(*e, discard) is None,
{
    let players = e.hands.len();
    let played: u16 = e.stack_heights[0] as u16 + e.stack_heights[1] as u16 + e.stack_heights[2] as u16
        + e.stack_heights[3] as u16 + e.stack_heights[4] as u16;
    let remaining: u16 = if played >= 25 {
        0
    } else {
        25 - played
    };
    if !e.end_game_rules || (e.deck_size as usize) < players || (e.deck_size as usize) + players
        <= remaining as usize + 1 || e.clue_tokens == 0 || e.clue_tokens >= MAX_CLUE_TOKENS || e.has_playable
        || e.has_connection || e.must_clue || any_blocking_candidate(&e.candidates) {
        return None;
    }
    let best = match best_of(&e.candidates) {
        Some(b) => b,
        None => {
            return None;
        },
    };
    proof {
        lemma_best_is_candidate(e.candidates@, e.candidates@.len() as int);
    }
    let missing = connectors(e);
    if best.purpose() != CluePurpose::Play || !best.immediate_play() || best.connection_steps() != 0
        || best.score() >= 425 || missing.len() != 1 || missing[0].rank == Rank::Five {
        return None;
    }
    let connector = missing[0];
    let successor = Card::new(connector.suit, Rank::from_index(connector.rank.number() as usize));
    let next = next_player(e.observer, players);
    if best.target() == next || !holds_clued(e, next, successor) || might_be_own(e, successor) {
        return None;
    }
    let set = match find_possibilities(&e.possibilities, discard) {
        Some(set) => set,
        None => {
            return None;
        },
    };
    if set.is_empty() || set.contains(connector) || any_unsafe_identity(e, set) {
        return None;
    }
    Some(101 + best.score() as i32)
}

proof fn lemma_best_is_candidate(c: Seq<CompiledClueAction>, n: int)
    requires
        0 <= n <= c.len(),
    ensures
        best_candidate(c, n) matches Some(b) ==> exists|k: int| 0 <= k < n && c[k] == b,
    decreases n,
{
    if n > 0 {
        lemma_best_is_candidate(c, n - 1);
        let earlier = best_candidate(c, n - 1);
        if earlier is Some {
            let b = earlier->0;
            if !(c[n - 1].value.spec_total() >= b.value.spec_total()) {
                let k = choose|k: int| 0 <= k < n - 1 && c[k] == b;
                assert(c[k] == b);
            }
        }
    }
}

} // verus!
