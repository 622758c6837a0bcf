//! Search objectives and the score ceiling of a position.

use vstd::prelude::*;
use vstd::string::*;

use crate::cards::{Card, CardId, Rank, Suit};
use crate::convention::is_keyword;
use crate::text::{debug_quoted, debug_text};

verus! {

/// The primary result that search should optimize.
#[derive(Clone, Copy, Debug, PartialEq, Eq, Structural, Hash)]
pub enum SearchObjective {
    /// Maximize expected official score, with strategic terms as tie-breakers.
    ExpectedScore,
    /// Maximize the chance of scoring 25 before preferring lesser outcomes.
    PerfectScore,
}

impl Default for SearchObjective {
    fn default() -> (o: Self)
        ensures
            o == SearchObjective::ExpectedScore,
    {
        SearchObjective::ExpectedScore
    }
}

/// The bytes of `expected-score`.
pub open spec fn expected_score_keyword() -> Seq<u8> {
    seq![101u8, 120u8, 112u8, 101u8, 99u8, 116u8, 101u8, 100u8, 45u8, 115u8, 99u8, 111u8, 114u8, 101u8]
}

/// The bytes of `perfect-score`.
pub open spec fn perfect_score_keyword() -> Seq<u8> {
    seq![112u8, 101u8, 114u8, 102u8, 101u8, 99u8, 116u8, 45u8, 115u8, 99u8, 111u8, 114u8, 101u8]
}

impl SearchObjective {
    pub open spec fn spec_name(self) -> Seq<char> {
        match self {
            SearchObjective::ExpectedScore => seq!['e', 'x', 'p', 'e', 'c', 't', 'e', 'd', '-', 's', 'c', 'o', 'r', 'e'],
            SearchObjective::PerfectScore => seq!['p', 'e', 'r', 'f', 'e', 'c', 't', '-', 's', 'c', 'o', 'r', 'e'],
        }
    }

    /// The identifier of the objective: `expected-score` or `perfect-score`.
    pub fn name(self) -> (s: &'static str)
        ensures
            s@ == self.spec_name(),
    {
        proof {
            reveal_strlit("expected-score");
            reveal_strlit("perfect-score");
        }
        match self {
            SearchObjective::ExpectedScore => "expected-score",
            SearchObjective::PerfectScore => "perfect-score",
        }
    }

    /// The identifier as an owned string.
    pub fn to_string(&self) -> (s: String)
        ensures
            s@ == self.spec_name(),
    {
        self.name().to_owned()
    }
}

/// Error for an unknown objective identifier; it holds the rejected text.
#[derive(Clone, Debug, PartialEq, Eq)]
pub struct ParseSearchObjectiveError(pub String);

impl ParseSearchObjectiveError {
    /// The error message, quoting the rejected text as `{:?}` does.
    pub fn to_string(&self) -> (s: String)
        ensures
            s@ == seq!['u', 'n', 'k', 'n', 'o', 'w', 'n', ' ', 's', 'e', 'a', 'r', 'c', 'h', ' ', 'o', 'b', 'j', 'e', 'c', 't', 'i', 'v', 'e', ' ']
                + debug_text(self.0@) + seq![';', ' ', 'e', 'x', 'p', 'e', 'c', 't', 'e', 'd', ' ', 'e', 'x', 'p', 'e', 'c', 't', 'e', 'd', '-', 's', 'c', 'o', 'r', 'e', ' ', 'o', 'r', ' ', 'p', 'e', 'r', 'f', 'e', 'c', 't', '-', 's', 'c', 'o', 'r', 'e'],
    {
        proof {
            reveal_strlit("unknown search objective ");
            reveal_strlit("; expected expected-score or perfect-score");
        }
        let mut s = "unknown search objective ".to_owned();
        let quoted = debug_quoted(self.0.as_str());
        s.append(quoted.as_str());
        s.append("; expected expected-score or perfect-score");
        s
    }
}

/// What parsing `value` as an objective identifier gives: `expected-score`
/// and `perfect-score` name their objectives; any other text is rejected
/// with itself.
pub open spec fn objective_parsed(
    value: &str,
    r: Result<SearchObjective, ParseSearchObjectiveError>,
) -> bool {
    if value.spec_bytes() == expected_score_keyword() {
        r == Ok::<SearchObjective, ParseSearchObjectiveError>(SearchObjective::ExpectedScore)
    } else if value.spec_bytes() == perfect_score_keyword() {
        r == Ok::<SearchObjective, ParseSearchObjectiveError>(SearchObjective::PerfectScore)
    } else {
        r matches Err(e) && e.0@ == value@
    }
}

/// Parses an objective identifier. Any text other than `expected-score` or
/// `perfect-score` is rejected with itself.
pub fn parse_objective(value: &str) -> (r: Result<SearchObjective, ParseSearchObjectiveError>)
    ensures
        objective_parsed(value, r),
{
    let bytes = value.as_bytes();
    let expected: [u8; 14] = [101u8, 120u8, 112u8, 101u8, 99u8, 116u8, 101u8, 100u8, 45u8, 115u8, 99u8, 111u8, 114u8, 101u8];
    let perfect: [u8; 13] = [112u8, 101u8, 114u8, 102u8, 101u8, 99u8, 116u8, 45u8, 115u8, 99u8, 111u8, 114u8, 101u8];
    proof {
        assert(expected@ =~= expected_score_keyword());
        assert(perfect@ =~= perfect_score_keyword());
    }
    if is_keyword(bytes, &expected) {
        Ok(SearchObjective::ExpectedScore)
    } else if is_keyword(bytes, &perfect) {
        Ok(SearchObjective::PerfectScore)
    } else {
        Err(ParseSearchObjectiveError(value.to_owned()))
    }
}

impl core::str::FromStr for SearchObjective {
    type Err = ParseSearchObjectiveError;

    fn from_str(value: &str) -> (r: Result<Self, Self::Err>)
        ensures
            objective_parsed(value, r),
    {
        parse_objective(value)
    }
}

/// The identifier of an objective parses back to the same objective: any
/// string spelling `o.spec_name()` is accepted as `o`.
pub proof fn lemma_objective_name_parses(o: SearchObjective, value: &str)
    requires
        value@ == o.spec_name(),
    ensures
        value.spec_bytes() == (match o {
            SearchObjective::ExpectedScore => expected_score_keyword(),
            SearchObjective::PerfectScore => perfect_score_keyword(),
        }),
        value.spec_bytes() != (match o {
            SearchObjective::ExpectedScore => perfect_score_keyword(),
            SearchObjective::PerfectScore => expected_score_keyword(),
        }),
{
    let chars = o.spec_name();
    assert(vstd::utf8::is_ascii_chars(chars));
    vstd::utf8::is_ascii_chars_encode_utf8(chars);
    match o {
        SearchObjective::ExpectedScore => {
            assert(value.spec_bytes() =~= expected_score_keyword());
            assert(value.spec_bytes().len() != perfect_score_keyword().len());
        },
        SearchObjective::PerfectScore => {
            assert(value.spec_bytes() =~= perfect_score_keyword());
            assert(value.spec_bytes().len() != expected_score_keyword().len());
        },
    }
}

/// How many copies of `card` lie in `pile`.
pub open spec fn discard_count(pile: Seq<Card>, card: Card) -> nat
    decreases pile.len(),
{
    if pile.len() == 0 {
        0
    } else {
        discard_count(pile.drop_last(), card) + if pile.last() == card {
            1nat
        } else {
            0nat
        }
    }
}

/// Every copy of the rank at position `r` of `suit` is discarded while the
/// stack has not reached it, so nothing from `r` on can be played.
pub open spec fn blocks(heights: Seq<u8>, pile: Seq<Card>, suit: Suit, r: int) -> bool {
    &&& r >= heights[suit.spec_index() as int]
    &&& discard_count(pile, Card { suit, rank: Rank::spec_from_index(r as usize) })
        >= Rank::spec_from_index(r as usize).spec_copies()
}

/// The first blocked rank position of `suit` at or after `r`, or 5.
pub open spec fn first_blocked(heights: Seq<u8>, pile: Seq<Card>, suit: Suit, r: int) -> int
    decreases 5 - r,
{
    if r >= 5 {
        5
    } else if blocks(heights, pile, suit, r) {
        r
    } else {
        first_blocked(heights, pile, suit, r + 1)
    }
}

/// The highest stack `suit` can still reach.
pub open spec fn suit_ceiling(heights: Seq<u8>, pile: Seq<Card>, suit: Suit) -> int {
    first_blocked(heights, pile, suit, 0)
}

/// Highest score still reachable after all discards: the sum of the suit
/// ceilings.
pub open spec fn ceiling(heights: Seq<u8>, pile: Seq<Card>) -> int {
    suit_ceiling(heights, pile, Suit::Red) + suit_ceiling(heights, pile, Suit::Yellow)
        + suit_ceiling(heights, pile, Suit::Green) + suit_ceiling(heights, pile, Suit::Blue)
        + suit_ceiling(heights, pile, Suit::Purple)
}

/// The height of the stack of `suit`, capped at 5.
pub open spec fn stack_cap(heights: Seq<u8>, suit: Suit) -> int {
    if heights[suit.spec_index() as int] <= 5 {
        heights[suit.spec_index() as int] as int
    } else {
        5
    }
}

proof fn lemma_first_blocked_bounds(heights: Seq<u8>, pile: Seq<Card>, suit: Suit, r: int)
    requires
        0 <= r <= 5,
        heights.len() == 5,
    ensures
        r <= first_blocked(heights, pile, suit, r) <= 5,
        first_blocked(heights, pile, suit, r) >= stack_cap(heights, suit) || r > stack_cap(heights, suit),
    decreases 5 - r,
{
    if r < 5 && !blocks(heights, pile, suit, r) {
        lemma_first_blocked_bounds(heights, pile, suit, r + 1);
    }
}

/// How many copies of `card` lie in `pile`.
pub fn count_copies(pile: &Vec<Card>, card: Card) -> (n: usize)
    ensures
        n == discard_count(pile@, card),
{
    let mut n: usize = 0;
    let mut k: usize = 0;
    while k < pile.len()
        invariant
            k <= pile@.len(),
            n <= k,
            n == discard_count(pile@.take(k as int), card),
        decreases pile@.len() - k,
    {
        proof {
            assert(pile@.take(k + 1).drop_last() =~= pile@.take(k as int));
        }
        if pile[k] == card {
            n = n + 1;
        }
        k = k + 1;
    }
    proof {
        assert(pile@.take(k as int) =~= pile@);
    }
    n
}

/// The highest stack `suit` can still reach.
fn suit_ceiling_of(heights: &[u8; 5], pile: &Vec<Card>, suit: Suit) -> (c: u8)
    ensures
        c == suit_ceiling(heights@, pile@, suit),
        c <= 5,
{
    let played = heights[suit.index()];
    let mut r: usize = 0;
    while r < 5
        invariant
            r <= 5,
            heights@.len() == 5,
            played == heights@[suit.spec_index() as int],
            first_blocked(heights@, pile@, suit, 0) == first_blocked(heights@, pile@, suit, r as int),
        decreases 5 - r,
    {
        let rank = Rank::from_index(r);
        let card = Card::new(suit, rank);
        if r >= played as usize && count_copies(pile, card) >= rank.copies() as usize {
            return r as u8;
        }
        r = r + 1;
    }
    5
}

/// Highest score still reachable after all discards, given the height of
/// each play stack and the discard pile.
pub fn score_ceiling(heights: [u8; 5], pile: &Vec<Card>) -> (c: u8)
    ensures
        c == ceiling(heights@, pile@),
        c <= 25,
{
    let red = suit_ceiling_of(&heights, pile, Suit::Red);
    let yellow = suit_ceiling_of(&heights, pile, Suit::Yellow);
    let green = suit_ceiling_of(&heights, pile, Suit::Green);
    let blue = suit_ceiling_of(&heights, pile, Suit::Blue);
    let purple = suit_ceiling_of(&heights, pile, Suit::Purple);
    red + yellow + green + blue + purple
}

/// The ceiling of each suit lies between its current stack (at most 5) and 5:
/// discards never take away a card that was already played.
pub proof fn lemma_suit_ceiling_bounds(heights: Seq<u8>, pile: Seq<Card>, suit: Suit)
    requires
        heights.len() == 5,
    ensures
        suit_ceiling(heights, pile, suit) <= 5,
        suit_ceiling(heights, pile, suit) >= stack_cap(heights, suit),
{
    lemma_first_blocked_bounds(heights, pile, suit, 0);
}

proof fn lemma_unblocked_without_discards(heights: Seq<u8>, suit: Suit, r: int)
    requires
        0 <= r <= 5,
    ensures
        first_blocked(heights, Seq::empty(), suit, r) == 5,
    decreases 5 - r,
{
    if r < 5 {
        assert(!blocks(heights, Seq::empty(), suit, r));
        lemma_unblocked_without_discards(heights, suit, r + 1);
    }
}

/// With nothing discarded every suit can still be completed, so the ceiling
/// is a perfect score.
pub proof fn lemma_empty_discard_pile_allows_perfect(heights: Seq<u8>)
    ensures
        ceiling(heights, Seq::empty()) == 25,
{
    lemma_unblocked_without_discards(heights, Suit::Red, 0);
    lemma_unblocked_without_discards(heights, Suit::Yellow, 0);
    lemma_unblocked_without_discards(heights, Suit::Green, 0);
    lemma_unblocked_without_discards(heights, Suit::Blue, 0);
    lemma_unblocked_without_discards(heights, Suit::Purple, 0);
}

/// How many of the first `n` remaining cards other than `discarded` are
/// `identity`.
pub open spec fn remaining_copies(remaining: Seq<(CardId, Option<Card>)>, identity: Card, discarded: CardId, n: int) -> nat
    decreases n,
{
    if n <= 0 || n > remaining.len() {
        0
    } else {
        remaining_copies(remaining, identity, discarded, n - 1) + if remaining[n - 1].0 != discarded && remaining[n
            - 1].1 == Some(identity) {
            1nat
        } else {
            0nat
        }
    }
}

/// Whether discarding `discarded` would leave at most one copy of a still
/// unplayed `identity` among the cards in hands and in the draw pile.
/// `remaining` lists those cards with their identities in this deal.
pub fn is_critical_now(
    stack_heights: [u8; 5],
    remaining: &Vec<(CardId, Option<Card>)>,
    identity: Card,
    discarded: CardId,
) -> (b: bool)
    ensures
        b == (stack_heights@[identity.suit.spec_index() as int] < identity.rank.spec_number() && remaining_copies(
            remaining@,
            identity,
            discarded,
            remaining@.len() as int,
        ) <= 1),
{
    if stack_heights[identity.suit.index()] >= identity.rank.number() {
        return false;
    }
    let mut count: usize = 0;
    let mut k: usize = 0;
    while k < remaining.len()
        invariant
            k <= remaining@.len(),
            count <= k,
            count == remaining_copies(remaining@, identity, discarded, k as int),
        decreases remaining@.len() - k,
    {
        let (card, seen) = remaining[k];
        if card != discarded && seen == Some(identity) {
            count = count + 1;
        }
        k = k + 1;
    }
    count <= 1
}

} // verus!
