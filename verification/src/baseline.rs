//! The convention-agnostic baseline: what direct clues, public cards and
//! card-count elimination prove about a card, and a rollout policy that uses
//! nothing else.

use vstd::prelude::*;

use crate::cards::{Action, Card, CardId, IdentitySet, PlayerId, Rank, MAX_CLUE_TOKENS};

verus! {

/// What direct clues, public cards, and card-count elimination prove about one
/// card. No meaning is assigned to why any clue was given.
#[derive(Clone, Copy, Debug, PartialEq, Eq, Structural)]
pub struct CardAssessment {
    pub certainly_playable: bool,
    pub certainly_useless: bool,
}

/// Highest rank still reachable on a suit: one below the lowest unplayed rank
/// whose every copy has been discarded, or 5.
pub open spec fn reachable_from(height: u8, discarded: Seq<u8>, suit: int, r: int) -> u8
    decreases 6 - r,
{
    if r > 5 || r < 1 {
        5
    } else if r > height && discarded[suit * 5 + r - 1] == Rank::spec_from_index(
        (r - 1) as usize,
    ).spec_copies() {
        (r - 1) as u8
    } else {
        reachable_from(height, discarded, suit, r + 1)
    }
}

pub open spec fn maximum_reachable_rank(height: u8, discarded: Seq<u8>, suit: int) -> u8 {
    reachable_from(height, discarded, suit, 1)
}

/// Every identity in `possibilities` can be played now.
pub open spec fn spec_certainly_playable(heights: Seq<u8>, possibilities: Set<Card>) -> bool {
    possibilities != Set::<Card>::empty() && forall|c: Card|
        possibilities.contains(c) ==> c.rank.spec_number() == heights[c.suit.spec_index() as int]
            + 1
}

/// Every identity in `possibilities` has already been played or can never be
/// played because a required lower rank is exhausted.
pub open spec fn spec_certainly_useless(
    heights: Seq<u8>,
    reachable: Seq<u8>,
    possibilities: Set<Card>,
) -> bool {
    possibilities != Set::<Card>::empty() && forall|c: Card|
        possibilities.contains(c) ==> c.rank.spec_number() <= heights[c.suit.spec_index() as int]
            || c.rank.spec_number() > reachable[c.suit.spec_index() as int]
}

/// Stack heights and the highest reachable rank of every suit.
pub struct AssessmentContext {
    pub stack_heights: [u8; 5],
    pub maximum_reachable_ranks: [u8; 5],
}

/// The highest reachable rank of the suit with index `suit`.
fn reachable_rank(height: u8, discarded_counts: &[u8; 25], suit: usize) -> (found: u8)
    requires
        suit < 5,
    ensures
        found == maximum_reachable_rank(height, discarded_counts@, suit as int),
{
    let mut r: usize = 1;
    while r <= 5
        invariant
            1 <= r <= 6,
            suit < 5,
            reachable_from(height, discarded_counts@, suit as int, 1) == reachable_from(
                height,
                discarded_counts@,
                suit as int,
                r as int,
            ),
        decreases 6 - r,
    {
        let rank = Rank::from_index(r - 1);
        if (r as u8) > height && discarded_counts[suit * 5 + r - 1] == rank.copies() {
            return (r - 1) as u8;
        }
        r = r + 1;
    }
    5
}

impl AssessmentContext {
    /// The assessment context of stack heights and discard counts indexed by
    /// `suit * 5 + rank`.
    pub fn from_counts(stack_heights: [u8; 5], discarded_counts: [u8; 25]) -> (context: Self)
        ensures
            context.stack_heights@ == stack_heights@,
            forall|s: int|
                0 <= s < 5 ==> #[trigger] context.maximum_reachable_ranks@[s]
                    == maximum_reachable_rank(stack_heights@[s], discarded_counts@, s),
    {
        let mut reachable: [u8; 5] = [5u8; 5];
        let mut suit: usize = 0;
        while suit < 5
            invariant
                suit <= 5,
                forall|s: int|
                    0 <= s < suit ==> #[trigger] reachable@[s] == maximum_reachable_rank(
                        stack_heights@[s],
                        discarded_counts@,
                        s,
                    ),
            decreases 5 - suit,
        {
            let found = reachable_rank(stack_heights[suit], &discarded_counts, suit);
            reachable.set(suit, found);
            suit = suit + 1;
        }
        AssessmentContext { stack_heights, maximum_reachable_ranks: reachable }
    }

    /// Assesses a hidden card from the identities still possible for it.
    pub fn assess(&self, possibilities: IdentitySet) -> (a: CardAssessment)
        requires
            forall|s: int| 0 <= s < 5 ==> #[trigger] self.stack_heights@[s] < 255,
        ensures
            a.certainly_playable == spec_certainly_playable(self.stack_heights@, possibilities@),
            a.certainly_useless == spec_certainly_useless(
                self.stack_heights@,
                self.maximum_reachable_ranks@,
                possibilities@,
            ),
    {
        let empty = possibilities.is_empty();
        let mut playable = true;
        let mut useless = true;
        let mut i: usize = 0;
        while i < 25
            invariant
                i <= 25,
                forall|s: int| 0 <= s < 5 ==> #[trigger] self.stack_heights@[s] < 255,
                playable == forall|c: Card|
                    c.spec_index() < i && possibilities@.contains(c) ==> c.rank.spec_number()
                        == self.stack_heights@[c.suit.spec_index() as int] + 1,
                useless == forall|c: Card|
                    c.spec_index() < i && possibilities@.contains(c) ==> c.rank.spec_number()
                        <= self.stack_heights@[c.suit.spec_index() as int] || c.rank.spec_number()
                        > self.maximum_reachable_ranks@[c.suit.spec_index() as int],
            decreases 25 - i,
        {
            let card = Card::from_index(i);
            let ghost old_playable = playable;
            let ghost old_useless = useless;
            if possibilities.contains(card) {
                let rank = card.rank.number();
                let s = card.suit.index();
                if rank != self.stack_heights[s] + 1 {
                    playable = false;
                }
                if !(rank <= self.stack_heights[s] || rank > self.maximum_reachable_ranks[s]) {
                    useless = false;
                }
            }
            proof {
                assert forall|c: Card| c.spec_index() < i + 1 && c.spec_index() != i implies c.spec_index() < i by {}
                assert forall|c: Card| #[trigger] c.spec_index() == i implies c == card by {
                    crate::cards::lemma_card_index_injective(c, card);
                }
            }
            i = i + 1;
        }
        proof {
            assert forall|c: Card| c.spec_index() < 25 by {
                crate::cards::lemma_card_index_roundtrip(c);
            }
        }
        CardAssessment { certainly_playable: !empty && playable, certainly_useless: !empty && useless }
    }
}

/// Assesses every identity that remains logically possible for a hidden card,
/// given the stack heights and the discard counts indexed by
/// `suit * 5 + rank`.
///
/// A card is certainly playable only when every possible identity can be
/// played now. It is certainly useless only when every possible identity has
/// already played or can never play because a required lower rank is
/// exhausted. Returns `None` when no possibilities are known for the card.
pub fn assess_card(
    stack_heights: [u8; 5],
    discarded_counts: [u8; 25],
    possibilities: Option<IdentitySet>,
) -> (r: Option<CardAssessment>)
    requires
        forall|s: int| 0 <= s < 5 ==> #[trigger] stack_heights@[s] < 255,
    ensures
        match possibilities {
            None => r is None,
            Some(set) => r matches Some(a) && a.certainly_playable == spec_certainly_playable(
                stack_heights@,
                set@,
            ) && a.certainly_useless == spec_certainly_useless(
                stack_heights@,
                Seq::new(
                    5,
                    |s: int| maximum_reachable_rank(stack_heights@[s], discarded_counts@, s),
                ),
                set@,
            ),
        },
{
    let set = match possibilities {
        Some(set) => set,
        None => return None,
    };
    let context = AssessmentContext::from_counts(stack_heights, discarded_counts);
    proof {
        assert(context.maximum_reachable_ranks@ =~= Seq::new(
            5,
            |s: int| maximum_reachable_rank(stack_heights@[s], discarded_counts@, s),
        ));
    }
    Some(context.assess(set))
}

/// Why a rollout policy could not choose an action.
#[derive(Clone, Copy, Debug, PartialEq, Eq, Structural)]
pub enum PolicyError {
    NotCurrentPlayer,
    MissingOwnHand,
    EmptyOwnHand,
    MissingPossibilities(CardId),
    CompactObservationUnsupported,
    NoConventionAction,
}

/// What a legal observation gives the convention-agnostic policy: seats, the
/// token count, public stacks and discards, every hand's card identifiers
/// (oldest first), and the logically possible identities of each card,
/// indexed by card identifier.
pub struct PolicyObservation {
    pub observer: PlayerId,
    pub current_player: PlayerId,
    pub in_progress: bool,
    pub clue_tokens: u8,
    pub stack_heights: [u8; 5],
    pub discarded_counts: [u8; 25],
    pub hands: Vec<Vec<CardId>>,
    pub possibilities: Vec<Option<IdentitySet>>,
}

/// The possible identities recorded for `card`, if any.
pub open spec fn possible(possibilities: Seq<Option<IdentitySet>>, card: CardId) -> Option<
    IdentitySet,
> {
    if card.spec_index() < possibilities.len() {
        possibilities[card.spec_index() as int]
    } else {
        None
    }
}

/// Outcome of scanning the hand from position `k`: the first card without
/// possibilities is an error, the first certainly playable card is played,
/// and otherwise the scan ends with no decision.
pub open spec fn scan_hand(
    hand: Seq<CardId>,
    k: int,
    heights: Seq<u8>,
    possibilities: Seq<Option<IdentitySet>>,
) -> Option<Result<Action, PolicyError>>
    decreases hand.len() - k,
{
    if k >= hand.len() || k < 0 {
        None
    } else {
        match possible(possibilities, hand[k]) {
            None => Some(Err(PolicyError::MissingPossibilities(hand[k]))),
            Some(set) => if spec_certainly_playable(heights, set@) {
                Some(Ok(Action::Play(hand[k])))
            } else {
                scan_hand(hand, k + 1, heights, possibilities)
            },
        }
    }
}

/// The oldest card from position `k` that is certainly useless.
pub open spec fn first_useless(
    hand: Seq<CardId>,
    k: int,
    heights: Seq<u8>,
    reachable: Seq<u8>,
    possibilities: Seq<Option<IdentitySet>>,
) -> Option<CardId>
    decreases hand.len() - k,
{
    if k >= hand.len() || k < 0 {
        None
    } else {
        match possible(possibilities, hand[k]) {
            Some(set) => if spec_certainly_useless(heights, reachable, set@) {
                Some(hand[k])
            } else {
                first_useless(hand, k + 1, heights, reachable, possibilities)
            },
            None => first_useless(hand, k + 1, heights, reachable, possibilities),
        }
    }
}

/// The baseline decision for an own hand, oldest first: play the oldest
/// certainly playable card; otherwise, below the clue maximum, discard the
/// oldest certainly useless card or else the oldest card; at the clue
/// maximum, blind-play the newest card.
pub open spec fn spec_select_from_knowledge(
    in_turn: bool,
    clue_tokens: u8,
    hand: Seq<CardId>,
    heights: Seq<u8>,
    reachable: Seq<u8>,
    possibilities: Seq<Option<IdentitySet>>,
) -> Result<Action, PolicyError> {
    if !in_turn {
        Err(PolicyError::NotCurrentPlayer)
    } else if hand.len() == 0 {
        Err(PolicyError::EmptyOwnHand)
    } else {
        match scan_hand(hand, 0, heights, possibilities) {
            Some(r) => r,
            None => if clue_tokens < MAX_CLUE_TOKENS {
                match first_useless(hand, 0, heights, reachable, possibilities) {
                    Some(c) => Ok(Action::Discard(c)),
                    None => Ok(Action::Discard(hand[0])),
                }
            } else {
                Ok(Action::Play(hand.last()))
            },
        }
    }
}

fn lookup(possibilities: &Vec<Option<IdentitySet>>, card: CardId) -> (r: Option<IdentitySet>)
    ensures
        r == possible(possibilities@, card),
{
    if card.index() < possibilities.len() {
        possibilities[card.index()]
    } else {
        None
    }
}

/// Selects the baseline action for `hand` from its possible identities.
pub fn select_action_from_knowledge(
    observer: PlayerId,
    current_player: PlayerId,
    in_progress: bool,
    clue_tokens: u8,
    hand: &Vec<CardId>,
    context: &AssessmentContext,
    possibilities: &Vec<Option<IdentitySet>>,
) -> (r: Result<Action, PolicyError>)
    requires
        forall|s: int| 0 <= s < 5 ==> #[trigger] context.stack_heights@[s] < 255,
    ensures
        r == spec_select_from_knowledge(
            in_progress && observer == current_player,
            clue_tokens,
            hand@,
            context.stack_heights@,
            context.maximum_reachable_ranks@,
            possibilities@,
        ),
{
    if !in_progress || observer != current_player {
        return Err(PolicyError::NotCurrentPlayer);
    }
    if hand.len() == 0 {
        return Err(PolicyError::EmptyOwnHand);
    }
    let ghost heights = context.stack_heights@;
    let ghost reachable = context.maximum_reachable_ranks@;
    let mut first: Option<CardId> = None;
    let mut k: usize = 0;
    while k < hand.len()
        invariant
            k <= hand@.len(),
            in_progress && observer == current_player,
            hand@.len() > 0,
            heights == context.stack_heights@,
            reachable == context.maximum_reachable_ranks@,
            forall|s: int| 0 <= s < 5 ==> #[trigger] context.stack_heights@[s] < 255,
            scan_hand(hand@, 0, heights, possibilities@) == scan_hand(
                hand@,
                k as int,
                heights,
                possibilities@,
            ),
            first_useless(hand@, 0, heights, reachable, possibilities@) == match first {
                Some(c) => Some(c),
                None => first_useless(hand@, k as int, heights, reachable, possibilities@),
            },
        decreases hand@.len() - k,
    {
        let card = hand[k];
        let set = match lookup(possibilities, card) {
            Some(set) => set,
            None => return Err(PolicyError::MissingPossibilities(card)),
        };
        let assessment = context.assess(set);
        if assessment.certainly_playable {
            return Ok(Action::Play(card));
        }
        if first.is_none() && assessment.certainly_useless {
            first = Some(card);
        }
        k = k + 1;
    }
    if clue_tokens < MAX_CLUE_TOKENS {
        return match first {
            Some(c) => Ok(Action::Discard(c)),
            None => Ok(Action::Discard(hand[0])),
        };
    }
    Ok(Action::Play(hand[hand.len() - 1]))
}

/// A deliberately convention-agnostic rollout policy.
///
/// It never gives a clue or interprets why a clue was given. In order, it:
///
/// 1. plays the oldest certainly playable card;
/// 2. discards the oldest certainly useless card;
/// 3. otherwise discards the oldest card; or
/// 4. when discarding is illegal at full clues, blind-plays the newest card.
#[derive(Clone, Copy, Debug, Default, PartialEq, Eq, Structural)]
pub struct ConventionAgnosticPolicy;

impl ConventionAgnosticPolicy {
    /// Rollouts of this policy need no public event history.
    pub fn uses_history(&self) -> (b: bool)
        ensures
            !b,
    {
        false
    }

    /// Chooses one legal action for the current player of `observation`.
    pub fn select_action(&self, observation: &PolicyObservation) -> (r: Result<Action, PolicyError>)
        requires
            forall|s: int| 0 <= s < 5 ==> #[trigger] observation.stack_heights@[s] < 255,
        ensures
            observation.observer.spec_index() >= observation.hands@.len() ==> r == Err::<
                Action,
                PolicyError,
            >(PolicyError::MissingOwnHand),
            observation.observer.spec_index() < observation.hands@.len() ==> r
                == spec_select_from_knowledge(
                observation.in_progress && observation.observer == observation.current_player,
                observation.clue_tokens,
                observation.hands@[observation.observer.spec_index() as int]@,
                observation.stack_heights@,
                Seq::new(
                    5,
                    |s: int|
                        maximum_reachable_rank(
                            observation.stack_heights@[s],
                            observation.discarded_counts@,
                            s,
                        ),
                ),
                observation.possibilities@,
            ),
    {
        if observation.observer.index() >= observation.hands.len() {
            return Err(PolicyError::MissingOwnHand);
        }
        let hand = &observation.hands[observation.observer.index()];
        let context = AssessmentContext::from_counts(
            observation.stack_heights,
            observation.discarded_counts,
        );
        proof {
            assert(context.maximum_reachable_ranks@ =~= Seq::new(
                5,
                |s: int|
                    maximum_reachable_rank(
                        observation.stack_heights@[s],
                        observation.discarded_counts@,
                        s,
                    ),
            ));
        }
        select_action_from_knowledge(
            observation.observer,
            observation.current_player,
            observation.in_progress,
            observation.clue_tokens,
            hand,
            &context,
            &observation.possibilities,
        )
    }
}

/// Whether the card at position `i` of `hand` is certainly useless.
pub open spec fn useless_at(
    hand: Seq<CardId>,
    i: int,
    heights: Seq<u8>,
    reachable: Seq<u8>,
    possibilities: Seq<Option<IdentitySet>>,
) -> bool {
    possible(possibilities, hand[i]) matches Some(set) && spec_certainly_useless(heights, reachable, set@)
}

proof fn lemma_scan_finds_nothing(
    hand: Seq<CardId>,
    k: int,
    heights: Seq<u8>,
    possibilities: Seq<Option<IdentitySet>>,
)
    requires
        0 <= k,
        forall|i: int|
            0 <= i < hand.len() ==> (possible(possibilities, #[trigger] hand[i]) matches Some(set)
                && !spec_certainly_playable(heights, set@)),
    ensures
        scan_hand(hand, k, heights, possibilities) is None,
    decreases hand.len() - k,
{
    if k < hand.len() {
        assert(possible(possibilities, hand[k]) is Some);
        lemma_scan_finds_nothing(hand, k + 1, heights, possibilities);
    }
}

proof fn lemma_first_useless_finds(
    hand: Seq<CardId>,
    k: int,
    j: int,
    heights: Seq<u8>,
    reachable: Seq<u8>,
    possibilities: Seq<Option<IdentitySet>>,
)
    requires
        0 <= k <= j < hand.len(),
        useless_at(hand, j, heights, reachable, possibilities),
        forall|i: int| 0 <= i < j ==> !useless_at(hand, i, heights, reachable, possibilities),
    ensures
        first_useless(hand, k, heights, reachable, possibilities) == Some(hand[j]),
    decreases j - k,
{
    if k < j {
        assert(!useless_at(hand, k, heights, reachable, possibilities));
        lemma_first_useless_finds(hand, k + 1, j, heights, reachable, possibilities);
    }
}

/// When no card of the hand is certainly playable and a clue token can be
/// regained, the baseline discards the oldest certainly useless card: the
/// discarded card is certainly useless and no older card is.
pub proof fn lemma_baseline_discards_oldest_useless(
    clue_tokens: u8,
    hand: Seq<CardId>,
    heights: Seq<u8>,
    reachable: Seq<u8>,
    possibilities: Seq<Option<IdentitySet>>,
    j: int,
)
    requires
        clue_tokens < MAX_CLUE_TOKENS,
        forall|i: int|
            0 <= i < hand.len() ==> (possible(possibilities, #[trigger] hand[i]) matches Some(set)
                && !spec_certainly_playable(heights, set@)),
        0 <= j < hand.len(),
        useless_at(hand, j, heights, reachable, possibilities),
        forall|i: int| 0 <= i < j ==> !useless_at(hand, i, heights, reachable, possibilities),
    ensures
        spec_select_from_knowledge(true, clue_tokens, hand, heights, reachable, possibilities) == Ok::<
            Action,
            PolicyError,
        >(Action::Discard(hand[j])),
{
    lemma_scan_finds_nothing(hand, 0, heights, possibilities);
    lemma_first_useless_finds(hand, 0, j, heights, reachable, possibilities);
}

/// When no card is certainly playable, no card is certainly useless and a
/// clue token can be regained, the baseline discards the oldest card.
pub proof fn lemma_baseline_discards_oldest_otherwise(
    clue_tokens: u8,
    hand: Seq<CardId>,
    heights: Seq<u8>,
    reachable: Seq<u8>,
    possibilities: Seq<Option<IdentitySet>>,
)
    requires
        clue_tokens < MAX_CLUE_TOKENS,
        hand.len() > 0,
        forall|i: int|
            0 <= i < hand.len() ==> (possible(possibilities, #[trigger] hand[i]) matches Some(set)
                && !spec_certainly_playable(heights, set@)),
        forall|i: int| 0 <= i < hand.len() ==> !useless_at(hand, i, heights, reachable, possibilities),
    ensures
        spec_select_from_knowledge(true, clue_tokens, hand, heights, reachable, possibilities) == Ok::<
            Action,
            PolicyError,
        >(Action::Discard(hand[0])),
{
    lemma_scan_finds_nothing(hand, 0, heights, possibilities);
    lemma_first_useless_none(hand, 0, heights, reachable, possibilities);
}

proof fn lemma_first_useless_none(
    hand: Seq<CardId>,
    k: int,
    heights: Seq<u8>,
    reachable: Seq<u8>,
    possibilities: Seq<Option<IdentitySet>>,
)
    requires
        0 <= k,
        forall|i: int| 0 <= i < hand.len() ==> !useless_at(hand, i, heights, reachable, possibilities),
    ensures
        first_useless(hand, k, heights, reachable, possibilities) is None,
    decreases hand.len() - k,
{
    if k < hand.len() {
        assert(!useless_at(hand, k, heights, reachable, possibilities));
        lemma_first_useless_none(hand, k + 1, heights, reachable, possibilities);
    }
}

proof fn lemma_scan_plays_first_playable(
    hand: Seq<CardId>,
    k: int,
    j: int,
    heights: Seq<u8>,
    possibilities: Seq<Option<IdentitySet>>,
)
    requires
        0 <= k <= j < hand.len(),
        possible(possibilities, hand[j]) matches Some(set) && spec_certainly_playable(heights, set@),
        forall|i: int|
            0 <= i < j ==> (possible(possibilities, #[trigger] hand[i]) matches Some(set)
                && !spec_certainly_playable(heights, set@)),
    ensures
        scan_hand(hand, k, heights, possibilities) == Some(Ok::<Action, PolicyError>(Action::Play(hand[j]))),
    decreases j - k,
{
    if k < j {
        assert(possible(possibilities, hand[k]) is Some);
        lemma_scan_plays_first_playable(hand, k + 1, j, heights, possibilities);
    }
}

/// The baseline plays the oldest certainly playable card, whatever the clue
/// tokens, when every older card has known possibilities.
pub proof fn lemma_baseline_plays_oldest_playable(
    clue_tokens: u8,
    hand: Seq<CardId>,
    heights: Seq<u8>,
    reachable: Seq<u8>,
    possibilities: Seq<Option<IdentitySet>>,
    j: int,
)
    requires
        0 <= j < hand.len(),
        possible(possibilities, hand[j]) matches Some(set) && spec_certainly_playable(heights, set@),
        forall|i: int|
            0 <= i < j ==> (possible(possibilities, #[trigger] hand[i]) matches Some(set)
                && !spec_certainly_playable(heights, set@)),
    ensures
        spec_select_from_knowledge(true, clue_tokens, hand, heights, reachable, possibilities) == Ok::<
            Action,
            PolicyError,
        >(Action::Play(hand[j])),
{
    lemma_scan_plays_first_playable(hand, 0, j, heights, possibilities);
}

/// At the clue maximum, with no card certainly playable, the baseline
/// blind-plays the newest card.
pub proof fn lemma_baseline_blind_plays_newest_at_max(
    clue_tokens: u8,
    hand: Seq<CardId>,
    heights: Seq<u8>,
    reachable: Seq<u8>,
    possibilities: Seq<Option<IdentitySet>>,
)
    requires
        clue_tokens >= MAX_CLUE_TOKENS,
        hand.len() > 0,
        forall|i: int|
            0 <= i < hand.len() ==> (possible(possibilities, #[trigger] hand[i]) matches Some(set)
                && !spec_certainly_playable(heights, set@)),
    ensures
        spec_select_from_knowledge(true, clue_tokens, hand, heights, reachable, possibilities) == Ok::<
            Action,
            PolicyError,
        >(Action::Play(hand.last())),
{
    lemma_scan_finds_nothing(hand, 0, heights, possibilities);
}

} // verus!
