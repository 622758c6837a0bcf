//! Opportunities that a root clue opens or forgoes: blind plays and prompt
//! chains it gives up, Finesse positions it leaves for later players, the
//! pressure of a second consecutive save, and useful touches that waiting
//! would forgo.

use vstd::prelude::*;

use crate::cards::{Action, Card, CardId, Clue, IdentitySet, PlayerId, Rank};
use crate::h_group::admission::VisibleCard;
use crate::h_group::frontier_value::{
    clamp_to_byte, consecutive_save_pressure, critical, narrow, save_pressure, spec_critical,
    spec_unseen, unseen,
};
use crate::h_group::hand::list_contains;

verus! {

/// The root clue as a convention candidate: its role, and the positional
/// values its evaluation found.
#[derive(Clone, Copy, Debug, PartialEq, Eq)]
pub struct RootCandidate {
    pub immediate_play: bool,
    pub is_save: bool,
    pub foregone_blind_plays: u8,
    pub conditional_prompt_chains: u8,
}

/// The target's view of a Save-shaped root clue: its playable cards and
/// gotten cards before the clue, and its playable cards after it.
pub struct SaveProjection {
    pub owner_playable: Vec<CardId>,
    pub owner_gotten: Vec<CardId>,
    pub after_playable: Vec<CardId>,
}

/// The position and the convention's judgements that the root opportunities
/// read.
pub struct RootInputs {
    pub hands: Vec<Vec<VisibleCard>>,
    pub stack_heights: [u8; 5],
    pub discard_pile: Vec<Card>,
    /// The identities still eventually useful.
    pub useful: IdentitySet,
    /// The cards clued before the current turn.
    pub clued_before: Vec<CardId>,
    pub deck_size: u8,
    pub clue_tokens: u8,
    /// The root clue among the convention's clue candidates, if it is one.
    pub candidate: Option<RootCandidate>,
    /// The target's projection, when one can be made.
    pub save_projection: Option<SaveProjection>,
    /// The identities the player's own analysis already promises or pins
    /// down.
    pub own_claimed: IdentitySet,
    /// The identities each card of the target's hand may be, by its clues,
    /// aligned with the hand.
    pub possibilities: Vec<IdentitySet>,
}

/// What a root clue opens or forgoes.
#[derive(Clone, Copy, Debug, PartialEq, Eq)]
pub struct RootOpportunities {
    pub foregone_blind_plays: u8,
    pub conditional_prompt_chains: u8,
    pub finesse_opportunities: u8,
    pub save_pressure: u8,
    pub foregone_touch_opportunities: u8,
}

/// Whether `identity` is playable on `heights`.
pub open spec fn playable_on(heights: Seq<u8>, identity: Card) -> bool {
    heights[identity.suit.spec_index() as int] + 1 == identity.rank.spec_number()
}

/// The card after `identity` in its suit (for a rank below 5).
pub open spec fn next_in_suit(identity: Card) -> Card {
    Card { suit: identity.suit, rank: Rank::spec_from_index(identity.rank.spec_number() as usize) }
}

/// The newest card of `hand` not clued before the current turn.
pub open spec fn newest_unclued(hand: Seq<VisibleCard>, clued: Seq<CardId>) -> Option<VisibleCard>
    decreases hand.len(),
{
    if hand.len() == 0 {
        None
    } else if !clued.contains(hand.last().id) {
        Some(hand.last())
    } else {
        newest_unclued(hand.drop_last(), clued)
    }
}

/// Whether `hand` visibly holds `identity`.
pub open spec fn holds(hand: Seq<VisibleCard>, identity: Card) -> bool {
    exists|k: int| 0 <= k < hand.len() && (#[trigger] hand[k]).identity == Some(identity)
}

/// Whether the owner at `o` keeps `next` on Finesse position: another
/// player than the target who holds it as the newest card not yet clued.
pub open spec fn keeps_on_finesse(hands: Seq<Vec<VisibleCard>>, o: int, target: PlayerId, clued: Seq<CardId>, next: Card) -> bool {
    &&& holds(hands[o]@, next)
    &&& o != target.spec_index()
    &&& newest_unclued(hands[o]@, clued) matches Some(card) && card.identity == Some(next)
}

/// The owners among the first `n` who keep `next` on Finesse position.
pub open spec fn finesse_owners(hands: Seq<Vec<VisibleCard>>, n: int, target: PlayerId, clued: Seq<CardId>, next: Card) -> nat
    decreases n,
{
    if n <= 0 {
        0
    } else {
        finesse_owners(hands, n - 1, target, clued, next) + if keeps_on_finesse(hands, n - 1, target, clued, next) {
            1nat
        } else {
            0nat
        }
    }
}

/// Whether the card is a visible, clue-matching, playable non-5.
pub open spec fn opens_finesse(card: VisibleCard, clue: Clue, heights: Seq<u8>) -> bool {
    card.identity matches Some(identity) && clue.spec_matches(identity) && playable_on(heights, identity)
        && identity.rank != Rank::Five
}

/// The Finesse positions opened by the first `n` cards of the target's hand.
pub open spec fn finesse_total(
    hands: Seq<Vec<VisibleCard>>,
    target: PlayerId,
    clue: Clue,
    heights: Seq<u8>,
    clued: Seq<CardId>,
    n: int,
) -> nat
    decreases n,
{
    if n <= 0 {
        0
    } else {
        let card = hands[target.spec_index() as int]@[n - 1];
        finesse_total(hands, target, clue, heights, clued, n - 1) + if opens_finesse(card, clue, heights) {
            finesse_owners(hands, hands.len() as int, target, clued, next_in_suit(card.identity->0))
        } else {
            0nat
        }
    }
}

/// The cards of `hand` the clue touches visibly.
pub open spec fn touched_ids(hand: Seq<VisibleCard>, clue: Clue) -> Seq<CardId>
    decreases hand.len(),
{
    if hand.len() == 0 {
        Seq::empty()
    } else {
        let rest = touched_ids(hand.drop_last(), clue);
        if hand.last().identity matches Some(identity) && clue.spec_matches(identity) {
            rest.push(hand.last().id)
        } else {
            rest
        }
    }
}

/// The position of the target's next chop after the clue: the oldest card
/// neither touched nor gotten.
pub open spec fn next_chop(hand: Seq<VisibleCard>, touched: Seq<CardId>, gotten: Seq<CardId>, from: int) -> Option<int>
    decreases hand.len() - from,
{
    if from >= hand.len() || from < 0 {
        None
    } else if !touched.contains(hand[from].id) && !gotten.contains(hand[from].id) {
        Some(from)
    } else {
        next_chop(hand, touched, gotten, from + 1)
    }
}

/// Whether the identity is unseen and critical.
pub open spec fn critical_unseen(e: RootInputs, identity: Card) -> bool {
    spec_unseen(e.hands@, e.discard_pile@, e.stack_heights@, identity) > 0 && spec_critical(
        e.useful@,
        e.discard_pile@,
        identity,
    )
}

/// Whether the target's next chop might be critical.
pub open spec fn critical_possible(e: RootInputs, hand: Seq<VisibleCard>, chop: Option<int>) -> bool {
    match chop {
        Some(k) => match hand[k].identity {
            Some(identity) => spec_critical(e.useful@, e.discard_pile@, identity),
            None => exists|i: int|
                0 <= i < 25 && e.possibilities@[k]@.contains(#[trigger] Card::spec_from_index(i as usize))
                    && critical_unseen(e, Card::spec_from_index(i as usize)),
        },
        None => exists|i: int| 0 <= i < 25 && critical_unseen(e, #[trigger] Card::spec_from_index(i as usize)),
    }
}

/// Whether waiting forgoes touching `identity`: a useful, unseen identity the
/// clue would touch, not already clued anywhere, not claimed by the player's
/// own analysis, and not among the cards this clue touches.
pub open spec fn forgone_touch(e: RootInputs, target: PlayerId, clue: Clue, touched: Seq<CardId>, identity: Card) -> bool {
    &&& clue.spec_matches(identity)
    &&& e.useful@.contains(identity)
    &&& spec_unseen(e.hands@, e.discard_pile@, e.stack_heights@, identity) > 0
    &&& !(exists|p: int, k: int|
        0 <= p < e.hands@.len() && 0 <= k < e.hands@[p]@.len() && (#[trigger] e.hands@[p]@[k]).identity
            == Some(identity) && e.clued_before@.contains(e.hands@[p]@[k].id))
    &&& !e.own_claimed@.contains(identity)
    &&& !(exists|k: int|
        0 <= k < e.hands@[target.spec_index() as int]@.len() && (#[trigger] e.hands@[target.spec_index() as int]@[k]).identity
            == Some(identity) && touched.contains(e.hands@[target.spec_index() as int]@[k].id))
}

/// How many of the first `n` identities waiting would forgo touching.
pub open spec fn forgone_count(e: RootInputs, target: PlayerId, clue: Clue, touched: Seq<CardId>, n: int) -> nat
    decreases n,
{
    if n <= 0 {
        0
    } else {
        forgone_count(e, target, clue, touched, n - 1) + if forgone_touch(
            e,
            target,
            clue,
            touched,
            Card::spec_from_index((n - 1) as usize),
        ) {
            1nat
        } else {
            0nat
        }
    }
}

/// The opportunities of a root clue, and whether they could be judged.
pub open spec fn spec_root_opportunities(e: RootInputs, root: Action, value: RootOpportunities) -> (
    Option<()>,
    RootOpportunities,
) {
    match root {
        Action::Clue { target, clue } => match e.candidate {
            None => (None, value),
            Some(c) => {
                let hand = e.hands@[target.spec_index() as int]@;
                let finesse = if c.immediate_play {
                    clamp_to_byte(
                        value.finesse_opportunities + finesse_total(
                            e.hands@,
                            target,
                            clue,
                            e.stack_heights@,
                            e.clued_before@,
                            hand.len() as int,
                        ),
                    ) as u8
                } else {
                    value.finesse_opportunities
                };
                let positional = RootOpportunities {
                    foregone_blind_plays: c.foregone_blind_plays,
                    conditional_prompt_chains: c.conditional_prompt_chains,
                    finesse_opportunities: finesse,
                    ..value
                };
                if !(c.is_save && e.deck_size > 0) {
                    (Some(()), positional)
                } else {
                    match e.save_projection {
                        None => (None, positional),
                        Some(projection) => {
                            let touched = touched_ids(hand, clue);
                            if exists|k: int|
                                0 <= k < touched.len() && projection.after_playable@.contains(#[trigger] touched[k])
                                    && !projection.owner_playable@.contains(touched[k]) {
                                (Some(()), positional)
                            } else {
                                let chop = next_chop(hand, touched, projection.owner_gotten@, 0);
                                let pressured = if critical_possible(e, hand, chop) {
                                    RootOpportunities {
                                        save_pressure: save_pressure(e.clue_tokens as int) as u8,
                                        ..positional
                                    }
                                } else {
                                    positional
                                };
                                if projection.owner_playable@.len() > 0 {
                                    (
                                        Some(()),
                                        RootOpportunities {
                                            foregone_touch_opportunities: clamp_to_byte(
                                                forgone_count(e, target, clue, touched, 25) as int,
                                            ) as u8,
                                            ..pressured
                                        },
                                    )
                                } else {
                                    (Some(()), pressured)
                                }
                            }
                        },
                    }
                }
            },
        },
        _ => (Some(()), value),
    }
}

// ---------------------------------------------------------------------------
// Executable pieces.

fn newest_unclued_card(hand: &Vec<VisibleCard>, clued: &Vec<CardId>) -> (r: Option<VisibleCard>)
    ensures
        r == newest_unclued(hand@, clued@),
{
    let mut i = hand.len();
    proof {
        assert(hand@.take(i as int) =~= hand@);
    }
    while i > 0
        invariant
            i <= hand@.len(),
            newest_unclued(hand@, clued@) == newest_unclued(hand@.take(i as int), clued@),
        decreases i,
    {
        proof {
            assert(hand@.take(i as int).drop_last() =~= hand@.take(i - 1));
            assert(hand@.take(i as int).last() == hand@[i - 1]);
        }
        if !list_contains(clued.as_slice(), hand[i - 1].id) {
            return Some(hand[i - 1]);
        }
        i = i - 1;
    }
    None
}

fn hand_holds(hand: &Vec<VisibleCard>, identity: Card) -> (b: bool)
    ensures
        b == holds(hand@, identity),
{
    let mut i: usize = 0;
    while i < hand.len()
        invariant
            i <= hand@.len(),
            forall|k: int| 0 <= k < i ==> (#[trigger] hand@[k]).identity != Some(identity),
        decreases hand@.len() - i,
    {
        if hand[i].identity == Some(identity) {
            assert(hand@[i as int].identity == Some(identity));
            return true;
        }
        i = i + 1;
    }
    false
}

fn count_finesse_owners(hands: &Vec<Vec<VisibleCard>>, target: PlayerId, clued: &Vec<CardId>, next: Card) -> (n: usize)
    ensures
        n == finesse_owners(hands@, hands@.len() as int, target, clued@, next),
        n <= hands@.len(),
{
    let mut n: usize = 0;
    let mut o: usize = 0;
    while o < hands.len()
        invariant
            o <= hands@.len(),
            n == finesse_owners(hands@, o as int, target, clued@, next),
            n <= o,
        decreases hands@.len() - o,
    {
        if hand_holds(&hands[o], next) && o != target.index() {
            match newest_unclued_card(&hands[o], clued) {
                Some(card) => {
                    if card.identity == Some(next) {
                        n = n + 1;
                    }
                },
                None => {},
            }
        }
        o = o + 1;
    }
    n
}

fn touched_cards(hand: &Vec<VisibleCard>, clue: Clue) -> (r: Vec<CardId>)
    ensures
        r@ == touched_ids(hand@, clue),
{
    let mut r: Vec<CardId> = Vec::new();
    let mut i: usize = 0;
    while i < hand.len()
        invariant
            i <= hand@.len(),
            r@ == touched_ids(hand@.take(i as int), clue),
        decreases hand@.len() - i,
    {
        proof {
            assert(hand@.take(i + 1).drop_last() =~= hand@.take(i as int));
        }
        match hand[i].identity {
            Some(identity) => {
                if clue.matches(identity) {
                    r.push(hand[i].id);
                }
            },
            None => {},
        }
        i = i + 1;
    }
    proof {
        assert(hand@.take(i as int) =~= hand@);
    }
    r
}

fn find_next_chop(hand: &Vec<VisibleCard>, touched: &Vec<CardId>, gotten: &Vec<CardId>) -> (r: Option<usize>)
    ensures
        r matches Some(k) ==> k < hand@.len() && next_chop(hand@, touched@, gotten@, 0) == Some(k as int),
        r is None ==> next_chop(hand@, touched@, gotten@, 0) is None,
{
    let mut i: usize = 0;
    while i < hand.len()
        invariant
            i <= hand@.len(),
            next_chop(hand@, touched@, gotten@, 0) == next_chop(hand@, touched@, gotten@, i as int),
        decreases hand@.len() - i,
    {
        if !list_contains(touched.as_slice(), hand[i].id) && !list_contains(gotten.as_slice(), hand[i].id) {
            return Some(i);
        }
        i = i + 1;
    }
    None
}

fn is_critical_unseen(e: &RootInputs, identity: Card) -> (b: bool)
    ensures
        b == critical_unseen(*e, identity),
{
    unseen(&e.hands, &e.discard_pile, e.stack_heights, identity) > 0 && critical(e.useful, &e.discard_pile, identity)
}

fn any_critical(e: &RootInputs, within: Option<IdentitySet>) -> (b: bool)
    ensures
        b == match within {
            Some(set) => exists|i: int|
                0 <= i < 25 && set@.contains(#[trigger] Card::spec_from_index(i as usize)) && critical_unseen(
                    *e,
                    Card::spec_from_index(i as usize),
                ),
            None => exists|i: int| 0 <= i < 25 && critical_unseen(*e, #[trigger] Card::spec_from_index(i as usize)),
        },
{
    let mut i: usize = 0;
    while i < 25
        invariant
            i <= 25,
            forall|k: int|
                0 <= k < i ==> !(match within {
                    Some(set) => set@.contains(#[trigger] Card::spec_from_index(k as usize)),
                    None => true,
                } && critical_unseen(*e, Card::spec_from_index(k as usize))),
        decreases 25 - i,
    {
        let card = Card::from_index(i);
        let allowed = match within {
            Some(set) => set.contains(card),
            None => true,
        };
        if allowed && is_critical_unseen(e, card) {
            assert(critical_unseen(*e, Card::spec_from_index(i as usize)));
            return true;
        }
        i = i + 1;
    }
    false
}

fn clued_anywhere(hands: &Vec<Vec<VisibleCard>>, clued: &Vec<CardId>, identity: Card) -> (b: bool)
    ensures
        b == exists|p: int, k: int|
            0 <= p < hands@.len() && 0 <= k < hands@[p]@.len() && (#[trigger] hands@[p]@[k]).identity
                == Some(identity) && clued@.contains(hands@[p]@[k].id),
{
    let mut p: usize = 0;
    while p < hands.len()
        invariant
            p <= hands@.len(),
            forall|q: int, k: int|
                0 <= q < p && 0 <= k < hands@[q]@.len() ==> !((#[trigger] hands@[q]@[k]).identity == Some(identity)
                    && clued@.contains(hands@[q]@[k].id)),
        decreases hands@.len() - p,
    {
        let hand = &hands[p];
        let mut k: usize = 0;
        while k < hand.len()
            invariant
                p < hands@.len(),
                hand@ == hands@[p as int]@,
                k <= hand@.len(),
                forall|q: int, j: int|
                    0 <= q < p && 0 <= j < hands@[q]@.len() ==> !((#[trigger] hands@[q]@[j]).identity == Some(identity)
                        && clued@.contains(hands@[q]@[j].id)),
                forall|j: int| 0 <= j < k ==> !((#[trigger] hand@[j]).identity == Some(identity) && clued@.contains(hand@[j].id)),
            decreases hand@.len() - k,
        {
            if hand[k].identity == Some(identity) && list_contains(clued.as_slice(), hand[k].id) {
                assert(hands@[p as int]@[k as int].identity == Some(identity));
                return true;
            }
            k = k + 1;
        }
        p = p + 1;
    }
    false
}

fn touched_holds(hand: &Vec<VisibleCard>, touched: &Vec<CardId>, identity: Card) -> (b: bool)
    ensures
        b == exists|k: int|
            0 <= k < hand@.len() && (#[trigger] hand@[k]).identity == Some(identity) && touched@.contains(hand@[k].id),
{
    let mut k: usize = 0;
    while k < hand.len()
        invariant
            k <= hand@.len(),
            forall|j: int| 0 <= j < k ==> !((#[trigger] hand@[j]).identity == Some(identity) && touched@.contains(hand@[j].id)),
        decreases hand@.len() - k,
    {
        if hand[k].identity == Some(identity) && list_contains(touched.as_slice(), hand[k].id) {
            assert(hand@[k as int].identity == Some(identity));
            return true;
        }
        k = k + 1;
    }
    false
}

fn count_forgone(e: &RootInputs, target: PlayerId, clue: Clue, touched: &Vec<CardId>) -> (n: usize)
    requires
        target.spec_index() < e.hands@.len(),
    ensures
        n == forgone_count(*e, target, clue, touched@, 25),
        n <= 25,
{
    let mut n: usize = 0;
    let mut i: usize = 0;
    while i < 25
        invariant
            i <= 25,
            target.spec_index() < e.hands@.len(),
            n == forgone_count(*e, target, clue, touched@, i as int),
            n <= i,
        decreases 25 - i,
    {
        let identity = Card::from_index(i);
        if clue.matches(identity) && e.useful.contains(identity) && unseen(
            &e.hands,
            &e.discard_pile,
            e.stack_heights,
            identity,
        ) > 0 && !clued_anywhere(&e.hands, &e.clued_before, identity) && !e.own_claimed.contains(identity)
            && !touched_holds(&e.hands[target.index()], touched, identity) {
            n = n + 1;
        }
        i = i + 1;
    }
    n
}

fn any_obtains_play(touched: &Vec<CardId>, after: &Vec<CardId>, before: &Vec<CardId>) -> (b: bool)
    ensures
        b == exists|k: int| 0 <= k < touched@.len() && after@.contains(#[trigger] touched@[k]) && !before@.contains(touched@[k]),
{
    let mut k: usize = 0;
    while k < touched.len()
        invariant
            k <= touched@.len(),
            forall|j: int| 0 <= j < k ==> !(after@.contains(#[trigger] touched@[j]) && !before@.contains(touched@[j])),
        decreases touched@.len() - k,
    {
        if list_contains(after.as_slice(), touched[k]) && !list_contains(before.as_slice(), touched[k]) {
            assert(after@.contains(touched@[k as int]));
            return true;
        }
        k = k + 1;
    }
    false
}

/// Records what the root clue opens or forgoes. A non-clue root opens
/// nothing; a clue that is no convention candidate, or a Save whose target
/// cannot be projected, cannot be judged.
pub fn add_root_opportunities(e: &RootInputs, root: Action, value: &mut RootOpportunities) -> (r: Option<()>)
    requires
        root matches Action::Clue { target, .. } ==> target.spec_index() < e.hands@.len()
            && e.possibilities@.len() == e.hands@[target.spec_index() as int]@.len(),
    ensures
        (r, *final(value)) == spec_root_opportunities(*e, root, *old(value)),
{
    let (target, clue) = match root {
        Action::Clue { target, clue } => (target, clue),
        _ => {
            return Some(());
        },
    };
    let c = match e.candidate {
        Some(c) => c,
        None => {
            return None;
        },
    };
    let hand = &e.hands[target.index()];
    value.foregone_blind_plays = c.foregone_blind_plays;
    value.conditional_prompt_chains = c.conditional_prompt_chains;
    if c.immediate_play {
        let ghost start = value.finesse_opportunities;
        let mut i: usize = 0;
        while i < hand.len()
            invariant
                i <= hand@.len(),
                hand@ == e.hands@[target.spec_index() as int]@,
                value.finesse_opportunities == clamp_to_byte(
                    start + finesse_total(e.hands@, target, clue, e.stack_heights@, e.clued_before@, i as int),
                ),
                value.foregone_blind_plays == c.foregone_blind_plays,
                value.conditional_prompt_chains == c.conditional_prompt_chains,
                value.save_pressure == old(value).save_pressure,
                value.foregone_touch_opportunities == old(value).foregone_touch_opportunities,
                start == old(value).finesse_opportunities,
            decreases hand@.len() - i,
        {
            let card = hand[i];
            match card.identity {
                Some(touched) => {
                    if clue.matches(touched) && e.stack_heights[touched.suit.index()] as u16 + 1
                        == touched.rank.number() as u16 && touched.rank != Rank::Five {
                        let next = Card::new(touched.suit, Rank::from_index(touched.rank.number() as usize));
                        let owners = count_finesse_owners(&e.hands, target, &e.clued_before, next);
                        value.finesse_opportunities = narrow(
                            (value.finesse_opportunities as usize).saturating_add(owners),
                        );
                    }
                },
                None => {},
            }
            i = i + 1;
            proof {
                assert(hand@[i - 1] == e.hands@[target.spec_index() as int]@[i - 1]);
            }
        }
    }
    if !(c.is_save && e.deck_size > 0) {
        return Some(());
    }
    let projection = match &e.save_projection {
        Some(p) => p,
        None => {
            return None;
        },
    };
    let touched = touched_cards(hand, clue);
    if any_obtains_play(&touched, &projection.after_playable, &projection.owner_playable) {
        return Some(());
    }
    let chop = find_next_chop(hand, &touched, &projection.owner_gotten);
    let possible = match chop {
        Some(k) => match hand[k].identity {
            Some(identity) => critical(e.useful, &e.discard_pile, identity),
            None => any_critical(e, Some(e.possibilities[k])),
        },
        None => any_critical(e, None),
    };
    if possible {
        value.save_pressure = consecutive_save_pressure(e.clue_tokens);
    }
    if projection.owner_playable.len() > 0 {
        value.foregone_touch_opportunities = narrow(count_forgone(e, target, clue, &touched));
    }
    Some(())
}

} // verus!
