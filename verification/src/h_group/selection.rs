//! The single action the H-Group policy takes from its analysed action set,
//! with the extra caution of the last strike.
//! <https://hanabi.github.io/level-1/#the-early-game>

use vstd::prelude::*;

use crate::cards::{Action, CardId, MAX_CLUE_TOKENS};
use crate::h_group::action_analysis::{CompiledHGroupAction, HGroupActionSet};
use crate::h_group::hand::list_contains;

verus! {

/// What the selection reads besides the analysed action set.
pub struct SelectionEvidence {
    /// The analysed actions, best first, and the preferred one.
    pub decision: HGroupActionSet,
    /// The team has two strikes, so a misplay would end the game.
    pub last_strike: bool,
    /// Cards whose every possible identity is playable now.
    pub logically_playable: Vec<CardId>,
    /// Cards the convention marks playable now.
    pub playable_now: Vec<CardId>,
    /// Actions the planner judges safe to take.
    pub planning_safe: Vec<Action>,
    pub clue_tokens: u8,
    /// The convention's known-trash discard, if any.
    pub known_trash: Option<CardId>,
    pub chop: Option<CardId>,
    pub saved: Vec<CardId>,
    pub gotten: Vec<CardId>,
    /// The player's hand, oldest first.
    pub own_hand: Vec<CardId>,
    /// The convention-agnostic policy's action, if it has one.
    pub agnostic_action: Option<Action>,
    /// The legal actions, in their canonical order.
    pub legal_actions: Vec<Action>,
}

/// Whether `a` is safe on the last strike: a play must be of a card that is
/// certainly playable, or one the convention marks playable.
pub open spec fn strike_safe(e: SelectionEvidence, a: Action) -> bool {
    match a {
        Action::Play(card) => e.logically_playable@.contains(card) || (e.last_strike && e.playable_now@.contains(
            card,
        )),
        _ => true,
    }
}

/// Whether `a` may be taken on the last strike.
pub open spec fn acceptable(e: SelectionEvidence, a: Action) -> bool {
    e.planning_safe@.contains(a) && strike_safe(e, a)
}

/// The first of the first `n` analysed actions that may be taken on the
/// last strike.
pub open spec fn first_acceptable(e: SelectionEvidence, actions: Seq<CompiledHGroupAction>, n: int) -> Option<Action>
    decreases n,
{
    if n <= 0 {
        None
    } else {
        let earlier = first_acceptable(e, actions, n - 1);
        if earlier is Some {
            earlier
        } else if acceptable(e, actions[n - 1].action) {
            Some(actions[n - 1].action)
        } else {
            None
        }
    }
}

/// The first card of `hand`, within the first `n`, that is not saved and,
/// when `fresh` holds, not gotten.
pub open spec fn first_free(hand: Seq<CardId>, saved: Seq<CardId>, gotten: Seq<CardId>, fresh: bool, n: int) -> Option<CardId>
    decreases n,
{
    if n <= 0 {
        None
    } else {
        let earlier = first_free(hand, saved, gotten, fresh, n - 1);
        if earlier is Some {
            earlier
        } else if !saved.contains(hand[n - 1]) && (!fresh || !gotten.contains(hand[n - 1])) {
            Some(hand[n - 1])
        } else {
            None
        }
    }
}

/// The first clue among the first `n` legal actions.
pub open spec fn first_clue(legal: Seq<Action>, n: int) -> Option<Action>
    decreases n,
{
    if n <= 0 {
        None
    } else {
        let earlier = first_clue(legal, n - 1);
        if earlier is Some {
            earlier
        } else if legal[n - 1] is Clue {
            Some(legal[n - 1])
        } else {
            None
        }
    }
}

/// The discard of the last strike: the known trash, else the chop, unless
/// saved; else the oldest card neither gotten nor saved; else the oldest
/// card not saved.
pub open spec fn last_strike_discard(e: SelectionEvidence) -> Option<CardId> {
    let hand = e.own_hand@;
    let first = match e.known_trash {
        Some(t) => Some(t),
        None => match e.chop {
            Some(c) => if !e.saved@.contains(c) {
                Some(c)
            } else {
                None
            },
            None => None,
        },
    };
    let kept = match first {
        Some(c) => if !e.saved@.contains(c) {
            Some(c)
        } else {
            None
        },
        None => None,
    };
    if kept is Some {
        kept
    } else if first_free(hand, e.saved@, e.gotten@, true, hand.len() as int) is Some {
        first_free(hand, e.saved@, e.gotten@, true, hand.len() as int)
    } else {
        first_free(hand, e.saved@, e.gotten@, false, hand.len() as int)
    }
}

/// The action the H-Group policy takes.
pub open spec fn spec_selected_action(e: SelectionEvidence) -> Option<Action> {
    let legal = e.legal_actions@;
    if e.last_strike {
        let preferred = match e.decision.preferred {
            Some(a) => if acceptable(e, a) {
                Some(a)
            } else {
                None
            },
            None => None,
        };
        let chosen = if preferred is Some {
            preferred
        } else {
            first_acceptable(e, e.decision.actions@, e.decision.actions@.len() as int)
        };
        if chosen is Some {
            chosen
        } else if e.clue_tokens < MAX_CLUE_TOKENS {
            match last_strike_discard(e) {
                Some(card) => Some(Action::Discard(card)),
                None => e.agnostic_action,
            }
        } else {
            first_clue(legal, legal.len() as int)
        }
    } else if e.decision.preferred is Some {
        e.decision.preferred
    } else if e.clue_tokens == MAX_CLUE_TOKENS {
        first_clue(legal, legal.len() as int)
    } else {
        e.agnostic_action
    }
}

fn action_listed(v: &Vec<Action>, a: Action) -> (b: bool)
    ensures
        b == v@.contains(a),
{
    let mut i: usize = 0;
    while i < v.len()
        invariant
            i <= v@.len(),
            forall|k: int| 0 <= k < i ==> v@[k] != a,
        decreases v@.len() - i,
    {
        if v[i] == a {
            assert(v@[i as int] == a);
            return true;
        }
        i = i + 1;
    }
    false
}

fn is_acceptable(e: &SelectionEvidence, a: Action) -> (b: bool)
    ensures
        b == acceptable(*e, a),
{
    let safe = match a {
        Action::Play(card) => list_contains(e.logically_playable.as_slice(), card) || (e.last_strike
            && list_contains(e.playable_now.as_slice(), card)),
        _ => true,
    };
    action_listed(&e.planning_safe, a) && safe
}

fn find_acceptable(e: &SelectionEvidence) -> (r: Option<Action>)
    ensures
        r == first_acceptable(*e, e.decision.actions@, e.decision.actions@.len() as int),
{
    let actions = &e.decision.actions;
    let mut i: usize = 0;
    while i < actions.len()
        invariant
            i <= actions@.len(),
            actions@ == e.decision.actions@,
            first_acceptable(*e, actions@, i as int) is None,
        decreases actions@.len() - i,
    {
        if is_acceptable(e, actions[i].action) {
            proof {
                lemma_first_acceptable_prefix(*e, actions@, i + 1);
            }
            return Some(actions[i].action);
        }
        i = i + 1;
    }
    None
}

proof fn lemma_first_acceptable_prefix(e: SelectionEvidence, actions: Seq<CompiledHGroupAction>, n: int)
    requires
        0 < n <= actions.len(),
        first_acceptable(e, actions, n) is Some,
    ensures
        first_acceptable(e, actions, actions.len() as int) == first_acceptable(e, actions, n),
    decreases actions.len() - n,
{
    if n < actions.len() {
        lemma_first_acceptable_prefix(e, actions, n + 1);
    }
}

fn find_free(hand: &Vec<CardId>, saved: &Vec<CardId>, gotten: &Vec<CardId>, fresh: bool) -> (r: Option<CardId>)
    ensures
        r == first_free(hand@, saved@, gotten@, fresh, hand@.len() as int),
{
    let mut i: usize = 0;
    while i < hand.len()
        invariant
            i <= hand@.len(),
            first_free(hand@, saved@, gotten@, fresh, i as int) is None,
        decreases hand@.len() - i,
    {
        let card = hand[i];
        if !list_contains(saved.as_slice(), card) && (!fresh || !list_contains(gotten.as_slice(), card)) {
            proof {
                lemma_first_free_prefix(hand@, saved@, gotten@, fresh, i + 1);
            }
            return Some(card);
        }
        i = i + 1;
    }
    None
}

proof fn lemma_first_free_prefix(hand: Seq<CardId>, saved: Seq<CardId>, gotten: Seq<CardId>, fresh: bool, n: int)
    requires
        0 < n <= hand.len(),
        first_free(hand, saved, gotten, fresh, n) is Some,
    ensures
        first_free(hand, saved, gotten, fresh, hand.len() as int) == first_free(hand, saved, gotten, fresh, n),
    decreases hand.len() - n,
{
    if n < hand.len() {
        lemma_first_free_prefix(hand, saved, gotten, fresh, n + 1);
    }
}

fn find_clue(legal: &Vec<Action>) -> (r: Option<Action>)
    ensures
        r == first_clue(legal@, legal@.len() as int),
{
    let mut i: usize = 0;
    while i < legal.len()
        invariant
            i <= legal@.len(),
            first_clue(legal@, i as int) is None,
        decreases legal@.len() - i,
    {
        let is_clue = match legal[i] {
            Action::Clue { .. } => true,
            _ => false,
        };
        if is_clue {
            proof {
                lemma_first_clue_prefix(legal@, i + 1);
            }
            return Some(legal[i]);
        }
        i = i + 1;
    }
    None
}

proof fn lemma_first_clue_prefix(legal: Seq<Action>, n: int)
    requires
        0 < n <= legal.len(),
        first_clue(legal, n) is Some,
    ensures
        first_clue(legal, legal.len() as int) == first_clue(legal, n),
    decreases legal.len() - n,
{
    if n < legal.len() {
        lemma_first_clue_prefix(legal, n + 1);
    }
}

/// The action the H-Group policy takes: its preferred action, or on the last
/// strike the best action that cannot misplay, then a safe discard.
pub fn select_h_group_action_from_analysis(e: &SelectionEvidence) -> (r: Option<Action>)
    ensures
        r == spec_selected_action(*e),
{
    if e.last_strike {
        let preferred = match e.decision.preferred {
            Some(a) => if is_acceptable(e, a) {
                Some(a)
            } else {
                None
            },
            None => None,
        };
        let chosen = match preferred {
            Some(a) => Some(a),
            None => find_acceptable(e),
        };
        if chosen.is_some() {
            return chosen;
        }
        if e.clue_tokens < MAX_CLUE_TOKENS {
            let first = match e.known_trash {
                Some(t) => Some(t),
                None => match e.chop {
                    Some(c) => if !list_contains(e.saved.as_slice(), c) {
                        Some(c)
                    } else {
                        None
                    },
                    None => None,
                },
            };
            let kept = match first {
                Some(c) => if !list_contains(e.saved.as_slice(), c) {
                    Some(c)
                } else {
                    None
                },
                None => None,
            };
            let discard = match kept {
                Some(c) => Some(c),
                None => match find_free(&e.own_hand, &e.saved, &e.gotten, true) {
                    Some(c) => Some(c),
                    None => find_free(&e.own_hand, &e.saved, &e.gotten, false),
                },
            };
            return match discard {
                Some(card) => Some(Action::Discard(card)),
                None => e.agnostic_action,
            };
        }
        return find_clue(&e.legal_actions);
    }
    if e.decision.preferred.is_some() {
        return e.decision.preferred;
    }
    if e.clue_tokens == MAX_CLUE_TOKENS {
        return find_clue(&e.legal_actions);
    }
    e.agnostic_action
}

/// On the last strike the policy never plays a card that might misplay: a
/// selected play is of a card that is certainly playable or that the
/// convention marks playable, or it came from the convention-agnostic policy.
pub proof fn lemma_last_strike_plays_are_safe(e: SelectionEvidence)
    requires
        e.last_strike,
        spec_selected_action(e) matches Some(Action::Play(card)),
        e.agnostic_action != spec_selected_action(e),
    ensures
        spec_selected_action(e) matches Some(Action::Play(card)) && (e.logically_playable@.contains(card)
            || e.playable_now@.contains(card)),
{
    let actions = e.decision.actions@;
    if !(e.decision.preferred matches Some(a) && acceptable(e, a)) {
        lemma_first_acceptable_is_acceptable(e, actions, actions.len() as int);
    }
    if first_clue(e.legal_actions@, e.legal_actions@.len() as int) is Some {
        lemma_first_clue_is_clue(e.legal_actions@, e.legal_actions@.len() as int);
    }
}

proof fn lemma_first_acceptable_is_acceptable(e: SelectionEvidence, actions: Seq<CompiledHGroupAction>, n: int)
    ensures
        first_acceptable(e, actions, n) matches Some(a) ==> acceptable(e, a),
    decreases n,
{
    if n > 0 {
        lemma_first_acceptable_is_acceptable(e, actions, n - 1);
    }
}

proof fn lemma_first_clue_is_clue(legal: Seq<Action>, n: int)
    ensures
        first_clue(legal, n) matches Some(a) ==> a is Clue,
    decreases n,
{
    if n > 0 {
        lemma_first_clue_is_clue(legal, n - 1);
    }
}

/// No analysed action may be taken on the last strike when none is both
/// judged safe by the planner and certain not to misplay.
proof fn lemma_none_acceptable(e: SelectionEvidence, actions: Seq<CompiledHGroupAction>, n: int)
    requires
        n <= actions.len(),
        forall|k: int|
            0 <= k < actions.len() ==> !(e.planning_safe@.contains((#[trigger] actions[k]).action) && (
            actions[k].action matches Action::Play(card) ==> e.logically_playable@.contains(card)
                || e.playable_now@.contains(card))),
    ensures
        first_acceptable(e, actions, n) is None,
    decreases n,
{
    if n > 0 {
        lemma_none_acceptable(e, actions, n - 1);
        assert(!(e.planning_safe@.contains(actions[n - 1].action) && (actions[n - 1].action matches Action::Play(
            card,
        ) ==> e.logically_playable@.contains(card) || e.playable_now@.contains(card))));
    }
}

/// On the last strike, with no analysed action safe to take and clue tokens
/// to regain, the policy discards the known trash when it is not saved, and
/// otherwise, with no known trash, the unsaved chop.
pub proof fn lemma_last_strike_discards_trash_first(e: SelectionEvidence)
    requires
        e.last_strike,
        e.clue_tokens < MAX_CLUE_TOKENS,
        e.decision.preferred matches Some(a) ==> !(e.planning_safe@.contains(a) && (a matches Action::Play(
            card,
        ) ==> e.logically_playable@.contains(card) || e.playable_now@.contains(card))),
        forall|k: int|
            0 <= k < e.decision.actions@.len() ==> !(e.planning_safe@.contains(
                (#[trigger] e.decision.actions@[k]).action,
            ) && (e.decision.actions@[k].action matches Action::Play(card) ==> e.logically_playable@.contains(
                card,
            ) || e.playable_now@.contains(card))),
    ensures
        e.known_trash is Some && !e.saved@.contains(e.known_trash->0) ==> spec_selected_action(e) == Some(
            Action::Discard(e.known_trash->0),
        ),
        e.known_trash is None && e.chop is Some && !e.saved@.contains(e.chop->0) ==> spec_selected_action(e)
            == Some(Action::Discard(e.chop->0)),
{
    lemma_none_acceptable(e, e.decision.actions@, e.decision.actions@.len() as int);
}

} // verus!
