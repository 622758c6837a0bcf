//! The ordered H-Group action list of the current player: the convention's
//! candidate actions, filtered by the Early Game, legality and End Game
//! rules and ranked by their raw priorities, with the emergency fallbacks
//! when no candidate remains.
//! <https://hanabi.github.io/level-1/#the-early-game>

use vstd::prelude::*;

use crate::cards::{Action, CardId, PlayerId};
use crate::h_group::decision::{
    raw_h_group_action_priority, raw_priority, ClueAdjustmentEvidence, PriorityEvidence,
};
use crate::h_group::hand::list_contains;

verus! {

/// A clue candidate as the ordering reads it.
#[derive(Clone, Copy, Debug, PartialEq, Eq)]
pub struct ClueOption {
    pub action: Action,
    pub score: u16,
    pub target: PlayerId,
    /// The clue is a Play Clue or a Save Clue, so it would extinguish the
    /// Early Game if it were left ungiven.
    pub play_or_save: bool,
}

/// What the priority rules read about one action.
#[derive(Clone, Copy, Debug, PartialEq, Eq)]
pub struct ActionEvidence {
    pub action: Action,
    pub priority: PriorityEvidence,
    pub adjustment: ClueAdjustmentEvidence,
}

/// How damaging a clue would be as the only clue on the first turn: the
/// damage comes first (less is better), then two tie-breaks where more is
/// better.
#[derive(Clone, Copy, Debug, PartialEq, Eq)]
pub struct DamageKey {
    pub damage: u64,
    pub first_tie_break: u64,
    pub second_tie_break: u64,
}

/// What the convention analysis established for the current player, as the
/// ordering reads it.
pub struct OrderingEvidence {
    /// The legal actions of the current player, in their canonical order.
    pub legal_actions: Vec<Action>,
    /// The convention's clue candidates.
    pub clue_candidates: Vec<ClueOption>,
    /// The 5 Stalls the team must give before the first unknown chop
    /// discard, when one is due.
    pub required_first_five_stall: Option<Vec<Action>>,
    /// The current player must give a clue.
    pub must_clue: bool,
    /// The actions a live connection admits, when one constrains the player.
    pub connection_actions: Option<Vec<Action>>,
    /// The player who may discard with permission, if any.
    pub permission_to_discard_target: Option<PlayerId>,
    pub early_game: bool,
    pub end_game: bool,
    /// Cards the convention requires discarding now.
    pub discard_now: Vec<CardId>,
    /// Whether the player has a card playable now.
    pub has_playable: bool,
    /// The player's playable cards, in play order.
    pub ordered_playable: Vec<CardId>,
    /// The chosen discard candidate, if any.
    pub scored_discard: Option<CardId>,
    /// The focus of a fresh Trash Chop Move on the player, if any.
    pub fresh_trash_chop_move_focus: Option<CardId>,
    /// The Gentleman's Discard transfer card, if any.
    pub transfer: Option<CardId>,
    pub ordinary_chop: Option<CardId>,
    /// The convention's known-trash discard, if any.
    pub known_trash: Option<CardId>,
    /// Cards whose positional discard would be valid.
    pub positional_valid: Vec<CardId>,
    /// Priority evidence per action; an action without evidence has the
    /// priority of an action the rules say nothing about.
    pub evidence: Vec<ActionEvidence>,
    /// Fewer than the maximum number of clue tokens are available.
    pub clue_tokens_below_max: bool,
    /// The deck holds no more cards than there are players.
    pub deck_at_most_players: bool,
    /// The player's hand, oldest first.
    pub own_hand: Vec<CardId>,
    /// Cards the player has gotten.
    pub gotten: Vec<CardId>,
    /// Cards that are saved.
    pub saved: Vec<CardId>,
    /// The game is at its first turn under the Max profile.
    pub first_turn_at_max: bool,
    /// The first-turn damage of each legal action, aligned with
    /// `legal_actions`; only clues are read.
    pub first_turn_damage: Vec<DamageKey>,
}

// ---------------------------------------------------------------------------
// Stable orders, best first.

/// Where a clue of score `k` goes in a list ordered best first: after every
/// clue scoring at least as much.
pub open spec fn clue_position(t: Seq<ClueOption>, k: u16) -> int
    decreases t.len(),
{
    if t.len() == 0 {
        0
    } else if t.last().score >= k {
        t.len() as int
    } else {
        clue_position(t.drop_last(), k)
    }
}

/// The clues ordered by score, best first, equal scores in their order.
pub open spec fn clues_by_score(s: Seq<ClueOption>) -> Seq<ClueOption>
    decreases s.len(),
{
    if s.len() == 0 {
        s
    } else {
        let t = clues_by_score(s.drop_last());
        let p = clue_position(t, s.last().score);
        t.take(p).push(s.last()) + t.skip(p)
    }
}

proof fn lemma_clue_position_bounds(t: Seq<ClueOption>, k: u16)
    ensures
        0 <= clue_position(t, k) <= t.len(),
    decreases t.len(),
{
    if t.len() > 0 {
        lemma_clue_position_bounds(t.drop_last(), k);
    }
}

fn insert_clue(v: &mut Vec<ClueOption>, x: ClueOption)
    ensures
        ({
            let p = clue_position(old(v)@, x.score);
            final(v)@ == old(v)@.take(p).push(x) + old(v)@.skip(p)
        }),
{
    let mut p = v.len();
    proof {
        assert(v@.take(p as int) =~= v@);
    }
    while p > 0 && v[p - 1].score < x.score
        invariant
            p <= v@.len(),
            clue_position(v@, x.score) == clue_position(v@.take(p as int), x.score),
        decreases p,
    {
        proof {
            assert(v@.take(p as int).drop_last() =~= v@.take(p - 1));
        }
        p = p - 1;
    }
    proof {
        if p > 0 {
            assert(v@.take(p as int).last() == v@[p - 1]);
        }
        assert(v@.take(0) =~= Seq::<ClueOption>::empty());
    }
    let ghost before = v@;
    v.insert(p, x);
    proof {
        assert(v@ =~= before.take(p as int).push(x) + before.skip(p as int));
    }
}

fn sort_clues(s: &Vec<ClueOption>) -> (r: Vec<ClueOption>)
    ensures
        r@ == clues_by_score(s@),
{
    let mut r: Vec<ClueOption> = Vec::new();
    let mut i: usize = 0;
    while i < s.len()
        invariant
            i <= s@.len(),
            r@ == clues_by_score(s@.take(i as int)),
        decreases s@.len() - i,
    {
        proof {
            assert(s@.take(i + 1).drop_last() =~= s@.take(i as int));
        }
        insert_clue(&mut r, s[i]);
        i = i + 1;
    }
    proof {
        assert(s@.take(i as int) =~= s@);
    }
    r
}

/// Where an action of priority `k` goes in a list ordered best first.
pub open spec fn ranked_position(t: Seq<(Action, i32)>, k: i32) -> int
    decreases t.len(),
{
    if t.len() == 0 {
        0
    } else if t.last().1 >= k {
        t.len() as int
    } else {
        ranked_position(t.drop_last(), k)
    }
}

/// The actions ordered by priority, highest first, equal priorities in their
/// order.
pub open spec fn by_priority(s: Seq<(Action, i32)>) -> Seq<(Action, i32)>
    decreases s.len(),
{
    if s.len() == 0 {
        s
    } else {
        let t = by_priority(s.drop_last());
        let p = ranked_position(t, s.last().1);
        t.take(p).push(s.last()) + t.skip(p)
    }
}

fn insert_ranked(v: &mut Vec<(Action, i32)>, x: (Action, i32))
    ensures
        ({
            let p = ranked_position(old(v)@, x.1);
            final(v)@ == old(v)@.take(p).push(x) + old(v)@.skip(p)
        }),
{
    let mut p = v.len();
    proof {
        assert(v@.take(p as int) =~= v@);
    }
    while p > 0 && v[p - 1].1 < x.1
        invariant
            p <= v@.len(),
            ranked_position(v@, x.1) == ranked_position(v@.take(p as int), x.1),
        decreases p,
    {
        proof {
            assert(v@.take(p as int).drop_last() =~= v@.take(p - 1));
        }
        p = p - 1;
    }
    proof {
        if p > 0 {
            assert(v@.take(p as int).last() == v@[p - 1]);
        }
        assert(v@.take(0) =~= Seq::<(Action, i32)>::empty());
    }
    let ghost before = v@;
    v.insert(p, x);
    proof {
        assert(v@ =~= before.take(p as int).push(x) + before.skip(p as int));
    }
}

fn sort_ranked(s: &Vec<(Action, i32)>) -> (r: Vec<(Action, i32)>)
    ensures
        r@ == by_priority(s@),
{
    let mut r: Vec<(Action, i32)> = Vec::new();
    let mut i: usize = 0;
    while i < s.len()
        invariant
            i <= s@.len(),
            r@ == by_priority(s@.take(i as int)),
        decreases s@.len() - i,
    {
        proof {
            assert(s@.take(i + 1).drop_last() =~= s@.take(i as int));
        }
        insert_ranked(&mut r, s[i]);
        i = i + 1;
    }
    proof {
        assert(s@.take(i as int) =~= s@);
    }
    r
}

// ---------------------------------------------------------------------------
// Filters and maps.

/// The clues whose action is listed in `required`.
pub open spec fn required_clues(s: Seq<ClueOption>, required: Seq<Action>) -> Seq<ClueOption>
    decreases s.len(),
{
    if s.len() == 0 {
        s
    } else {
        let rest = required_clues(s.drop_last(), required);
        if required.contains(s.last().action) {
            rest.push(s.last())
        } else {
            rest
        }
    }
}

/// The actions of `s`.
pub open spec fn clue_actions(s: Seq<ClueOption>) -> Seq<Action> {
    Seq::new(s.len(), |i: int| s[i].action)
}

/// Discards of `cards`.
pub open spec fn discards(cards: Seq<CardId>) -> Seq<Action> {
    Seq::new(cards.len(), |i: int| Action::Discard(cards[i]))
}

/// Plays of `cards`.
pub open spec fn plays(cards: Seq<CardId>) -> Seq<Action> {
    Seq::new(cards.len(), |i: int| Action::Play(cards[i]))
}

/// Whether some clue would extinguish the Early Game: a Play or Save Clue to
/// someone other than the player with permission to discard.
pub open spec fn has_extinguishing_clue(s: Seq<ClueOption>, permission: Option<PlayerId>) -> bool {
    exists|i: int| 0 <= i < s.len() && (#[trigger] s[i]).play_or_save && Some(s[i].target) != permission
}

/// Whether `a` survives the Early Game rule: only the transfer card or the
/// focus of a fresh Trash Chop Move may be discarded.
pub open spec fn early_game_keeps(a: Action, transfer: Option<CardId>, fresh: Option<CardId>) -> bool {
    match a {
        Action::Discard(card) => transfer == Some(card) || fresh == Some(card),
        _ => true,
    }
}

/// Whether `a` survives the End Game rule: a discard must be the ordinary
/// chop, the known trash, or a valid positional discard.
pub open spec fn end_game_keeps(
    a: Action,
    chop: Option<CardId>,
    trash: Option<CardId>,
    positional: Seq<CardId>,
) -> bool {
    match a {
        Action::Discard(card) => chop == Some(card) || trash == Some(card) || positional.contains(card),
        _ => true,
    }
}

/// The actions of `s` that the Early Game rule keeps.
pub open spec fn early_game_filter(s: Seq<Action>, transfer: Option<CardId>, fresh: Option<CardId>) -> Seq<Action>
    decreases s.len(),
{
    if s.len() == 0 {
        s
    } else {
        let rest = early_game_filter(s.drop_last(), transfer, fresh);
        if early_game_keeps(s.last(), transfer, fresh) {
            rest.push(s.last())
        } else {
            rest
        }
    }
}

/// The actions of `s` that the End Game rule keeps.
pub open spec fn end_game_filter(
    s: Seq<Action>,
    chop: Option<CardId>,
    trash: Option<CardId>,
    positional: Seq<CardId>,
) -> Seq<Action>
    decreases s.len(),
{
    if s.len() == 0 {
        s
    } else {
        let rest = end_game_filter(s.drop_last(), chop, trash, positional);
        if end_game_keeps(s.last(), chop, trash, positional) {
            rest.push(s.last())
        } else {
            rest
        }
    }
}

/// The actions of `s` that are listed in `legal`.
pub open spec fn legal_filter(s: Seq<Action>, legal: Seq<Action>) -> Seq<Action>
    decreases s.len(),
{
    if s.len() == 0 {
        s
    } else {
        let rest = legal_filter(s.drop_last(), legal);
        if legal.contains(s.last()) {
            rest.push(s.last())
        } else {
            rest
        }
    }
}

/// `s` with every run of equal consecutive actions reduced to one.
pub open spec fn dedup_runs(s: Seq<Action>) -> Seq<Action>
    decreases s.len(),
{
    if s.len() == 0 {
        s
    } else {
        let rest = dedup_runs(s.drop_last());
        if rest.len() > 0 && rest.last() == s.last() {
            rest
        } else {
            rest.push(s.last())
        }
    }
}

// ---------------------------------------------------------------------------
// Priorities.

/// The first evidence recorded for `a`.
pub open spec fn evidence_for(s: Seq<ActionEvidence>, a: Action) -> Option<ActionEvidence>
    decreases s.len(),
{
    if s.len() == 0 {
        None
    } else {
        let earlier = evidence_for(s.drop_last(), a);
        if earlier is Some {
            earlier
        } else if s.last().action == a {
            Some(s.last())
        } else {
            None
        }
    }
}

/// The raw priority of `a`: from its evidence, or 25 for an action the
/// rules say nothing about.
pub open spec fn priority_of(s: Seq<ActionEvidence>, a: Action) -> int {
    match evidence_for(s, a) {
        Some(e) => raw_priority(e.priority, e.adjustment),
        None => 25,
    }
}

/// Every evidence meets the bounds of the priority arithmetic.
pub open spec fn evidence_in_range(s: Seq<ActionEvidence>) -> bool {
    forall|i: int|
        0 <= i < s.len() ==> {
            let e = #[trigger] s[i];
            &&& e.adjustment.useful_touched <= i32::MAX - 550
            &&& e.priority.endgame_progress matches Some(progress) ==> i32::MIN <= 101
                + progress.discard_threshold <= i32::MAX && i32::MIN <= 101 + progress.discard_threshold
                + progress.clue_value <= i32::MAX
        }
}

/// The actions paired with their priorities.
pub open spec fn with_priorities(s: Seq<Action>, evidence: Seq<ActionEvidence>) -> Seq<(Action, i32)> {
    Seq::new(s.len(), |i: int| (s[i], priority_of(evidence, s[i]) as i32))
}

/// The actions of ranked pairs.
pub open spec fn ranked_actions(s: Seq<(Action, i32)>) -> Seq<Action> {
    Seq::new(s.len(), |i: int| s[i].0)
}

// ---------------------------------------------------------------------------
// The ordering.

/// Whether `a` is strictly less damaging than `b`.
pub open spec fn less_damaging(a: DamageKey, b: DamageKey) -> bool {
    a.damage < b.damage || (a.damage == b.damage && (a.first_tie_break > b.first_tie_break || (
    a.first_tie_break == b.first_tie_break && a.second_tie_break > b.second_tie_break)))
}

/// The least damaging clue among the first `n` legal actions, the earliest
/// among equals.
pub open spec fn least_damaging_clue(legal: Seq<Action>, damage: Seq<DamageKey>, n: int) -> Option<int>
    decreases n,
{
    if n <= 0 {
        None
    } else {
        let best = least_damaging_clue(legal, damage, n - 1);
        if legal[n - 1] is Clue && (best is None || less_damaging(damage[n - 1], damage[best->0])) {
            Some(n - 1)
        } else {
            best
        }
    }
}

/// The emergency action when no convention candidate remains.
pub open spec fn fallback_actions(e: OrderingEvidence) -> Seq<Action> {
    let hand = e.own_hand@;
    let below = e.clue_tokens_below_max;
    let unsaved_chop = e.ordinary_chop matches Some(chop) && !e.saved@.contains(chop);
    let forced = first_forced_discard(hand, e.gotten@, e.saved@, e.positional_valid@);
    if below && (e.known_trash matches Some(t) && e.gotten@.contains(t)) {
        seq![Action::Discard(e.known_trash->0)]
    } else if below && unsaved_chop {
        seq![Action::Discard(e.ordinary_chop->0)]
    } else if below && e.deck_at_most_players && forced is Some {
        seq![Action::Discard(forced->0)]
    } else if e.first_turn_at_max && least_damaging_clue(
        e.legal_actions@,
        e.first_turn_damage@,
        e.legal_actions@.len() as int,
    ) is Some {
        seq![
            e.legal_actions@[least_damaging_clue(
                e.legal_actions@,
                e.first_turn_damage@,
                e.legal_actions@.len() as int,
            )->0],
        ]
    } else if below && hand.len() > 0 {
        seq![Action::Discard(hand[0])]
    } else if hand.len() > 0 {
        seq![Action::Play(hand.last())]
    } else {
        Seq::empty()
    }
}

/// The first card of the hand that is neither gotten nor saved and whose
/// positional discard is valid.
pub open spec fn first_forced_discard(
    hand: Seq<CardId>,
    gotten: Seq<CardId>,
    saved: Seq<CardId>,
    positional: Seq<CardId>,
) -> Option<CardId>
    decreases hand.len(),
{
    if hand.len() == 0 {
        None
    } else {
        let earlier = first_forced_discard(hand.drop_last(), gotten, saved, positional);
        if earlier is Some {
            earlier
        } else if !gotten.contains(hand.last()) && !saved.contains(hand.last()) && positional.contains(
            hand.last(),
        ) {
            Some(hand.last())
        } else {
            None
        }
    }
}

/// The clue candidates the ordering ranks: best first, restricted to the
/// due 5 Stalls when one is.
pub open spec fn ranked_clues(e: OrderingEvidence) -> Seq<ClueOption> {
    let sorted = clues_by_score(e.clue_candidates@);
    match e.required_first_five_stall {
        Some(required) => required_clues(sorted, required@),
        None => sorted,
    }
}

/// Whether a clue would extinguish the Early Game, so that ordinary discards
/// are withheld.
pub open spec fn extinguishing(e: OrderingEvidence) -> bool {
    e.required_first_five_stall is Some || (e.early_game && e.discard_now@.len() == 0 && !e.has_playable
        && has_extinguishing_clue(ranked_clues(e), e.permission_to_discard_target))
}

/// The convention's candidate actions before the legality and End Game
/// filters: required discards, plays in order, the chosen discard unless the
/// Early Game withholds it, then the clues.
pub open spec fn candidate_actions(e: OrderingEvidence) -> Seq<Action> {
    let clues = ranked_clues(e);
    let ext = extinguishing(e);
    let scored = match e.scored_discard {
        Some(card) => if !ext || e.fresh_trash_chop_move_focus == Some(card) {
            seq![Action::Discard(card)]
        } else {
            Seq::empty()
        },
        None => Seq::empty(),
    };
    let all = discards(e.discard_now@) + plays(e.ordered_playable@) + scored + clue_actions(clues);
    if ext {
        early_game_filter(all, e.transfer, e.fresh_trash_chop_move_focus)
    } else {
        all
    }
}

/// The candidate actions that are legal and, in the End Game, not an
/// ordinary discard.
pub open spec fn admitted_actions(e: OrderingEvidence) -> Seq<Action> {
    let legal = legal_filter(dedup_runs(candidate_actions(e)), e.legal_actions@);
    if e.end_game {
        end_game_filter(legal, e.ordinary_chop, e.known_trash, e.positional_valid@)
    } else {
        legal
    }
}

/// The ordered actions of the current player.
pub open spec fn spec_ordered_actions(e: OrderingEvidence) -> Seq<Action> {
    let clues = ranked_clues(e);
    if e.legal_actions@.len() == 0 {
        Seq::empty()
    } else if e.must_clue && clues.len() > 0 {
        clue_actions(clues)
    } else if e.connection_actions is Some {
        e.connection_actions->0@
    } else if admitted_actions(e).len() > 0 {
        ranked_actions(by_priority(with_priorities(admitted_actions(e), e.evidence@)))
    } else {
        fallback_actions(e)
    }
}

// ---------------------------------------------------------------------------
// Executable pieces.

fn action_listed(v: &Vec<Action>, a: Action) -> (b: bool)
    ensures
        b == v@.contains(a),
{
    let mut i: usize = 0;
    while i < v.len()
        invariant
            i <= v@.len(),
            forall|k: int| 0 <= k < i ==> v@[k] != a,
        decreases v@.len() - i,
    {
        if v[i] == a {
            assert(v@[i as int] == a);
            return true;
        }
        i = i + 1;
    }
    false
}

fn keep_required(s: &Vec<ClueOption>, required: &Vec<Action>) -> (r: Vec<ClueOption>)
    ensures
        r@ == required_clues(s@, required@),
{
    let mut r: Vec<ClueOption> = Vec::new();
    let mut i: usize = 0;
    while i < s.len()
        invariant
            i <= s@.len(),
            r@ == required_clues(s@.take(i as int), required@),
        decreases s@.len() - i,
    {
        proof {
            assert(s@.take(i + 1).drop_last() =~= s@.take(i as int));
        }
        if action_listed(required, s[i].action) {
            r.push(s[i]);
        }
        i = i + 1;
    }
    proof {
        assert(s@.take(i as int) =~= s@);
    }
    r
}

fn push_clue_actions(out: &mut Vec<Action>, s: &Vec<ClueOption>)
    ensures
        final(out)@ == old(out)@ + clue_actions(s@),
{
    let ghost start = out@;
    let mut i: usize = 0;
    while i < s.len()
        invariant
            i <= s@.len(),
            out@ == start + clue_actions(s@.take(i as int)),
        decreases s@.len() - i,
    {
        out.push(s[i].action);
        i = i + 1;
        proof {
            assert(out@ =~= start + clue_actions(s@.take(i as int)));
        }
    }
    proof {
        assert(s@.take(i as int) =~= s@);
    }
}

fn push_cards(out: &mut Vec<Action>, cards: &Vec<CardId>, play: bool)
    ensures
        final(out)@ == old(out)@ + if play {
            plays(cards@)
        } else {
            discards(cards@)
        },
{
    let ghost start = out@;
    let mut i: usize = 0;
    while i < cards.len()
        invariant
            i <= cards@.len(),
            out@ == start + if play {
                plays(cards@.take(i as int))
            } else {
                discards(cards@.take(i as int))
            },
        decreases cards@.len() - i,
    {
        if play {
            out.push(Action::Play(cards[i]));
        } else {
            out.push(Action::Discard(cards[i]));
        }
        i = i + 1;
        proof {
            assert(plays(cards@.take(i as int)) =~= plays(cards@.take(i - 1)).push(Action::Play(cards@[i - 1])));
            assert(discards(cards@.take(i as int)) =~= discards(cards@.take(i - 1)).push(
                Action::Discard(cards@[i - 1]),
            ));
        }
    }
    proof {
        assert(cards@.take(i as int) =~= cards@);
    }
}

fn any_extinguishing(s: &Vec<ClueOption>, permission: Option<PlayerId>) -> (b: bool)
    ensures
        b == has_extinguishing_clue(s@, permission),
{
    let mut i: usize = 0;
    while i < s.len()
        invariant
            i <= s@.len(),
            forall|k: int| 0 <= k < i ==> !((#[trigger] s@[k]).play_or_save && Some(s@[k].target) != permission),
        decreases s@.len() - i,
    {
        if s[i].play_or_save && Some(s[i].target) != permission {
            assert(s@[i as int].play_or_save);
            return true;
        }
        i = i + 1;
    }
    false
}

fn filter_early_game(s: &Vec<Action>, transfer: Option<CardId>, fresh: Option<CardId>) -> (r: Vec<Action>)
    ensures
        r@ == early_game_filter(s@, transfer, fresh),
{
    let mut r: Vec<Action> = Vec::new();
    let mut i: usize = 0;
    while i < s.len()
        invariant
            i <= s@.len(),
            r@ == early_game_filter(s@.take(i as int), transfer, fresh),
        decreases s@.len() - i,
    {
        proof {
            assert(s@.take(i + 1).drop_last() =~= s@.take(i as int));
        }
        let keep = match s[i] {
            Action::Discard(card) => transfer == Some(card) || fresh == Some(card),
            _ => true,
        };
        if keep {
            r.push(s[i]);
        }
        i = i + 1;
    }
    proof {
        assert(s@.take(i as int) =~= s@);
    }
    r
}

fn filter_end_game(
    s: &Vec<Action>,
    chop: Option<CardId>,
    trash: Option<CardId>,
    positional: &Vec<CardId>,
) -> (r: Vec<Action>)
    ensures
        r@ == end_game_filter(s@, chop, trash, positional@),
{
    let mut r: Vec<Action> = Vec::new();
    let mut i: usize = 0;
    while i < s.len()
        invariant
            i <= s@.len(),
            r@ == end_game_filter(s@.take(i as int), chop, trash, positional@),
        decreases s@.len() - i,
    {
        proof {
            assert(s@.take(i + 1).drop_last() =~= s@.take(i as int));
        }
        let keep = match s[i] {
            Action::Discard(card) => chop == Some(card) || trash == Some(card) || list_contains(
                positional.as_slice(),
                card,
            ),
            _ => true,
        };
        if keep {
            r.push(s[i]);
        }
        i = i + 1;
    }
    proof {
        assert(s@.take(i as int) =~= s@);
    }
    r
}

fn filter_legal(s: &Vec<Action>, legal: &Vec<Action>) -> (r: Vec<Action>)
    ensures
        r@ == legal_filter(s@, legal@),
{
    let mut r: Vec<Action> = Vec::new();
    let mut i: usize = 0;
    while i < s.len()
        invariant
            i <= s@.len(),
            r@ == legal_filter(s@.take(i as int), legal@),
        decreases s@.len() - i,
    {
        proof {
            assert(s@.take(i + 1).drop_last() =~= s@.take(i as int));
        }
        if action_listed(legal, s[i]) {
            r.push(s[i]);
        }
        i = i + 1;
    }
    proof {
        assert(s@.take(i as int) =~= s@);
    }
    r
}

fn dedup_actions(s: &Vec<Action>) -> (r: Vec<Action>)
    ensures
        r@ == dedup_runs(s@),
{
    let mut r: Vec<Action> = Vec::new();
    let mut i: usize = 0;
    while i < s.len()
        invariant
            i <= s@.len(),
            r@ == dedup_runs(s@.take(i as int)),
        decreases s@.len() - i,
    {
        proof {
            assert(s@.take(i + 1).drop_last() =~= s@.take(i as int));
        }
        if r.len() == 0 || r[r.len() - 1] != s[i] {
            r.push(s[i]);
        }
        i = i + 1;
    }
    proof {
        assert(s@.take(i as int) =~= s@);
    }
    r
}

fn find_evidence(s: &Vec<ActionEvidence>, a: Action) -> (r: Option<ActionEvidence>)
    ensures
        r == evidence_for(s@, a),
{
    let mut i: usize = 0;
    while i < s.len()
        invariant
            i <= s@.len(),
            evidence_for(s@.take(i as int), a) is None,
        decreases s@.len() - i,
    {
        proof {
            assert(s@.take(i + 1).drop_last() =~= s@.take(i as int));
        }
        if s[i].action == a {
            proof {
                lemma_evidence_prefix(s@, a, i + 1);
            }
            return Some(s[i]);
        }
        i = i + 1;
    }
    proof {
        assert(s@.take(i as int) =~= s@);
    }
    None
}

/// A match found in a prefix is the first match of the whole list.
proof fn lemma_evidence_prefix(s: Seq<ActionEvidence>, a: Action, n: int)
    requires
        0 < n <= s.len(),
        evidence_for(s.take(n), a) is Some,
    ensures
        evidence_for(s, a) == evidence_for(s.take(n), a),
    decreases s.len() - n,
{
    if n < s.len() {
        assert(s.take(n + 1).drop_last() =~= s.take(n));
        lemma_evidence_prefix(s, a, n + 1);
    } else {
        assert(s.take(n) =~= s);
    }
}

proof fn lemma_evidence_in_range(s: Seq<ActionEvidence>, a: Action, n: int)
    requires
        evidence_in_range(s),
        0 <= n <= s.len(),
        evidence_for(s.take(n), a) is Some,
    ensures
        ({
            let e = evidence_for(s.take(n), a)->0;
            &&& e.adjustment.useful_touched <= i32::MAX - 550
            &&& e.priority.endgame_progress matches Some(progress) ==> i32::MIN <= 101
                + progress.discard_threshold <= i32::MAX && i32::MIN <= 101 + progress.discard_threshold
                + progress.clue_value <= i32::MAX
        }),
    decreases n,
{
    let t = s.take(n);
    assert(t.drop_last() =~= s.take(n - 1));
    if evidence_for(t.drop_last(), a) is Some {
        lemma_evidence_in_range(s, a, n - 1);
    } else {
        assert(t.last() == s[n - 1]);
    }
}

fn priority_for(s: &Vec<ActionEvidence>, a: Action) -> (p: i32)
    requires
        evidence_in_range(s@),
    ensures
        p == priority_of(s@, a),
{
    match find_evidence(s, a) {
        Some(e) => {
            proof {
                assert(s@.take(s@.len() as int) =~= s@);
                lemma_evidence_in_range(s@, a, s@.len() as int);
            }
            raw_h_group_action_priority(&e.priority, &e.adjustment)
        },
        None => 25,
    }
}

fn rank_actions(s: &Vec<Action>, evidence: &Vec<ActionEvidence>) -> (r: Vec<Action>)
    requires
        evidence_in_range(evidence@),
    ensures
        r@ == ranked_actions(by_priority(with_priorities(s@, evidence@))),
{
    let mut pairs: Vec<(Action, i32)> = Vec::new();
    let mut i: usize = 0;
    while i < s.len()
        invariant
            i <= s@.len(),
            evidence_in_range(evidence@),
            pairs@ =~= with_priorities(s@.take(i as int), evidence@),
        decreases s@.len() - i,
    {
        let p = priority_for(evidence, s[i]);
        pairs.push((s[i], p));
        i = i + 1;
        proof {
            assert(pairs@ =~= with_priorities(s@.take(i as int), evidence@));
        }
    }
    proof {
        assert(s@.take(i as int) =~= s@);
    }
    let sorted = sort_ranked(&pairs);
    let mut r: Vec<Action> = Vec::new();
    let mut k: usize = 0;
    while k < sorted.len()
        invariant
            k <= sorted@.len(),
            r@ =~= ranked_actions(sorted@.take(k as int)),
        decreases sorted@.len() - k,
    {
        r.push(sorted[k].0);
        k = k + 1;
        proof {
            assert(r@ =~= ranked_actions(sorted@.take(k as int)));
        }
    }
    proof {
        assert(sorted@.take(k as int) =~= sorted@);
    }
    r
}

fn forced_discard(
    hand: &Vec<CardId>,
    gotten: &Vec<CardId>,
    saved: &Vec<CardId>,
    positional: &Vec<CardId>,
) -> (r: Option<CardId>)
    ensures
        r == first_forced_discard(hand@, gotten@, saved@, positional@),
{
    let mut i: usize = 0;
    while i < hand.len()
        invariant
            i <= hand@.len(),
            first_forced_discard(hand@.take(i as int), gotten@, saved@, positional@) is None,
        decreases hand@.len() - i,
    {
        proof {
            assert(hand@.take(i + 1).drop_last() =~= hand@.take(i as int));
        }
        let card = hand[i];
        if !list_contains(gotten.as_slice(), card) && !list_contains(saved.as_slice(), card)
            && list_contains(positional.as_slice(), card) {
            proof {
                lemma_forced_prefix(hand@, gotten@, saved@, positional@, i + 1);
            }
            return Some(card);
        }
        i = i + 1;
    }
    proof {
        assert(hand@.take(i as int) =~= hand@);
    }
    None
}

proof fn lemma_forced_prefix(
    hand: Seq<CardId>,
    gotten: Seq<CardId>,
    saved: Seq<CardId>,
    positional: Seq<CardId>,
    n: int,
)
    requires
        0 < n <= hand.len(),
        first_forced_discard(hand.take(n), gotten, saved, positional) is Some,
    ensures
        first_forced_discard(hand, gotten, saved, positional) == first_forced_discard(
            hand.take(n),
            gotten,
            saved,
            positional,
        ),
    decreases hand.len() - n,
{
    if n < hand.len() {
        assert(hand.take(n + 1).drop_last() =~= hand.take(n));
        lemma_forced_prefix(hand, gotten, saved, positional, n + 1);
    } else {
        assert(hand.take(n) =~= hand);
    }
}

fn least_damaging(legal: &Vec<Action>, damage: &Vec<DamageKey>) -> (r: Option<usize>)
    requires
        damage@.len() == legal@.len(),
    ensures
        r matches Some(i) ==> i < legal@.len() && least_damaging_clue(legal@, damage@, legal@.len() as int)
            == Some(i as int),
        r is None ==> least_damaging_clue(legal@, damage@, legal@.len() as int) is None,
{
    let mut best: Option<usize> = None;
    let mut i: usize = 0;
    while i < legal.len()
        invariant
            i <= legal@.len(),
            damage@.len() == legal@.len(),
            best matches Some(b) ==> b < i && least_damaging_clue(legal@, damage@, i as int) == Some(b as int),
            best is None ==> least_damaging_clue(legal@, damage@, i as int) is None,
        decreases legal@.len() - i,
    {
        let is_clue = match legal[i] {
            Action::Clue { .. } => true,
            _ => false,
        };
        if is_clue {
            match best {
                None => {
                    best = Some(i);
                },
                Some(b) => {
                    let x = damage[i];
                    let y = damage[b];
                    if x.damage < y.damage || (x.damage == y.damage && (x.first_tie_break > y.first_tie_break
                        || (x.first_tie_break == y.first_tie_break && x.second_tie_break
                        > y.second_tie_break))) {
                        best = Some(i);
                    }
                },
            }
        }
        i = i + 1;
    }
    best
}

/// The current player's ordered actions: the convention's candidates ranked
/// by priority, or the emergency fallback when none remains.
pub fn ordered_h_group_actions_from_analysis(e: &OrderingEvidence) -> (r: Vec<Action>)
    requires
        evidence_in_range(e.evidence@),
        e.first_turn_damage@.len() == e.legal_actions@.len(),
    ensures
        r@ == spec_ordered_actions(*e),
{
    if e.legal_actions.len() == 0 {
        return Vec::new();
    }
    let sorted = sort_clues(&e.clue_candidates);
    let clues = match &e.required_first_five_stall {
        Some(required) => keep_required(&sorted, required),
        None => sorted,
    };
    if e.must_clue && clues.len() > 0 {
        let mut out: Vec<Action> = Vec::new();
        push_clue_actions(&mut out, &clues);
        proof {
            assert(out@ =~= clue_actions(clues@));
        }
        return out;
    }
    match &e.connection_actions {
        Some(actions) => {
            return actions.clone();
        },
        None => {},
    }
    let ext = e.required_first_five_stall.is_some() || (e.early_game && e.discard_now.len() == 0
        && !e.has_playable && any_extinguishing(&clues, e.permission_to_discard_target));
    let mut all: Vec<Action> = Vec::new();
    push_cards(&mut all, &e.discard_now, false);
    push_cards(&mut all, &e.ordered_playable, true);
    let ghost before_scored = all@;
    match e.scored_discard {
        Some(card) => {
            if !ext || e.fresh_trash_chop_move_focus == Some(card) {
                all.push(Action::Discard(card));
            }
        },
        None => {},
    }
    push_clue_actions(&mut all, &clues);
    proof {
        let scored = match e.scored_discard {
            Some(card) => if !ext || e.fresh_trash_chop_move_focus == Some(card) {
                seq![Action::Discard(card)]
            } else {
                Seq::empty()
            },
            None => Seq::empty(),
        };
        assert(all@ =~= discards(e.discard_now@) + plays(e.ordered_playable@) + scored + clue_actions(clues@));
    }
    let candidates = if ext {
        filter_early_game(&all, e.transfer, e.fresh_trash_chop_move_focus)
    } else {
        all
    };
    let deduped = dedup_actions(&candidates);
    let legal = filter_legal(&deduped, &e.legal_actions);
    let admitted = if e.end_game {
        filter_end_game(&legal, e.ordinary_chop, e.known_trash, &e.positional_valid)
    } else {
        legal
    };
    if admitted.len() > 0 {
        return rank_actions(&admitted, &e.evidence);
    }
    let hand = &e.own_hand;
    if e.clue_tokens_below_max {
        match e.known_trash {
            Some(trash) => {
                if list_contains(e.gotten.as_slice(), trash) {
                    return vec![Action::Discard(trash)];
                }
            },
            None => {},
        }
    }
    if e.clue_tokens_below_max {
        match e.ordinary_chop {
            Some(chop) => {
                if !list_contains(e.saved.as_slice(), chop) {
                    return vec![Action::Discard(chop)];
                }
            },
            None => {},
        }
    }
    if e.clue_tokens_below_max && e.deck_at_most_players {
        match forced_discard(hand, &e.gotten, &e.saved, &e.positional_valid) {
            Some(card) => {
                return vec![Action::Discard(card)];
            },
            None => {},
        }
    }
    if e.first_turn_at_max {
        match least_damaging(&e.legal_actions, &e.first_turn_damage) {
            Some(i) => {
                return vec![e.legal_actions[i]];
            },
            None => {},
        }
    }
    if e.clue_tokens_below_max && hand.len() > 0 {
        return vec![Action::Discard(hand[0])];
    }
    if hand.len() > 0 {
        return vec![Action::Play(hand[hand.len() - 1])];
    }
    Vec::new()
}

/// Ranked pairs whose priorities do not increase.
pub open spec fn priorities_descend(t: Seq<(Action, i32)>) -> bool {
    forall|i: int, j: int| 0 <= i < j < t.len() ==> (#[trigger] t[i]).1 >= (#[trigger] t[j]).1
}

proof fn lemma_ranked_position(t: Seq<(Action, i32)>, k: i32)
    requires
        priorities_descend(t),
    ensures
        0 <= ranked_position(t, k) <= t.len(),
        forall|i: int| 0 <= i < ranked_position(t, k) ==> (#[trigger] t[i]).1 >= k,
        forall|i: int| ranked_position(t, k) <= i < t.len() ==> (#[trigger] t[i]).1 < k,
    decreases t.len(),
{
    if t.len() > 0 {
        let d = t.drop_last();
        assert(priorities_descend(d)) by {
            assert forall|i: int, j: int| 0 <= i < j < d.len() implies (#[trigger] d[i]).1 >= (#[trigger] d[j]).1 by {
                assert(t[i].1 >= t[j].1);
            }
        }
        lemma_ranked_position(d, k);
        if t.last().1 >= k {
            assert forall|i: int| 0 <= i < t.len() implies (#[trigger] t[i]).1 >= k by {
                if i < t.len() - 1 {
                    assert(t[i].1 >= t[t.len() - 1].1);
                }
            }
        } else {
            assert forall|i: int| 0 <= i < ranked_position(t, k) implies (#[trigger] t[i]).1 >= k by {
                assert(d[i] == t[i]);
            }
            assert forall|i: int| ranked_position(t, k) <= i < t.len() implies (#[trigger] t[i]).1 < k by {
                if i < t.len() - 1 {
                    assert(d[i] == t[i]);
                }
            }
        }
    }
}

/// Ordering by priority keeps exactly the ranked pairs, highest priority
/// first.
pub proof fn lemma_by_priority(s: Seq<(Action, i32)>)
    ensures
        by_priority(s).len() == s.len(),
        priorities_descend(by_priority(s)),
        by_priority(s).to_multiset() == s.to_multiset(),
    decreases s.len(),
{
    broadcast use vstd::seq_lib::group_to_multiset_ensures;

    if s.len() > 0 {
        let d = s.drop_last();
        lemma_by_priority(d);
        let t = by_priority(d);
        let x = s.last();
        lemma_ranked_position(t, x.1);
        let p = ranked_position(t, x.1);
        let r = t.take(p).push(x) + t.skip(p);
        assert forall|i: int, j: int| 0 <= i < j < r.len() implies (#[trigger] r[i]).1 >= (#[trigger] r[j]).1 by {
            if i < p {
                assert(r[i] == t[i]);
                if j < p {
                    assert(r[j] == t[j]);
                } else if j > p {
                    assert(r[j] == t[j - 1]);
                }
            } else if i == p {
                assert(r[j] == t[j - 1]);
            } else {
                assert(r[i] == t[i - 1]);
                assert(r[j] == t[j - 1]);
            }
        }
        assert(t == t.take(p) + t.skip(p));
        vstd::seq_lib::lemma_multiset_commutative(t.take(p).push(x), t.skip(p));
        vstd::seq_lib::lemma_multiset_commutative(t.take(p), t.skip(p));
        assert(s == d.push(x));
    }
}

/// Every action the ordering returns from the convention's candidates is a
/// legal action, and the candidates come highest priority first.
pub proof fn lemma_ranked_candidates_are_legal(e: OrderingEvidence)
    requires
        e.legal_actions@.len() > 0,
        !(e.must_clue && ranked_clues(e).len() > 0),
        e.connection_actions is None,
        admitted_actions(e).len() > 0,
    ensures
        spec_ordered_actions(e).len() == admitted_actions(e).len(),
        forall|i: int|
            0 <= i < spec_ordered_actions(e).len() ==> e.legal_actions@.contains(
                #[trigger] spec_ordered_actions(e)[i],
            ),
        priorities_descend(by_priority(with_priorities(admitted_actions(e), e.evidence@))),
{
    broadcast use vstd::seq_lib::group_to_multiset_ensures;

    let a = admitted_actions(e);
    let w = with_priorities(a, e.evidence@);
    lemma_by_priority(w);
    let b = by_priority(w);
    lemma_admitted_legal(e);
    assert forall|i: int| 0 <= i < b.len() implies e.legal_actions@.contains(#[trigger] b[i].0) by {
        assert(b.to_multiset().count(b[i]) > 0);
        assert(w.contains(b[i]));
        let k = choose|k: int| 0 <= k < w.len() && w[k] == b[i];
        assert(w[k].0 == a[k]);
    }
    assert forall|i: int|
        0 <= i < spec_ordered_actions(e).len() implies e.legal_actions@.contains(
            #[trigger] spec_ordered_actions(e)[i],
        ) by {
        assert(spec_ordered_actions(e)[i] == b[i].0);
    }
}

proof fn lemma_legal_filter(s: Seq<Action>, legal: Seq<Action>)
    ensures
        forall|i: int| 0 <= i < legal_filter(s, legal).len() ==> legal.contains(#[trigger] legal_filter(s, legal)[i]),
    decreases s.len(),
{
    if s.len() > 0 {
        let d = s.drop_last();
        lemma_legal_filter(d, legal);
        let f = legal_filter(s, legal);
        assert forall|i: int| 0 <= i < f.len() implies legal.contains(#[trigger] f[i]) by {
            if i < legal_filter(d, legal).len() {
                assert(f[i] == legal_filter(d, legal)[i]);
            }
        }
    }
}

proof fn lemma_end_game_filter_within(s: Seq<Action>, chop: Option<CardId>, trash: Option<CardId>, positional: Seq<CardId>)
    ensures
        forall|i: int|
            0 <= i < end_game_filter(s, chop, trash, positional).len() ==> s.contains(
                #[trigger] end_game_filter(s, chop, trash, positional)[i],
            ),
    decreases s.len(),
{
    if s.len() > 0 {
        let d = s.drop_last();
        lemma_end_game_filter_within(d, chop, trash, positional);
        assert forall|i: int|
            0 <= i < end_game_filter(s, chop, trash, positional).len() implies s.contains(
                #[trigger] end_game_filter(s, chop, trash, positional)[i],
            ) by {
            let f = end_game_filter(s, chop, trash, positional);
            if i < end_game_filter(d, chop, trash, positional).len() {
                let x = f[i];
                assert(d.contains(x));
                let k = choose|k: int| 0 <= k < d.len() && d[k] == x;
                assert(s[k] == x);
            } else {
                assert(s[s.len() - 1] == f[i]);
            }
        }
    }
}

/// The admitted candidates are legal actions.
proof fn lemma_admitted_legal(e: OrderingEvidence)
    ensures
        forall|i: int| 0 <= i < admitted_actions(e).len() ==> e.legal_actions@.contains(#[trigger] admitted_actions(e)[i]),
{
    let l = legal_filter(dedup_runs(candidate_actions(e)), e.legal_actions@);
    lemma_legal_filter(dedup_runs(candidate_actions(e)), e.legal_actions@);
    if e.end_game {
        lemma_end_game_filter_within(l, e.ordinary_chop, e.known_trash, e.positional_valid@);
        assert forall|i: int| 0 <= i < admitted_actions(e).len() implies e.legal_actions@.contains(
            #[trigger] admitted_actions(e)[i],
        ) by {
            let x = admitted_actions(e)[i];
            assert(l.contains(x));
            let k = choose|k: int| 0 <= k < l.len() && l[k] == x;
        }
    }
}

proof fn lemma_dedup_keeps(s: Seq<Action>, x: Action)
    requires
        s.contains(x),
    ensures
        dedup_runs(s).contains(x),
    decreases s.len(),
{
    let d = s.drop_last();
    let rest = dedup_runs(d);
    if s.last() == x {
        if rest.len() > 0 && rest.last() == s.last() {
            assert(rest[rest.len() - 1] == x);
        } else {
            assert(dedup_runs(s)[rest.len() as int] == x);
        }
    } else {
        let i = choose|i: int| 0 <= i < s.len() && s[i] == x;
        assert(d[i] == x);
        lemma_dedup_keeps(d, x);
        let j = choose|j: int| 0 <= j < rest.len() && rest[j] == x;
        assert(dedup_runs(s)[j] == x);
    }
}

proof fn lemma_legal_filter_keeps(s: Seq<Action>, legal: Seq<Action>, x: Action)
    requires
        s.contains(x),
        legal.contains(x),
    ensures
        legal_filter(s, legal).contains(x),
    decreases s.len(),
{
    let d = s.drop_last();
    let rest = legal_filter(d, legal);
    if s.last() == x {
        assert(legal_filter(s, legal)[rest.len() as int] == x);
    } else {
        let i = choose|i: int| 0 <= i < s.len() && s[i] == x;
        assert(d[i] == x);
        lemma_legal_filter_keeps(d, legal, x);
        let j = choose|j: int| 0 <= j < rest.len() && rest[j] == x;
        if legal.contains(s.last()) {
            assert(legal_filter(s, legal)[j] == x);
        }
    }
}

proof fn lemma_end_game_filter_keeps(
    s: Seq<Action>,
    chop: Option<CardId>,
    trash: Option<CardId>,
    positional: Seq<CardId>,
    x: Action,
)
    requires
        s.contains(x),
        end_game_keeps(x, chop, trash, positional),
    ensures
        end_game_filter(s, chop, trash, positional).contains(x),
    decreases s.len(),
{
    let d = s.drop_last();
    let rest = end_game_filter(d, chop, trash, positional);
    if s.last() == x {
        assert(end_game_filter(s, chop, trash, positional)[rest.len() as int] == x);
    } else {
        let i = choose|i: int| 0 <= i < s.len() && s[i] == x;
        assert(d[i] == x);
        lemma_end_game_filter_keeps(d, chop, trash, positional, x);
        let j = choose|j: int| 0 <= j < rest.len() && rest[j] == x;
        if end_game_keeps(s.last(), chop, trash, positional) {
            assert(end_game_filter(s, chop, trash, positional)[j] == x);
        }
    }
}

proof fn lemma_ranking_keeps(a: Seq<Action>, evidence: Seq<ActionEvidence>, x: Action)
    requires
        a.contains(x),
    ensures
        ranked_actions(by_priority(with_priorities(a, evidence))).contains(x),
{
    broadcast use vstd::seq_lib::group_to_multiset_ensures;

    let w = with_priorities(a, evidence);
    let i = choose|i: int| 0 <= i < a.len() && a[i] == x;
    lemma_by_priority(w);
    let b = by_priority(w);
    assert(w[i] == (x, priority_of(evidence, x) as i32));
    assert(w.contains(w[i]));
    assert(w.to_multiset().count(w[i]) > 0);
    assert(b.contains(w[i]));
    let j = choose|j: int| 0 <= j < b.len() && b[j] == w[i];
    assert(ranked_actions(b)[j] == x);
}

/// In the End Game a legal discard that the convention requires now, or
/// that is the chosen discard outside the Early Game, stays among the
/// ordered actions when its positional discard is valid.
pub proof fn lemma_end_game_keeps_valid_positional_discard(e: OrderingEvidence, card: CardId)
    requires
        e.legal_actions@.len() > 0,
        !e.must_clue,
        e.connection_actions is None,
        e.end_game,
        e.required_first_five_stall is None,
        e.legal_actions@.contains(Action::Discard(card)),
        e.positional_valid@.contains(card),
        e.discard_now@.contains(card) || (e.scored_discard == Some(card) && !e.early_game),
    ensures
        spec_ordered_actions(e).contains(Action::Discard(card)),
{
    let x = Action::Discard(card);
    assert(!extinguishing(e));
    let clues = ranked_clues(e);
    let scored = match e.scored_discard {
        Some(c) => seq![Action::Discard(c)],
        None => Seq::empty(),
    };
    let all = discards(e.discard_now@) + plays(e.ordered_playable@) + scored + clue_actions(clues);
    assert(candidate_actions(e) == all);
    if e.discard_now@.contains(card) {
        let i = choose|i: int| 0 <= i < e.discard_now@.len() && e.discard_now@[i] == card;
        assert(all[i] == x);
    } else {
        let at: int = (e.discard_now@.len() + e.ordered_playable@.len()) as int;
        assert(all[at] == x);
    }
    lemma_dedup_keeps(all, x);
    lemma_legal_filter_keeps(dedup_runs(all), e.legal_actions@, x);
    let legal = legal_filter(dedup_runs(all), e.legal_actions@);
    lemma_end_game_filter_keeps(legal, e.ordinary_chop, e.known_trash, e.positional_valid@, x);
    assert(admitted_actions(e).contains(x));
    assert(admitted_actions(e).len() > 0);
    lemma_ranking_keeps(admitted_actions(e), e.evidence@, x);
}

} // verus!
