//! Shared Bluff semantics used by candidate generation and history replay.

use vstd::prelude::*;

use crate::cards::{
    lemma_card_index_injective, lemma_card_index_roundtrip, Card, CardId, CardSet, Clue, IdentitySet,
    PlayerId, Rank,
};
use crate::h_group::admission::VisibleCard;
use crate::h_group::claims::sole_member;
use crate::h_group::connection::{ConnectionManager, HGroupConnectionKind, ManagerView};
use crate::h_group::hand::list_contains;
use crate::h_group::queue::{identity_of, seen_identity};

verus! {

/// Which Bluff rule a target falls under.
#[derive(Clone, Copy, Debug, PartialEq, Eq, Structural, Hash)]
pub enum BluffTargetKind {
    /// A card one rank beyond playable.
    Ordinary,
    /// A still-useful future 3 targeted by a rank-3 clue.
    Three,
}

/// The Bluff rule that `focus` falls under, judged from the stack heights at
/// clue time.
pub open spec fn target_kind(stack_heights: Seq<u8>, clue: Clue, focus: Card) -> Option<
    BluffTargetKind,
> {
    let height = stack_heights[focus.suit.spec_index() as int] as int;
    if focus.rank.spec_number() == height + 2 {
        Some(BluffTargetKind::Ordinary)
    } else if clue == Clue::Rank(Rank::Three) && focus.rank == Rank::Three
        && focus.rank.spec_number() > height + 1 {
        Some(BluffTargetKind::Three)
    } else {
        None
    }
}

/// Classifies targets using only clue-time public stacks.
///
/// Ordinary Bluffs target a card one rank beyond playable. A rank-3 clue may
/// also target any still-useful future 3; this is the rule that makes a Hard
/// 3 Bluff possible from empty stacks.
pub fn bluff_target_kind_at(stack_heights: [u8; 5], clue: Clue, focus: Card) -> (k: Option<
    BluffTargetKind,
>)
    ensures
        k == target_kind(stack_heights@, clue, focus),
{
    let height = stack_heights[focus.suit.index()];
    if focus.rank.number() == height.saturating_add(2) {
        Some(BluffTargetKind::Ordinary)
    } else if clue == Clue::Rank(Rank::Three) && focus.rank == Rank::Three
        && focus.rank.number() > height.saturating_add(1) {
        Some(BluffTargetKind::Three)
    } else {
        None
    }
}

/// A Self-Bluff is legal with a rank clue. Suit Self-Bluffs are a separate
/// max-level family and are not admitted by the ordinary Bluff rule.
pub fn bluff_target_order_is_legal(clue: Clue, actor: PlayerId, target: PlayerId) -> (b: bool)
    ensures
        b == (actor != target || clue is Rank),
{
    actor != target || matches!(clue, Clue::Rank(_))
}

/// Whether a blind play of `played` connects to the clue.
pub open spec fn play_connects(clue: Clue, played: Card) -> bool {
    match clue {
        Clue::Suit(suit) => played.suit == suit,
        Clue::Rank(rank) => played.rank.spec_number() + 1 == rank.spec_number(),
    }
}

/// Whether the blind play connects to the clue instead of demonstrating a
/// Bluff. Color clues connect by suit. Rank clues connect only consecutive
/// ranks, so a 1 does not connect to a rank-3 clue even when both cards share
/// a suit (the Hard 3 Bluff case).
pub fn bluff_play_connects(clue: Clue, played: Card) -> (b: bool)
    ensures
        b == play_connects(clue, played),
{
    match clue {
        Clue::Suit(suit) => played.suit == suit,
        Clue::Rank(rank) => played.rank.number().saturating_add(1) == rank.number(),
    }
}

/// The card of the focus suit at rank position `index`.
pub open spec fn connector(focus: Card, index: int) -> Card {
    Card { suit: focus.suit, rank: Rank::spec_from_index(index as usize) }
}

/// A Bluff through already-clued cards: the focus lies beyond the next
/// playable rank, the missing first connector is really missing (unless it is
/// the only one), and every higher connector is available.
pub open spec fn through_clued_cards(height: int, focus: Card, available: Set<Card>) -> bool {
    let rank = focus.rank.spec_number() as int;
    &&& rank > height + 1
    &&& (rank == height + 2 || !available.contains(connector(focus, height)))
    &&& forall|needed: int|
        height + 2 <= needed < rank ==> #[trigger] available.contains(connector(focus, needed - 1))
}

/// The missing first connector may be bluffed through already-clued higher
/// connectors. `available` holds the identities available from the caller's
/// dated perspective.
pub fn bluff_through_clued_cards(height: usize, focus: Card, available: IdentitySet) -> (b: bool)
    ensures
        b == through_clued_cards(height as int, focus, available@),
{
    let rank = focus.rank.number() as usize;
    if height >= rank || rank - height < 2 {
        return false;
    }
    if !(rank == height + 2 || !available.contains(Card::new(focus.suit, Rank::from_index(height)))) {
        return false;
    }
    let mut needed: usize = height + 2;
    while needed < rank
        invariant
            height + 2 <= needed <= rank,
            rank == focus.rank.spec_number(),
            rank <= 5,
            forall|k: int|
                height + 2 <= k < needed ==> #[trigger] available@.contains(connector(focus, k - 1)),
        decreases rank - needed,
    {
        if !available.contains(Card::new(focus.suit, Rank::from_index(needed - 1))) {
            proof {
                let k = needed as int;
                assert(!available@.contains(connector(focus, k - 1)));
            }
            return false;
        }
        needed = needed + 1;
    }
    true
}

/// A clue as the history records it: its turn, the clue, and the cards it
/// touched and did not touch in the recipient's hand.
#[derive(Clone, Debug)]
pub struct ClueEvent {
    pub turn: u32,
    pub clue: Clue,
    pub touched: Vec<CardId>,
    pub untouched: Vec<CardId>,
}

/// Whether `identity` agrees with what the clue event says of `card`.
pub open spec fn consistent_with(e: ClueEvent, card: CardId, identity: Card) -> bool {
    if e.touched@.contains(card) {
        e.clue.spec_matches(identity)
    } else if e.untouched@.contains(card) {
        !e.clue.spec_matches(identity)
    } else {
        true
    }
}

/// The identities of `card` the literal clues up to `turn` allow.
pub open spec fn literal_identities(events: Seq<ClueEvent>, card: CardId, turn: u32) -> Set<Card> {
    Set::new(
        |c: Card| forall|k: int| 0 <= k < events.len() && events[k].turn <= turn ==> consistent_with(#[trigger] events[k], card, c),
    )
}

fn agrees_with_all(events: &Vec<ClueEvent>, card: CardId, turn: u32, identity: Card) -> (b: bool)
    ensures
        b == forall|k: int| 0 <= k < events@.len() && events@[k].turn <= turn ==> consistent_with(#[trigger] events@[k], card, identity),
{
    let mut k: usize = 0;
    while k < events.len()
        invariant
            k <= events@.len(),
            forall|m: int| 0 <= m < k && events@[m].turn <= turn ==> consistent_with(#[trigger] events@[m], card, identity),
        decreases events@.len() - k,
    {
        let e = &events[k];
        if e.turn <= turn {
            let ok = if list_contains(e.touched.as_slice(), card) {
                e.clue.matches(identity)
            } else if list_contains(e.untouched.as_slice(), card) {
                !e.clue.matches(identity)
            } else {
                true
            };
            if !ok {
                assert(!consistent_with(events@[k as int], card, identity));
                return false;
            }
        }
        k = k + 1;
    }
    true
}

/// The identity of `card` that the literal clues up to `turn` establish,
/// when they allow exactly one. Later clues and convention claims are not
/// evidence for an already-clued intermediate.
pub fn literal_identity_through(events: &Vec<ClueEvent>, card: CardId, turn: u32) -> (r: Option<Card>)
    ensures
        exists|s: IdentitySet| s@ == literal_identities(events@, card, turn) && r == sole_member(s),
{
    let mut allowed = IdentitySet::empty();
    let mut i: usize = 0;
    while i < 25
        invariant
            i <= 25,
            allowed.wf(),
            forall|c: Card|
                allowed@.contains(c) <==> (c.spec_index() < i && literal_identities(events@, card, turn).contains(c)),
        decreases 25 - i,
    {
        let identity = Card::from_index(i);
        if agrees_with_all(events, card, turn, identity) {
            allowed = allowed.union(IdentitySet::singleton(identity));
        }
        proof {
            assert forall|c: Card|
                allowed@.contains(c) <==> (c.spec_index() < i + 1 && literal_identities(events@, card, turn).contains(
                    c,
                )) by {
                lemma_card_index_injective(c, identity);
            }
        }
        i = i + 1;
    }
    proof {
        assert forall|c: Card| allowed@.contains(c) <==> literal_identities(events@, card, turn).contains(c) by {
            lemma_card_index_roundtrip(c);
        }
        assert(allowed@ =~= literal_identities(events@, card, turn));
    }
    allowed.sole()
}

/// Some card of a hand already playing is visibly `connector`, or an active
/// live step from another focus (or any Prompt) expects it.
pub open spec fn spec_connector_promised(
    seen: Seq<Vec<VisibleCard>>,
    hands: Seq<Vec<CardId>>,
    already_playing: Set<CardId>,
    m: ManagerView,
    active: Seq<bool>,
    connector: Card,
    current_focus: Option<CardId>,
) -> bool {
    ||| exists|p: int, j: int|
        0 <= p < hands.len() && 0 <= j < hands[p]@.len() && {
            let card = #[trigger] hands[p]@[j];
            already_playing.contains(card) && seen_identity(seen, card) == Some(connector)
        }
    ||| exists|k: int|
        0 <= k < m.active.len() && {
            let o = #[trigger] m.active[k];
            &&& (Some(o.focus) != current_focus || o.kind == HGroupConnectionKind::Prompt)
            &&& o.expected == connector
            &&& active[k]
        }
}

/// A connector that is already due makes the clue a truthful continuation,
/// not a reason for the next player to invent another blind connector. A
/// Prompt selected by this clue also supplies it. `active` says which live
/// steps are active.
/// <https://hanabi.github.io/level-11/#bobs-truth-principle-part-1>
pub fn bluff_connector_is_promised(
    seen: &Vec<Vec<VisibleCard>>,
    hands: &Vec<Vec<CardId>>,
    already_playing: &CardSet,
    pending: &ConnectionManager,
    active: &Vec<bool>,
    connector: Card,
    current_focus: Option<CardId>,
) -> (b: bool)
    requires
        active@.len() == pending@.active.len(),
    ensures
        b == spec_connector_promised(seen@, hands@, already_playing@, pending@, active@, connector, current_focus),
{
    let mut p: usize = 0;
    while p < hands.len()
        invariant
            p <= hands@.len(),
            forall|q: int, j: int|
                0 <= q < p && 0 <= j < hands@[q]@.len() ==> !({
                    let card = #[trigger] hands@[q]@[j];
                    already_playing@.contains(card) && seen_identity(seen@, card) == Some(connector)
                }),
        decreases hands@.len() - p,
    {
        let hand = &hands[p];
        let mut j: usize = 0;
        while j < hand.len()
            invariant
                p < hands@.len(),
                hand@ == hands@[p as int]@,
                j <= hand@.len(),
                forall|q: int, m: int|
                    0 <= q < p && 0 <= m < hands@[q]@.len() ==> !({
                        let card = #[trigger] hands@[q]@[m];
                        already_playing@.contains(card) && seen_identity(seen@, card) == Some(connector)
                    }),
                forall|m: int|
                    0 <= m < j ==> !({
                        let card = #[trigger] hands@[p as int]@[m];
                        already_playing@.contains(card) && seen_identity(seen@, card) == Some(connector)
                    }),
            decreases hand@.len() - j,
        {
            let card = hand[j];
            assert(hands@[p as int]@[j as int] == card);
            if already_playing.contains(&card) && identity_of(seen, card) == Some(connector) {
                return true;
            }
            j = j + 1;
        }
        p = p + 1;
    }
    let steps = pending.active();
    let mut k: usize = 0;
    while k < steps.len()
        invariant
            active@.len() == pending@.active.len(),
            steps@.len() == pending@.active.len(),
            forall|m: int| 0 <= m < steps@.len() ==> #[trigger] pending@.active[m] == steps@[m]@,
            k <= steps@.len(),
            forall|m: int|
                0 <= m < k ==> !({
                    let o = #[trigger] pending@.active[m];
                    &&& (Some(o.focus) != current_focus || o.kind == HGroupConnectionKind::Prompt)
                    &&& o.expected == connector
                    &&& active@[m]
                }),
        decreases steps@.len() - k,
    {
        let o = &steps[k];
        assert(pending@.active[k as int] == o@);
        if (Some(o.focus) != current_focus || o.kind == HGroupConnectionKind::Prompt) && o.expected == connector
            && active[k] {
            return true;
        }
        k = k + 1;
    }
    false
}

/// Some active Finesse step of `actor` from another focus is live.
pub open spec fn spec_bluff_queued(m: ManagerView, active: Seq<bool>, actor: PlayerId, current_focus: Option<CardId>) -> bool {
    exists|k: int|
        0 <= k < m.active.len() && {
            let o = #[trigger] m.active[k];
            &&& o.actor == actor
            &&& o.kind == HGroupConnectionKind::Finesse
            &&& Some(o.focus) != current_focus
            &&& active[k]
        }
}

/// A Bluff cannot wait behind an older Finesse of its actor, though an
/// ordinary clued play does not prevent it; connections this very clue
/// established (focused on `current_focus`) are excluded. `active` says
/// which live steps are active.
/// <https://hanabi.github.io/level-11/#queued-bluffs-illegal>
pub fn bluff_is_queued(pending: &ConnectionManager, active: &Vec<bool>, actor: PlayerId, current_focus: Option<CardId>) -> (b:
    bool)
    requires
        active@.len() == pending@.active.len(),
    ensures
        b == spec_bluff_queued(pending@, active@, actor, current_focus),
{
    let steps = pending.active();
    let mut k: usize = 0;
    while k < steps.len()
        invariant
            active@.len() == pending@.active.len(),
            steps@.len() == pending@.active.len(),
            forall|m: int| 0 <= m < steps@.len() ==> #[trigger] pending@.active[m] == steps@[m]@,
            k <= steps@.len(),
            forall|m: int|
                0 <= m < k ==> !({
                    let o = #[trigger] pending@.active[m];
                    &&& o.actor == actor
                    &&& o.kind == HGroupConnectionKind::Finesse
                    &&& Some(o.focus) != current_focus
                    &&& active@[m]
                }),
        decreases steps@.len() - k,
    {
        let o = &steps[k];
        assert(pending@.active[k as int] == o@);
        if o.actor == actor && o.kind == HGroupConnectionKind::Finesse && Some(o.focus) != current_focus && active[k] {
            return true;
        }
        k = k + 1;
    }
    false
}

} // verus!
