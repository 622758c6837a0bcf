//! A unified read model over the live convention commitments.

use vstd::prelude::*;

use crate::cards::{first_member_from, Card, CardId, CardSet, IdentitySet, PlayerId};
use crate::h_group::completion::{next_player, spec_next_player};
use crate::h_group::claims::{spec_exact_identity, ClaimsView, IdentityClaims};
use crate::h_group::connection::{ObligationView, PromiseId};
use crate::h_group::constraint_graph::only;

verus! {

#[derive(Clone, Copy, Debug, PartialEq, Eq, Structural, Hash)]
pub enum ScheduledAction {
    Play,
    Discard,
}

#[derive(Clone, Copy, Debug, PartialEq, Eq, Structural, Hash)]
pub enum ObligationSource {
    DirectPlay,
    Connection(PromiseId),
    ForcedPlay,
    RequiredDiscard,
}

/// One live convention commitment. `identities` is the domain for which the
/// action succeeds; `promised_identity` is what a connection requires the
/// owner to act as though the card is.
#[derive(Clone, Copy, Debug, PartialEq, Eq, Structural)]
pub struct ActionObligation {
    pub actor: PlayerId,
    pub card: CardId,
    pub action: ScheduledAction,
    pub identities: IdentitySet,
    pub promised_identity: Option<Card>,
    pub source: ObligationSource,
}

/// The obligations of `actor` with action `action`, in order.
pub open spec fn obligations_of(obligations: Seq<ActionObligation>, actor: PlayerId, action: ScheduledAction) -> Seq<
    ActionObligation,
>
    decreases obligations.len(),
{
    if obligations.len() == 0 {
        Seq::empty()
    } else {
        let rest = obligations_of(obligations.drop_last(), actor, action);
        let o = obligations.last();
        if o.actor == actor && o.action == action {
            rest.push(o)
        } else {
            rest
        }
    }
}

/// The identity a play obligation is expected to show: the promised one,
/// the only identity of its domain, or the identity visible to the observer.
pub open spec fn expected_identity(o: ActionObligation, visible: Seq<Option<Card>>) -> Option<Card> {
    match o.promised_identity {
        Some(c) => Some(c),
        None => if o.identities@.len() == 1 {
            first_member_from(o.identities, 0)
        } else if (o.card.id as int) < visible.len() {
            visible[o.card.id as int]
        } else {
            None
        },
    }
}

/// Whether `c` is the next card of its stack.
pub open spec fn playable_at(heights: Seq<u8>, c: Card) -> bool {
    c.rank.spec_number() == heights[c.suit.spec_index() as int] + 1
}

/// The expected identities of `plays` that are playable at `heights`.
pub open spec fn playable_identities(plays: Seq<ActionObligation>, heights: Seq<u8>, visible: Seq<Option<Card>>) -> Seq<
    Card,
>
    decreases plays.len(),
{
    if plays.len() == 0 {
        Seq::empty()
    } else {
        let rest = playable_identities(plays.drop_last(), heights, visible);
        match expected_identity(plays.last(), visible) {
            Some(c) => if playable_at(heights, c) {
                rest.push(c)
            } else {
                rest
            },
            None => rest,
        }
    }
}

proof fn lemma_playable_identities_are_playable(plays: Seq<ActionObligation>, heights: Seq<u8>, visible: Seq<Option<Card>>)
    ensures
        forall|k: int|
            0 <= k < playable_identities(plays, heights, visible).len() ==> playable_at(
                heights,
                #[trigger] playable_identities(plays, heights, visible)[k],
            ),
    decreases plays.len(),
{
    if plays.len() > 0 {
        lemma_playable_identities_are_playable(plays.drop_last(), heights, visible);
        let rest = playable_identities(plays.drop_last(), heights, visible);
        let all = playable_identities(plays, heights, visible);
        assert forall|k: int| 0 <= k < all.len() implies playable_at(heights, #[trigger] all[k]) by {
            if k < rest.len() {
                assert(all[k] == rest[k]);
            }
        }
    }
}

/// The stacks after a turn with these playable identities: exactly one
/// unambiguous play advances its stack.
pub open spec fn after_turn(heights: Seq<u8>, playable: Seq<Card>) -> Seq<u8> {
    if playable.len() == 1 {
        let s = playable[0].suit.spec_index() as int;
        heights.update(s, (heights[s] + 1) as u8)
    } else {
        heights
    }
}

/// Seats from `player` forward to `observer`.
pub open spec fn seats_until(player: int, observer: int, players: int) -> int {
    if observer >= player {
        observer - player
    } else {
        observer + players - player
    }
}

/// The stacks once every seat from `player` up to `observer` has made its
/// forced, unambiguous play.
pub open spec fn heights_before(
    obligations: Seq<ActionObligation>,
    heights: Seq<u8>,
    player: PlayerId,
    players: int,
    visible: Seq<Option<Card>>,
    steps: nat,
) -> Seq<u8>
    decreases steps,
{
    if steps == 0 {
        heights
    } else {
        heights_before(
            obligations,
            after_turn(
                heights,
                playable_identities(obligations_of(obligations, player, ScheduledAction::Play), heights, visible),
            ),
            spec_next_player(player, players),
            players,
            visible,
            (steps - 1) as nat,
        )
    }
}

/// Unified read model over direct plays, connection responses, forced plays,
/// and required discards. Their lifecycle remains with their owners.
#[derive(Clone, Debug)]
pub struct ActionSchedule {
    obligations: Vec<ActionObligation>,
    blocked_cards: CardSet,
}

impl ActionSchedule {
    pub closed spec fn spec_obligations(&self) -> Seq<ActionObligation> {
        self.obligations@
    }

    pub closed spec fn spec_blocked(&self) -> Set<CardId> {
        self.blocked_cards@
    }

    /// A schedule of `obligations` in which `blocked_cards` cannot act yet.
    pub fn new(obligations: Vec<ActionObligation>, blocked_cards: CardSet) -> (s: Self)
        ensures
            s.spec_obligations() == obligations@,
            s.spec_blocked() == blocked_cards@,
    {
        ActionSchedule { obligations, blocked_cards }
    }

    fn of_actor(&self, actor: PlayerId, action: ScheduledAction) -> (r: Vec<ActionObligation>)
        ensures
            r@ == obligations_of(self.obligations@, actor, action),
    {
        let mut r: Vec<ActionObligation> = Vec::new();
        let mut i: usize = 0;
        while i < self.obligations.len()
            invariant
                i <= self.obligations@.len(),
                r@ == obligations_of(self.obligations@.take(i as int), actor, action),
            decreases self.obligations@.len() - i,
        {
            proof {
                assert(self.obligations@.take(i + 1).drop_last() =~= self.obligations@.take(i as int));
            }
            let o = self.obligations[i];
            if o.actor == actor && o.action == action {
                r.push(o);
            }
            i = i + 1;
        }
        proof {
            assert(self.obligations@.take(i as int) =~= self.obligations@);
        }
        r
    }

    /// The play obligations of `actor`, in order.
    pub fn plays_for(&self, actor: PlayerId) -> (r: Vec<ActionObligation>)
        ensures
            r@ == obligations_of(self.spec_obligations(), actor, ScheduledAction::Play),
    {
        self.of_actor(actor, ScheduledAction::Play)
    }

    /// Cards that cannot act before the observer's currently due connection
    /// steps resolve.
    pub fn blocked_cards(&self) -> (s: &CardSet)
        ensures
            s@ == self.spec_blocked(),
    {
        &self.blocked_cards
    }

    /// The cards `actor` is required to discard, in order.
    pub fn required_discards_for(&self, actor: PlayerId) -> (r: Vec<CardId>)
        ensures
            r@ == obligations_of(self.spec_obligations(), actor, ScheduledAction::Discard).map_values(
                |o: ActionObligation| o.card,
            ),
    {
        let discards = self.of_actor(actor, ScheduledAction::Discard);
        let mut r: Vec<CardId> = Vec::new();
        let mut i: usize = 0;
        while i < discards.len()
            invariant
                i <= discards@.len(),
                r@ == discards@.take(i as int).map_values(|o: ActionObligation| o.card),
            decreases discards@.len() - i,
        {
            r.push(discards[i].card);
            i = i + 1;
            proof {
                assert(r@ =~= discards@.take(i as int).map_values(|o: ActionObligation| o.card));
            }
        }
        proof {
            assert(discards@.take(i as int) =~= discards@);
        }
        r
    }

    /// Projects only forced, unambiguous plays before `observer` next acts:
    /// from the current player up to the observer, each seat whose play
    /// obligations show exactly one playable identity plays it.
    pub fn stack_heights_before(
        &self,
        heights: [u8; 5],
        current_player: PlayerId,
        observer: PlayerId,
        players: usize,
        visible: &Vec<Option<Card>>,
    ) -> (r: [u8; 5])
        requires
            0 < players <= 256,
            current_player.spec_index() < players,
            observer.spec_index() < players,
        ensures
            r@ == heights_before(
                self.spec_obligations(),
                heights@,
                current_player,
                players as int,
                visible@,
                seats_until(current_player.spec_index() as int, observer.spec_index() as int, players as int) as nat,
            ),
    {
        let mut heights = heights;
        let mut player = current_player;
        let ghost total = seats_until(current_player.spec_index() as int, observer.spec_index() as int, players as int) as nat;
        let ghost start = heights@;
        while player != observer
            invariant
                0 < players <= 256,
                player.spec_index() < players,
                observer.spec_index() < players,
                heights_before(self.obligations@, start, current_player, players as int, visible@, total)
                    == heights_before(
                    self.obligations@,
                    heights@,
                    player,
                    players as int,
                    visible@,
                    seats_until(player.spec_index() as int, observer.spec_index() as int, players as int) as nat,
                ),
            decreases seats_until(player.spec_index() as int, observer.spec_index() as int, players as int),
        {
            let plays = self.plays_for(player);
            let ghost steps = seats_until(player.spec_index() as int, observer.spec_index() as int, players as int);
            let mut found: Vec<Card> = Vec::new();
            let mut k: usize = 0;
            while k < plays.len()
                invariant
                    k <= plays@.len(),
                    found@ == playable_identities(plays@.take(k as int), heights@, visible@),
                decreases plays@.len() - k,
            {
                proof {
                    assert(plays@.take(k + 1).drop_last() =~= plays@.take(k as int));
                }
                let o = plays[k];
                let identity = match o.promised_identity {
                    Some(c) => Some(c),
                    None => if o.identities.len() == 1 {
                        o.identities.sole()
                    } else if o.card.index() < visible.len() {
                        visible[o.card.index()]
                    } else {
                        None
                    },
                };
                match identity {
                    Some(c) => {
                        if c.rank.number() as u16 == heights[c.suit.index()] as u16 + 1 {
                            found.push(c);
                        }
                    },
                    None => {},
                }
                k = k + 1;
            }
            proof {
                assert(plays@.take(k as int) =~= plays@);
                assert(player != observer);
                assert(steps > 0);
            }
            if found.len() == 1 {
                proof {
                    lemma_playable_identities_are_playable(plays@, heights@, visible@);
                    assert(playable_at(heights@, found@[0]));
                }
                let s = found[0].suit.index();
                heights[s] = heights[s] + 1;
            }
            let next = next_player(player, players);
            proof {
                let p = player.spec_index() as int;
                let o = observer.spec_index() as int;
                let n = players as int;
                if p + 1 < n {
                    vstd::arithmetic::div_mod::lemma_small_mod((p + 1) as nat, n as nat);
                } else {
                    vstd::arithmetic::div_mod::lemma_mod_self_0(n);
                }
                assert(seats_until(next.spec_index() as int, o, n) == steps - 1);
            }
            player = next;
        }
        proof {
            assert(seats_until(player.spec_index() as int, observer.spec_index() as int, players as int) == 0);
        }
        heights
    }
}

#[derive(Clone, Copy, Debug, PartialEq, Eq, Structural, Hash)]
pub enum StackHorizon {
    AtClue(u32),
    Current(u32),
    BeforePlayerTurn(PlayerId),
}

/// Stack heights paired with the time at which they are valid.
#[derive(Clone, Copy, Debug, PartialEq, Eq)]
pub struct StackTimeline {
    pub heights: [u8; 5],
    pub horizon: StackHorizon,
}

impl StackTimeline {
    /// The stacks as they stood when the clue of `turn` was given.
    pub fn at_clue(turn: u32, heights: [u8; 5]) -> (t: Self)
        ensures
            t == (StackTimeline { heights, horizon: StackHorizon::AtClue(turn) }),
    {
        StackTimeline { heights, horizon: StackHorizon::AtClue(turn) }
    }

    /// The stacks of the position at `turn`.
    pub fn current(turn: u32, heights: [u8; 5]) -> (t: Self)
        ensures
            t == (StackTimeline { heights, horizon: StackHorizon::Current(turn) }),
    {
        StackTimeline { heights, horizon: StackHorizon::Current(turn) }
    }

    /// The stacks once the forced plays before `player`'s turn are made.
    pub fn before_player_turn(player: PlayerId, heights: [u8; 5]) -> (t: Self)
        ensures
            t == (StackTimeline { heights, horizon: StackHorizon::BeforePlayerTurn(player) }),
    {
        StackTimeline { heights, horizon: StackHorizon::BeforePlayerTurn(player) }
    }

    pub fn heights(self) -> (h: [u8; 5])
        ensures
            h == self.heights,
    {
        self.heights
    }
}

/// The first seat of the replay whose hand lists `card`, at or after `p`.
pub open spec fn replay_owner_from(hands: Seq<Vec<CardId>>, card: CardId, p: int) -> Option<int>
    decreases hands.len() - p,
{
    if p < 0 || p >= hands.len() {
        None
    } else if hands[p]@.contains(card) {
        Some(p)
    } else {
        replay_owner_from(hands, card, p + 1)
    }
}

/// Obligations and the cards already scheduled to act.
pub struct ScheduleState {
    pub obligations: Seq<ActionObligation>,
    pub scheduled: Set<CardId>,
}

/// The state after the live steps among the first `n`: each active step
/// that is not an exact transfer schedules its first candidate to play its
/// expected identity, unless that card is already scheduled.
pub open spec fn after_connections(
    st: ScheduleState,
    steps: Seq<ObligationView>,
    active: Seq<bool>,
    transfers: Seq<bool>,
    n: int,
) -> ScheduleState
    decreases n,
{
    if n <= 0 || n > steps.len() {
        st
    } else {
        let before = after_connections(st, steps, active, transfers, n - 1);
        let o = steps[n - 1];
        if active[n - 1] && !transfers[n - 1] && o.cards.len() > 0 && !before.scheduled.contains(o.cards[0]) {
            ScheduleState {
                obligations: before.obligations.push(
                    ActionObligation {
                        actor: o.actor,
                        card: o.cards[0],
                        action: ScheduledAction::Play,
                        identities: only(o.expected),
                        promised_identity: Some(o.expected),
                        source: ObligationSource::Connection(o.promise),
                    },
                ),
                scheduled: before.scheduled.insert(o.cards[0]),
            }
        } else {
            before
        }
    }
}

/// The domain a scheduled play succeeds for: the card's exact identity.
pub open spec fn exact_domain(claims: ClaimsView, card: CardId) -> IdentitySet {
    match spec_exact_identity(claims, card) {
        Some(c) => only(c),
        None => IdentitySet { mask: 0 },
    }
}

/// The state after the first `n` of `cards`: each held card not yet
/// scheduled becomes a play of `source` for its owner.
pub open spec fn after_plays(st: ScheduleState, claims: ClaimsView, cards: Seq<CardId>, source: ObligationSource, n: int) -> ScheduleState
    decreases n,
{
    if n <= 0 || n > cards.len() {
        st
    } else {
        let before = after_plays(st, claims, cards, source, n - 1);
        let card = cards[n - 1];
        match replay_owner_from(claims.replay_hands, card, 0) {
            Some(p) => if before.scheduled.contains(card) {
                before
            } else {
                ScheduleState {
                    obligations: before.obligations.push(
                        ActionObligation {
                            actor: PlayerId { seat: p as u8 },
                            card,
                            action: ScheduledAction::Play,
                            identities: exact_domain(claims, card),
                            promised_identity: None,
                            source,
                        },
                    ),
                    scheduled: before.scheduled.insert(card),
                }
            },
            None => before,
        }
    }
}

/// The required discards among the first `n` of `cards` that a hand holds.
pub open spec fn discard_obligations(hands: Seq<Vec<CardId>>, cards: Seq<CardId>, n: int) -> Seq<ActionObligation>
    decreases n,
{
    if n <= 0 || n > cards.len() {
        Seq::empty()
    } else {
        let before = discard_obligations(hands, cards, n - 1);
        match replay_owner_from(hands, cards[n - 1], 0) {
            Some(p) => before.push(
                ActionObligation {
                    actor: PlayerId { seat: p as u8 },
                    card: cards[n - 1],
                    action: ScheduledAction::Discard,
                    identities: IdentitySet { mask: 0 },
                    promised_identity: None,
                    source: ObligationSource::RequiredDiscard,
                },
            ),
            None => before,
        }
    }
}

/// The cards a live step keeps from acting: none unless it is the
/// observer's step and not an exact transfer; then its remaining candidates
/// (all of them while it is not yet active) and its focus.
pub open spec fn blocked_by(o: ObligationView, active: bool, transfer: bool, observer: PlayerId) -> Set<CardId> {
    if o.cards.len() > 0 && transfer {
        Set::empty()
    } else if o.actor != observer {
        Set::empty().insert(o.focus)
    } else if active {
        (if o.cards.len() > 0 {
            o.cards.skip(1)
        } else {
            Seq::empty()
        }).to_set().insert(o.focus)
    } else {
        o.cards.to_set().insert(o.focus)
    }
}

/// The cards every live step keeps from acting.
pub open spec fn all_blocked(steps: Seq<ObligationView>, active: Seq<bool>, transfers: Seq<bool>, observer: PlayerId) -> Set<CardId> {
    Set::new(
        |c: CardId|
            exists|i: int| 0 <= i < steps.len() && #[trigger] blocked_by(steps[i], active[i], transfers[i], observer).contains(c),
    )
}

fn replay_owner(hands: &Vec<Vec<CardId>>, card: CardId) -> (r: Option<usize>)
    ensures
        match r {
            Some(p) => replay_owner_from(hands@, card, 0) == Some(p as int) && p < hands@.len(),
            None => replay_owner_from(hands@, card, 0) is None,
        },
{
    let mut p: usize = 0;
    while p < hands.len()
        invariant
            p <= hands@.len(),
            replay_owner_from(hands@, card, 0) == replay_owner_from(hands@, card, p as int),
        decreases hands@.len() - p,
    {
        if crate::h_group::hand::list_contains(hands[p].as_slice(), card) {
            return Some(p);
        }
        p = p + 1;
    }
    None
}

impl ActionSchedule {
    /// The schedule of the live convention commitments: the first
    /// candidate of each active connection step that is not an exact
    /// transfer, then the forced plays, then the cards already playing, each
    /// card once; then every required discard. `active` and `transfers` say,
    /// for each live step, whether it is active and whether its card is an
    /// exact transfer of its expected identity.
    pub fn from_replay(
        claims: &IdentityClaims,
        forced_playable: &CardSet,
        discard_now: &Vec<CardId>,
        active: &Vec<bool>,
        transfers: &Vec<bool>,
        observer: PlayerId,
    ) -> (s: Self)
        requires
            claims.facts.wf(),
            claims@.replay_hands.len() <= 256,
            active@.len() == claims@.pending.active.len(),
            transfers@.len() == claims@.pending.active.len(),
            forall|c: CardId| #[trigger] forced_playable@.contains(c) ==> c.id < 50,
            forall|c: CardId| #[trigger] claims@.already_playing.contains(c) ==> c.id < 50,
        ensures
            ({
                let conns = after_connections(
                    ScheduleState { obligations: Seq::empty(), scheduled: Set::empty() },
                    claims@.pending.active,
                    active@,
                    transfers@,
                    claims@.pending.active.len() as int,
                );
                let forced = after_plays(
                    conns,
                    claims@,
                    forced_playable.order(),
                    ObligationSource::ForcedPlay,
                    forced_playable.order().len() as int,
                );
                let direct = after_plays(
                    forced,
                    claims@,
                    claims.already_playing.order(),
                    ObligationSource::DirectPlay,
                    claims.already_playing.order().len() as int,
                );
                s.spec_obligations() == direct.obligations + discard_obligations(
                    claims@.replay_hands,
                    discard_now@,
                    discard_now@.len() as int,
                )
            }),
            s.spec_blocked() == all_blocked(claims@.pending.active, active@, transfers@, observer),
    {
        let steps = claims.pending.active();
        let ghost sv = claims@.pending.active;
        let mut obligations: Vec<ActionObligation> = Vec::new();
        let mut scheduled = CardSet::new();
        let ghost st0 = ScheduleState { obligations: Seq::empty(), scheduled: Set::empty() };
        let mut i: usize = 0;
        while i < steps.len()
            invariant
                i <= steps@.len(),
                steps@.len() == sv.len(),
                forall|k: int| 0 <= k < steps@.len() ==> #[trigger] sv[k] == steps@[k]@,
                active@.len() == sv.len(),
                transfers@.len() == sv.len(),
                scheduled.wf(),
                obligations@ == after_connections(st0, sv, active@, transfers@, i as int).obligations,
                scheduled@ == after_connections(st0, sv, active@, transfers@, i as int).scheduled,
            decreases steps@.len() - i,
        {
            let o = &steps[i];
            assert(sv[i as int] == o@);
            if active[i] && !transfers[i] && o.cards.len() > 0 && !scheduled.contains(&o.cards[0]) {
                let card = o.cards[0];
                scheduled.insert(card);
                obligations.push(
                    ActionObligation {
                        actor: o.actor,
                        card,
                        action: ScheduledAction::Play,
                        identities: crate::h_group::constraint_graph::singleton_is_only(o.expected),
                        promised_identity: Some(o.expected),
                        source: ObligationSource::Connection(o.promise),
                    },
                );
            }
            i = i + 1;
        }
        let ghost conns = after_connections(st0, sv, active@, transfers@, sv.len() as int);
        self::schedule_plays(claims, forced_playable, ObligationSource::ForcedPlay, &mut obligations, &mut scheduled);
        let ghost forced = after_plays(
            conns,
            claims@,
            forced_playable.order(),
            ObligationSource::ForcedPlay,
            forced_playable.order().len() as int,
        );
        assert forall|c: CardId| #[trigger] claims.already_playing@.contains(c) implies c.id < 50 by {
            assert(claims@.already_playing.contains(c));
        }
        self::schedule_plays(claims, &claims.already_playing, ObligationSource::DirectPlay, &mut obligations, &mut scheduled);
        let ghost direct_obligations = obligations@;
        let mut k: usize = 0;
        while k < discard_now.len()
            invariant
                claims@.replay_hands.len() <= 256,
                k <= discard_now@.len(),
                obligations@ == direct_obligations + discard_obligations(claims@.replay_hands, discard_now@, k as int),
            decreases discard_now@.len() - k,
        {
            let card = discard_now[k];
            match replay_owner(&claims.replay_hands, card) {
                Some(p) => {
                    obligations.push(
                        ActionObligation {
                            actor: PlayerId::new(p as u8),
                            card,
                            action: ScheduledAction::Discard,
                            identities: IdentitySet::empty(),
                            promised_identity: None,
                            source: ObligationSource::RequiredDiscard,
                        },
                    );
                },
                None => {},
            }
            k = k + 1;
            proof {
                assert(obligations@ =~= direct_obligations + discard_obligations(
                    claims@.replay_hands,
                    discard_now@,
                    k as int,
                ));
            }
        }
        let mut blocked = CardSet::new();
        let mut j: usize = 0;
        while j < steps.len()
            invariant
                j <= steps@.len(),
                steps@.len() == sv.len(),
                forall|m: int| 0 <= m < steps@.len() ==> #[trigger] sv[m] == steps@[m]@,
                active@.len() == sv.len(),
                transfers@.len() == sv.len(),
                blocked.wf(),
                forall|c: CardId|
                    #[trigger] blocked@.contains(c) <==> exists|m: int|
                        0 <= m < j && #[trigger] blocked_by(sv[m], active@[m], transfers@[m], observer).contains(c),
            decreases steps@.len() - j,
        {
            let o = &steps[j];
            assert(sv[j as int] == o@);
            let ghost before = blocked@;
            let ghost added = blocked_by(sv[j as int], active@[j as int], transfers@[j as int], observer);
            if o.cards.len() > 0 && transfers[j] {
            } else {
                if o.actor == observer {
                    let start: usize = if active[j] && o.cards.len() > 0 {
                        1
                    } else {
                        0
                    };
                    let mut m: usize = start;
                    proof {
                        assert(o.cards@.subrange(start as int, start as int).to_set() =~= Set::<CardId>::empty());
                        assert(blocked@ =~= before.union(Set::<CardId>::empty()));
                    }
                    while m < o.cards.len()
                        invariant
                            blocked.wf(),
                            start <= m <= o.cards@.len(),
                            blocked@ == before.union(o.cards@.subrange(start as int, m as int).to_set()),
                        decreases o.cards@.len() - m,
                    {
                        proof {
                            assert(o.cards@.subrange(start as int, m + 1) =~= o.cards@.subrange(start as int, m as int).push(
                                o.cards@[m as int],
                            ));
                            o.cards@.subrange(start as int, m as int).lemma_push_to_set_commute(o.cards@[m as int]);
                        }
                        blocked.insert(o.cards[m]);
                        m = m + 1;
                        proof {
                            assert(blocked@ =~= before.union(o.cards@.subrange(start as int, m as int).to_set()));
                        }
                    }
                    proof {
                        if active[j as int] {
                            if o.cards@.len() > 0 {
                                assert(o.cards@.subrange(1, o.cards@.len() as int) =~= o.cards@.skip(1));
                            } else {
                                assert(o.cards@.subrange(0, 0) =~= Seq::<CardId>::empty());
                            }
                        } else {
                            assert(o.cards@.subrange(0, o.cards@.len() as int) =~= o.cards@);
                        }
                    }
                }
                blocked.insert(o.focus);
            }
            proof {
                assert forall|c: CardId| #[trigger] blocked@.contains(c) <==> (before.contains(c) || added.contains(c)) by {
                }
                assert forall|c: CardId|
                    #[trigger] blocked@.contains(c) <==> exists|m: int|
                        0 <= m < j + 1 && #[trigger] blocked_by(sv[m], active@[m], transfers@[m], observer).contains(c) by {
                    if blocked@.contains(c) && !before.contains(c) {
                        assert(blocked_by(sv[j as int], active@[j as int], transfers@[j as int], observer).contains(c));
                    }
                }
            }
            j = j + 1;
        }
        proof {
            assert(blocked@ =~= all_blocked(sv, active@, transfers@, observer));
        }
        ActionSchedule::new(obligations, blocked)
    }
}

/// Schedules each card of `cards` held in the replay and not yet scheduled
/// as a play of `source`.
fn schedule_plays(
    claims: &IdentityClaims,
    cards: &CardSet,
    source: ObligationSource,
    obligations: &mut Vec<ActionObligation>,
    scheduled: &mut CardSet,
)
    requires
        claims.facts.wf(),
        claims@.replay_hands.len() <= 256,
        old(scheduled).wf(),
        forall|c: CardId| #[trigger] cards@.contains(c) ==> c.id < 50,
    ensures
        final(scheduled).wf(),
        final(obligations)@ == after_plays(
            ScheduleState { obligations: old(obligations)@, scheduled: old(scheduled)@ },
            claims@,
            cards.order(),
            source,
            cards.order().len() as int,
        ).obligations,
        final(scheduled)@ == after_plays(
            ScheduleState { obligations: old(obligations)@, scheduled: old(scheduled)@ },
            claims@,
            cards.order(),
            source,
            cards.order().len() as int,
        ).scheduled,
{
    let list = cards.to_vec();
    proof {
        cards.lemma_listed();
    }
    let ghost st = ScheduleState { obligations: obligations@, scheduled: scheduled@ };
    let mut k: usize = 0;
    while k < list.len()
        invariant
            claims.facts.wf(),
            claims@.replay_hands.len() <= 256,
            list@ == cards.order(),
            forall|c: CardId| #[trigger] cards@.contains(c) <==> list@.contains(c),
            forall|c: CardId| #[trigger] cards@.contains(c) ==> c.id < 50,
            k <= list@.len(),
            scheduled.wf(),
            obligations@ == after_plays(st, claims@, list@, source, k as int).obligations,
            scheduled@ == after_plays(st, claims@, list@, source, k as int).scheduled,
        decreases list@.len() - k,
    {
        let card = list[k];
        assert(cards@.contains(card));
        match replay_owner(&claims.replay_hands, card) {
            Some(p) => {
                if !scheduled.contains(&card) {
                    scheduled.insert(card);
                    let identities = match claims.exact_identity(card) {
                        Some(c) => crate::h_group::constraint_graph::singleton_is_only(c),
                        None => IdentitySet::empty(),
                    };
                    obligations.push(
                        ActionObligation {
                            actor: PlayerId::new(p as u8),
                            card,
                            action: ScheduledAction::Play,
                            identities,
                            promised_identity: None,
                            source,
                        },
                    );
                }
            },
            None => {},
        }
        k = k + 1;
    }
}

} // verus!
