//! Observer-safe exact identity claims: what a card is known or promised to
//! be, and whether an identity is already claimed by another card.

use vstd::prelude::*;

use crate::cards::{
    first_member_from, lemma_card_index_injective, lemma_card_index_roundtrip, lemma_identity_set_extensional, Card,
    CardId, CardSet, IdentitySet, PlayerId,
};
use crate::h_group::admission::VisibleCard;
use crate::h_group::connection::{ConnectionManager, ManagerView};
use crate::h_group::facts::{ConventionFacts, FactsView};
use crate::h_group::hand::list_contains;
use crate::h_group::queue::{identity_of, seen_identity};

verus! {

/// What the interpretation of one clue records about it: its focus, the
/// identities the focus may have, and the identities it asks to be played.
#[derive(Clone, Copy, Debug, PartialEq, Eq, Structural)]
pub struct ClueReading {
    pub focus: CardId,
    pub focus_identities: IdentitySet,
    pub play_identities: IdentitySet,
}

/// The most recent of the first `n` readings whose focus is `card`.
pub open spec fn latest_reading(clues: Seq<ClueReading>, card: CardId, n: int) -> Option<ClueReading>
    decreases n,
{
    if n <= 0 || n > clues.len() {
        None
    } else if clues[n - 1].focus == card {
        Some(clues[n - 1])
    } else {
        latest_reading(clues, card, n - 1)
    }
}

/// The only member of `set`, when it has exactly one.
pub open spec fn sole_member(set: IdentitySet) -> Option<Card> {
    if set@.len() == 1 {
        first_member_from(set, 0)
    } else {
        None
    }
}

/// Observer-safe authority for exact convention identity claims: the hands
/// as the observer sees them, the current convention facts, the readings of
/// past clues oldest first, the cards already playing, the live connection
/// steps, the hands of the replay and the focuses a later clue invalidated.
/// Relational `OneOf` claims deliberately do not become exact claims on
/// every candidate.
pub struct IdentityClaims {
    pub hands: Vec<Vec<VisibleCard>>,
    pub facts: ConventionFacts,
    pub clues: Vec<ClueReading>,
    pub already_playing: CardSet,
    pub pending: ConnectionManager,
    pub replay_hands: Vec<Vec<CardId>>,
    pub invalidated_focuses: CardSet,
}

/// The inputs of identity claims as plain values.
pub struct ClaimsView {
    pub hands: Seq<Vec<VisibleCard>>,
    pub facts: FactsView,
    pub clues: Seq<ClueReading>,
    pub already_playing: Set<CardId>,
    pub pending: ManagerView,
    pub replay_hands: Seq<Vec<CardId>>,
    pub invalidated: Set<CardId>,
}

impl View for IdentityClaims {
    type V = ClaimsView;

    open spec fn view(&self) -> ClaimsView {
        ClaimsView {
            hands: self.hands@,
            facts: self.facts@,
            clues: self.clues@,
            already_playing: self.already_playing@,
            pending: self.pending@,
            replay_hands: self.replay_hands@,
            invalidated: self.invalidated_focuses@,
        }
    }
}

/// The exact identity of `card`: the visible one, else the one convention
/// facts know, else the sole focus identity of the latest clue on it.
pub open spec fn spec_exact_identity(v: ClaimsView, card: CardId) -> Option<Card> {
    match seen_identity(v.hands, card) {
        Some(c) => Some(c),
        None => match v.facts.known[card.id as int] {
            Some(c) => Some(c),
            None => match latest_reading(v.clues, card, v.clues.len() as int) {
                Some(r) => sole_member(r.focus_identities),
                None => None,
            },
        },
    }
}

/// The latest clue on `card` asks exactly `identity` of it.
pub open spec fn plays_exactly(clues: Seq<ClueReading>, card: CardId, identity: Card) -> bool {
    match latest_reading(clues, card, clues.len() as int) {
        Some(r) => r.play_identities@ == Set::<Card>::empty().insert(identity),
        None => false,
    }
}

/// A card other than `excluded` already claims `identity`: a card already
/// playing is exactly it, a live step not involving `excluded` expects it,
/// or an unfixed, still valid clued card in a hand was asked to play exactly
/// it.
pub open spec fn spec_claimed_elsewhere(v: ClaimsView, excluded: CardId, identity: Card) -> bool {
    ||| exists|c: CardId|
        #[trigger] v.already_playing.contains(c) && c != excluded && spec_exact_identity(v, c) == Some(identity)
    ||| exists|k: int|
        0 <= k < v.pending.active.len() && (#[trigger] v.pending.active[k]).expected == identity
            && !v.pending.active[k].cards.contains(excluded)
    ||| exists|p: int, j: int|
        0 <= p < v.replay_hands.len() && 0 <= j < v.replay_hands[p]@.len() && {
            let c = #[trigger] v.replay_hands[p]@[j];
            &&& c != excluded
            &&& !v.facts.fixed.contains(c)
            &&& !v.invalidated.contains(c)
            &&& plays_exactly(v.clues, c, identity)
        }
}

/// The sets every reading records are well formed.
pub open spec fn readings_wf(clues: Seq<ClueReading>) -> bool {
    forall|k: int|
        0 <= k < clues.len() ==> (#[trigger] clues[k]).play_identities.wf() && clues[k].focus_identities.wf()
}

/// The latest reading whose focus is `card`.
fn latest(clues: &Vec<ClueReading>, card: CardId) -> (r: Option<ClueReading>)
    ensures
        r == latest_reading(clues@, card, clues@.len() as int),
        r matches Some(x) ==> exists|k: int| 0 <= k < clues@.len() && clues@[k] == x,
{
    let mut n: usize = clues.len();
    while n > 0
        invariant
            n <= clues@.len(),
            latest_reading(clues@, card, clues@.len() as int) == latest_reading(clues@, card, n as int),
        decreases n,
    {
        if clues[n - 1].focus == card {
            assert(clues@[n - 1] == clues@[n - 1]);
            return Some(clues[n - 1]);
        }
        n = n - 1;
    }
    None
}

/// Whether a well-formed `set` holds exactly `identity`.
fn is_exactly(set: IdentitySet, identity: Card) -> (b: bool)
    requires
        set.wf(),
    ensures
        b == (set@ == Set::<Card>::empty().insert(identity)),
{
    let single = IdentitySet::singleton(identity);
    proof {
        if set@ == Set::<Card>::empty().insert(identity) {
            lemma_identity_set_extensional(set, single);
        }
    }
    set == single
}

impl IdentityClaims {
    /// The exact identity of `card`, visible or claimed by convention.
    pub fn exact_identity(&self, card: CardId) -> (r: Option<Card>)
        requires
            self.facts.wf(),
            card.id < 50,
        ensures
            r == spec_exact_identity(self@, card),
    {
        let seen = identity_of(&self.hands, card);
        match seen {
            Some(c) => Some(c),
            None => match self.facts.known_identity(card) {
                Some(c) => Some(c),
                None => match latest(&self.clues, card) {
                    Some(r) => r.focus_identities.sole(),
                    None => None,
                },
            },
        }
    }

    /// Whether a card other than `excluded` already claims `identity`.
    pub fn identity_claimed_elsewhere(&self, excluded: CardId, identity: Card) -> (b: bool)
        requires
            self.facts.wf(),
            readings_wf(self@.clues),
            forall|c: CardId| #[trigger] self@.already_playing.contains(c) ==> c.id < 50,
        ensures
            b == spec_claimed_elsewhere(self@, excluded, identity),
    {
        let playing = self.already_playing.to_vec();
        proof {
            self.already_playing.lemma_listed();
        }
        let mut i: usize = 0;
        while i < playing.len()
            invariant
                self.facts.wf(),
                i <= playing@.len(),
                playing@ == self.already_playing.order(),
                forall|c: CardId| #[trigger] self@.already_playing.contains(c) <==> playing@.contains(c),
                forall|c: CardId| #[trigger] self@.already_playing.contains(c) ==> c.id < 50,
                forall|m: int|
                    0 <= m < i ==> !(#[trigger] playing@[m] != excluded && spec_exact_identity(self@, playing@[m])
                        == Some(identity)),
            decreases playing@.len() - i,
        {
            let c = playing[i];
            assert(self@.already_playing.contains(c));
            if c != excluded && self.exact_identity(c) == Some(identity) {
                return true;
            }
            i = i + 1;
        }
        proof {
            assert forall|c: CardId| #[trigger] self@.already_playing.contains(c) implies !(c != excluded
                && spec_exact_identity(self@, c) == Some(identity)) by {
                let m = choose|m: int| 0 <= m < playing@.len() && playing@[m] == c;
                assert(playing@[m] == c);
            }
        }
        let active = self.pending.active();
        let mut k: usize = 0;
        while k < active.len()
            invariant
                k <= active@.len(),
                active@.len() == self@.pending.active.len(),
                forall|m: int| 0 <= m < active@.len() ==> #[trigger] self@.pending.active[m] == active@[m]@,
                forall|m: int|
                    0 <= m < k ==> !((#[trigger] self@.pending.active[m]).expected == identity
                        && !self@.pending.active[m].cards.contains(excluded)),
            decreases active@.len() - k,
        {
            assert(self@.pending.active[k as int] == active@[k as int]@);
            if active[k].expected == identity && !list_contains(active[k].cards.as_slice(), excluded) {
                return true;
            }
            k = k + 1;
        }
        let mut p: usize = 0;
        while p < self.replay_hands.len()
            invariant
                readings_wf(self@.clues),
                p <= self@.replay_hands.len(),
                forall|q: int, j: int|
                    0 <= q < p && 0 <= j < self@.replay_hands[q]@.len() ==> !({
                        let c = #[trigger] self@.replay_hands[q]@[j];
                        &&& c != excluded
                        &&& !self@.facts.fixed.contains(c)
                        &&& !self@.invalidated.contains(c)
                        &&& plays_exactly(self@.clues, c, identity)
                    }),
            decreases self@.replay_hands.len() - p,
        {
            let hand = &self.replay_hands[p];
            let mut j: usize = 0;
            while j < hand.len()
                invariant
                    readings_wf(self@.clues),
                    p < self@.replay_hands.len(),
                    hand@ == self@.replay_hands[p as int]@,
                    j <= hand@.len(),
                    forall|q: int, m: int|
                        0 <= q < p && 0 <= m < self@.replay_hands[q]@.len() ==> !({
                            let c = #[trigger] self@.replay_hands[q]@[m];
                            &&& c != excluded
                            &&& !self@.facts.fixed.contains(c)
                            &&& !self@.invalidated.contains(c)
                            &&& plays_exactly(self@.clues, c, identity)
                        }),
                    forall|m: int|
                        0 <= m < j ==> !({
                            let c = #[trigger] self@.replay_hands[p as int]@[m];
                            &&& c != excluded
                            &&& !self@.facts.fixed.contains(c)
                            &&& !self@.invalidated.contains(c)
                            &&& plays_exactly(self@.clues, c, identity)
                        }),
                decreases hand@.len() - j,
            {
                let c = hand[j];
                assert(c == self@.replay_hands[p as int]@[j as int]);
                if c != excluded && !self.facts.fixed_cards().contains(&c) && !self.invalidated_focuses.contains(&c) {
                    match latest(&self.clues, c) {
                        Some(r) => {
                            if is_exactly(r.play_identities, identity) {
                                return true;
                            }
                        },
                        None => {},
                    }
                }
                j = j + 1;
            }
            p = p + 1;
        }
        false
    }
}

/// Whether some hand lists `card`.
pub open spec fn held(hands: Seq<Vec<CardId>>, card: CardId) -> bool {
    exists|p: int| 0 <= p < hands.len() && (#[trigger] hands[p])@.contains(card)
}

/// The exact identity a gotten `card` holds at the time of a clue: the
/// historical one unless the giver holds it, else the sole logical one, else
/// the sole identity the latest clue on it asks to be played.
pub open spec fn claim_at_clue(
    giver_holds: bool,
    historical: Seq<Option<Card>>,
    logical: Seq<IdentitySet>,
    clues: Seq<ClueReading>,
    card: CardId,
) -> Option<Card> {
    if !giver_holds && historical[card.id as int] is Some {
        historical[card.id as int]
    } else if logical[card.id as int]@.len() == 1 {
        first_member_from(logical[card.id as int], 0)
    } else {
        match latest_reading(clues, card, clues.len() as int) {
            Some(r) => sole_member(r.play_identities),
            None => None,
        }
    }
}

/// A gotten card other than the focus that is still held and not fixed.
pub open spec fn counts_at_clue(focus: CardId, hands: Seq<Vec<CardId>>, fixed: Set<CardId>, gotten: Set<CardId>, card: CardId) -> bool {
    &&& gotten.contains(card)
    &&& card != focus
    &&& held(hands, card)
    &&& !fixed.contains(card)
}

/// The identities exactly claimed at a clue by the counted gotten cards.
pub open spec fn spec_claimed_at_clue(
    focus: CardId,
    giver: PlayerId,
    hands: Seq<Vec<CardId>>,
    historical: Seq<Option<Card>>,
    logical: Seq<IdentitySet>,
    fixed: Set<CardId>,
    clues: Seq<ClueReading>,
    gotten: Set<CardId>,
) -> Set<Card> {
    Set::new(
        |c: Card|
            exists|card: CardId|
                #[trigger] counts_at_clue(focus, hands, fixed, gotten, card) && claim_at_clue(
                    hands[giver.seat as int]@.contains(card),
                    historical,
                    logical,
                    clues,
                    card,
                ) == Some(c),
    )
}

fn held_anywhere(hands: &Vec<Vec<CardId>>, card: CardId) -> (b: bool)
    ensures
        b == held(hands@, card),
{
    let mut p: usize = 0;
    while p < hands.len()
        invariant
            p <= hands@.len(),
            forall|q: int| 0 <= q < p ==> !(#[trigger] hands@[q])@.contains(card),
        decreases hands@.len() - p,
    {
        if list_contains(hands[p].as_slice(), card) {
            assert(hands@[p as int]@.contains(card));
            return true;
        }
        p = p + 1;
    }
    false
}

/// Exact Good Touch claims visible while a clue is being interpreted: the
/// identities of the gotten cards other than the focus that are still held
/// and not fixed. A Save is protection, not an assertion that another clue
/// cannot retain the same identity, so only exact play promises count.
pub fn claimed_identities_at_clue(
    focus: CardId,
    giver: PlayerId,
    hands: &Vec<Vec<CardId>>,
    historical: &Vec<Option<Card>>,
    logical: &Vec<IdentitySet>,
    convention_facts: &ConventionFacts,
    clues: &Vec<ClueReading>,
    gotten: &CardSet,
) -> (claimed: IdentitySet)
    requires
        giver.seat < hands@.len(),
        readings_wf(clues@),
        forall|c: CardId| #[trigger] gotten@.contains(c) ==> c.id < historical@.len() && c.id < logical@.len(),
    ensures
        claimed.wf(),
        claimed@ == spec_claimed_at_clue(
            focus,
            giver,
            hands@,
            historical@,
            logical@,
            convention_facts@.fixed,
            clues@,
            gotten@,
        ),
{
    let cards = gotten.to_vec();
    proof {
        gotten.lemma_listed();
    }
    let ghost target = spec_claimed_at_clue(
        focus,
        giver,
        hands@,
        historical@,
        logical@,
        convention_facts@.fixed,
        clues@,
        gotten@,
    );
    let mut claimed = IdentitySet::empty();
    let mut i: usize = 0;
    while i < cards.len()
        invariant
            giver.seat < hands@.len(),
            readings_wf(clues@),
            forall|c: CardId| #[trigger] gotten@.contains(c) ==> c.id < historical@.len() && c.id < logical@.len(),
            i <= cards@.len(),
            cards@ == gotten.order(),
            forall|c: CardId| #[trigger] gotten@.contains(c) <==> cards@.contains(c),
            claimed.wf(),
            forall|x: Card|
                claimed@.contains(x) <==> exists|m: int|
                    0 <= m < i && #[trigger] counts_at_clue(focus, hands@, convention_facts@.fixed, gotten@, cards@[m])
                        && claim_at_clue(
                        hands@[giver.seat as int]@.contains(cards@[m]),
                        historical@,
                        logical@,
                        clues@,
                        cards@[m],
                    ) == Some(x),
        decreases cards@.len() - i,
    {
        let card = cards[i];
        assert(gotten@.contains(card));
        let counted = card != focus && held_anywhere(hands, card) && !convention_facts.fixed_cards().contains(&card);
        let giver_holds = list_contains(hands[giver.index()].as_slice(), card);
        let identity = if !giver_holds && historical[card.index()].is_some() {
            historical[card.index()]
        } else if logical[card.index()].len() == 1 {
            logical[card.index()].sole()
        } else {
            match latest(clues, card) {
                Some(r) => r.play_identities.sole(),
                None => None,
            }
        };
        assert(identity == claim_at_clue(giver_holds, historical@, logical@, clues@, card));
        let ghost before = claimed@;
        if counted {
            match identity {
                Some(c) => {
                    claimed = claimed.union(IdentitySet::singleton(c));
                },
                None => {},
            }
        }
        proof {
            assert(counted == counts_at_clue(focus, hands@, convention_facts@.fixed, gotten@, card));
            assert forall|x: Card|
                claimed@.contains(x) <==> exists|m: int|
                    0 <= m < i + 1 && #[trigger] counts_at_clue(
                        focus,
                        hands@,
                        convention_facts@.fixed,
                        gotten@,
                        cards@[m],
                    ) && claim_at_clue(
                        hands@[giver.seat as int]@.contains(cards@[m]),
                        historical@,
                        logical@,
                        clues@,
                        cards@[m],
                    ) == Some(x) by {
                if claimed@.contains(x) && !before.contains(x) {
                    assert(cards@[i as int] == card);
                }
                if exists|m: int|
                    0 <= m < i + 1 && #[trigger] counts_at_clue(
                        focus,
                        hands@,
                        convention_facts@.fixed,
                        gotten@,
                        cards@[m],
                    ) && claim_at_clue(
                        hands@[giver.seat as int]@.contains(cards@[m]),
                        historical@,
                        logical@,
                        clues@,
                        cards@[m],
                    ) == Some(x) {
                    let m = choose|m: int|
                        0 <= m < i + 1 && #[trigger] counts_at_clue(
                            focus,
                            hands@,
                            convention_facts@.fixed,
                            gotten@,
                            cards@[m],
                        ) && claim_at_clue(
                            hands@[giver.seat as int]@.contains(cards@[m]),
                            historical@,
                            logical@,
                            clues@,
                            cards@[m],
                        ) == Some(x);
                    if m < i {
                        assert(before.contains(x));
                    }
                }
            }
        }
        i = i + 1;
    }
    proof {
        assert forall|x: Card| claimed@.contains(x) <==> target.contains(x) by {
            if claimed@.contains(x) {
                let m = choose|m: int|
                    0 <= m < cards@.len() && #[trigger] counts_at_clue(
                        focus,
                        hands@,
                        convention_facts@.fixed,
                        gotten@,
                        cards@[m],
                    ) && claim_at_clue(
                        hands@[giver.seat as int]@.contains(cards@[m]),
                        historical@,
                        logical@,
                        clues@,
                        cards@[m],
                    ) == Some(x);
                let card = cards@[m];
                assert(counts_at_clue(focus, hands@, convention_facts@.fixed, gotten@, card));
            }
            if target.contains(x) {
                let card = choose|card: CardId|
                    #[trigger] counts_at_clue(focus, hands@, convention_facts@.fixed, gotten@, card) && claim_at_clue(
                        hands@[giver.seat as int]@.contains(card),
                        historical@,
                        logical@,
                        clues@,
                        card,
                    ) == Some(x);
                assert(cards@.contains(card));
                let m = choose|m: int| 0 <= m < cards@.len() && cards@[m] == card;
                assert(counts_at_clue(focus, hands@, convention_facts@.fixed, gotten@, cards@[m]));
            }
        }
        assert(claimed@ =~= target);
    }
    claimed
}

/// The members of `set` not yet played at `heights`.
pub open spec fn unplayed(set: Set<Card>, heights: Seq<u8>) -> Set<Card> {
    Set::new(|c: Card| set.contains(c) && c.rank.spec_number() > heights[c.suit.spec_index() as int])
}

/// The members of a well-formed `set` not yet played at `heights`.
fn unplayed_identities(set: IdentitySet, heights: [u8; 5]) -> (r: IdentitySet)
    requires
        set.wf(),
    ensures
        r.wf(),
        r@ == unplayed(set@, heights@),
{
    let mut r = IdentitySet::empty();
    let mut i: usize = 0;
    while i < 25
        invariant
            i <= 25,
            r.wf(),
            forall|c: Card|
                r@.contains(c) <==> (c.spec_index() < i && set@.contains(c) && c.rank.spec_number()
                    > heights@[c.suit.spec_index() as int]),
        decreases 25 - i,
    {
        let card = Card::from_index(i);
        let ghost before = r@;
        if set.contains(card) && card.rank.number() > heights[card.suit.index()] {
            r = r.union(IdentitySet::singleton(card));
        }
        proof {
            assert forall|c: Card|
                r@.contains(c) <==> (c.spec_index() < i + 1 && set@.contains(c) && c.rank.spec_number()
                    > heights@[c.suit.spec_index() as int]) by {
                lemma_card_index_injective(c, card);
            }
        }
        i = i + 1;
    }
    proof {
        assert forall|c: Card| r@.contains(c) <==> unplayed(set@, heights@).contains(c) by {
            lemma_card_index_roundtrip(c);
        }
        assert(r@ =~= unplayed(set@, heights@));
    }
    r
}

/// Whether another card already playing claims `x`: it is visibly `x`, or
/// it is unseen and the unplayed identities its latest clue asks to be
/// played are exactly `x`.
pub open spec fn playing_claims(
    hands: Seq<Vec<VisibleCard>>,
    clues: Seq<ClueReading>,
    heights: Seq<u8>,
    card: CardId,
    x: Card,
) -> bool {
    match seen_identity(hands, card) {
        Some(c) => c == x,
        None => match latest_reading(clues, card, clues.len() as int) {
            Some(r) => unplayed(r.play_identities@, heights) == Set::<Card>::empty().insert(x),
            None => false,
        },
    }
}

/// The identities the cards already playing, other than `card`, claim.
pub open spec fn claimed_by_others(
    hands: Seq<Vec<VisibleCard>>,
    clues: Seq<ClueReading>,
    heights: Seq<u8>,
    already_playing: Set<CardId>,
    card: CardId,
) -> Set<Card> {
    Set::new(
        |x: Card|
            exists|o: CardId|
                #[trigger] already_playing.contains(o) && o != card && playing_claims(hands, clues, heights, o, x),
    )
}

/// Whether the latest clue on `card` still asks it to be exactly `expected`
/// (or, when ambiguity is allowed, possibly `expected`) once the identities
/// other cards already playing claim are set aside.
pub open spec fn spec_focus_is_live_identity(
    card: CardId,
    expected: Card,
    hands: Seq<Vec<VisibleCard>>,
    clues: Seq<ClueReading>,
    already_playing: Set<CardId>,
    heights: Seq<u8>,
    allow_ambiguous_owned_identity: bool,
) -> bool {
    match latest_reading(clues, card, clues.len() as int) {
        None => false,
        Some(r) => {
            let live = unplayed(r.play_identities@, heights).difference(
                claimed_by_others(hands, clues, heights, already_playing, card),
            );
            live == Set::<Card>::empty().insert(expected) || (allow_ambiguous_owned_identity && live.contains(
                expected,
            ))
        },
    }
}

/// A set with a member at or after `i` has a first member from `i`.
proof fn lemma_first_member_some(set: IdentitySet, i: int)
    requires
        0 <= i <= 25,
        exists|c: Card| set@.contains(c) && c.spec_index() >= i,
    ensures
        first_member_from(set, i) is Some,
    decreases 25 - i,
{
    let c = choose|c: Card| set@.contains(c) && c.spec_index() >= i;
    lemma_card_index_roundtrip(c);
    if i < 25 && !set@.contains(Card::spec_from_index(i as usize)) {
        lemma_first_member_some(set, i + 1);
    }
}

/// The identity `card` claims while already playing, if any.
fn playing_claim(hands: &Vec<Vec<VisibleCard>>, clues: &Vec<ClueReading>, heights: [u8; 5], card: CardId) -> (r: Option<
    Card,
>)
    requires
        readings_wf(clues@),
    ensures
        forall|x: Card| playing_claims(hands@, clues@, heights@, card, x) <==> r == Some(x),
{
    let seen = identity_of(hands, card);
    match seen {
        Some(c) => {
            assert forall|x: Card| playing_claims(hands@, clues@, heights@, card, x) <==> Some(c) == Some(x) by {
                assert(seen_identity(hands@, card) == Some(c));
            }
            Some(c)
        },
        None => match latest(clues, card) {
            Some(reading) => {
                let u = unplayed_identities(reading.play_identities, heights);
                match u.sole() {
                    Some(c) => {
                        proof {
                            crate::cards::lemma_first_member_is_member(u, 0);
                        }
                        if is_exactly(u, c) {
                            proof {
                                assert forall|x: Card| u@ == Set::<Card>::empty().insert(x) <==> Some(c) == Some(
                                    x,
                                ) by {
                                    if u@ == Set::<Card>::empty().insert(x) {
                                        assert(Set::<Card>::empty().insert(c).contains(c));
                                    }
                                }
                            }
                            Some(c)
                        } else {
                            proof {
                                assert forall|x: Card| u@ != Set::<Card>::empty().insert(x) by {
                                    if u@ == Set::<Card>::empty().insert(x) {
                                        assert(u@.contains(c));
                                    }
                                }
                            }
                            None
                        }
                    },
                    None => {
                        proof {
                            assert forall|x: Card| u@ != Set::<Card>::empty().insert(x) by {
                                if u@ == Set::<Card>::empty().insert(x) {
                                    assert(u@.len() == 1);
                                    lemma_card_index_roundtrip(x);
                                    assert(u@.contains(x));
                                    lemma_first_member_some(u, 0);
                                }
                            }
                        }
                        None
                    },
                }
            },
            None => None,
        },
    }
}

/// Whether the latest clue on `card` still asks it to be `expected` once the
/// identities other cards already playing claim are set aside.
pub fn convention_focus_is_live_identity(
    card: CardId,
    expected: Card,
    hands: &Vec<Vec<VisibleCard>>,
    clues: &Vec<ClueReading>,
    already_playing: &CardSet,
    stack_heights: [u8; 5],
    allow_ambiguous_owned_identity: bool,
) -> (b: bool)
    requires
        readings_wf(clues@),
    ensures
        b == spec_focus_is_live_identity(
            card,
            expected,
            hands@,
            clues@,
            already_playing@,
            stack_heights@,
            allow_ambiguous_owned_identity,
        ),
{
    let reading = match latest(clues, card) {
        Some(r) => r,
        None => {
            return false;
        },
    };
    let base = unplayed_identities(reading.play_identities, stack_heights);
    let mut live = base;
    let others = already_playing.to_vec();
    proof {
        already_playing.lemma_listed();
    }
    let ghost claimed_upto = |k: int|
        Set::new(
            |x: Card|
                exists|m: int|
                    0 <= m < k && #[trigger] others@[m] != card && playing_claims(
                        hands@,
                        clues@,
                        stack_heights@,
                        others@[m],
                        x,
                    ),
        );
    let mut i: usize = 0;
    while i < others.len()
        invariant
            readings_wf(clues@),
            base.wf(),
            live.wf(),
            i <= others@.len(),
            live@ == base@.difference(claimed_upto(i as int)),
            claimed_upto == (|k: int|
                Set::new(
                    |x: Card|
                        exists|m: int|
                            0 <= m < k && #[trigger] others@[m] != card && playing_claims(
                                hands@,
                                clues@,
                                stack_heights@,
                                others@[m],
                                x,
                            ),
                )),
        decreases others@.len() - i,
    {
        let other = others[i];
        let ghost before = live@;
        if other != card {
            match playing_claim(hands, clues, stack_heights, other) {
                Some(c) => {
                    live = live.without(IdentitySet::singleton(c));
                },
                None => {},
            }
        }
        proof {
            assert forall|x: Card| #[trigger] claimed_upto((i + 1) as int).contains(x) <==> (claimed_upto(
                i as int,
            ).contains(x) || (other != card && playing_claims(hands@, clues@, stack_heights@, other, x))) by {
                if claimed_upto((i + 1) as int).contains(x) {
                    let m = choose|m: int|
                        0 <= m < i + 1 && #[trigger] others@[m] != card && playing_claims(
                            hands@,
                            clues@,
                            stack_heights@,
                            others@[m],
                            x,
                        );
                    if m < i {
                        assert(claimed_upto(i as int).contains(x));
                    }
                }
                if claimed_upto(i as int).contains(x) {
                    let m = choose|m: int|
                        0 <= m < i && #[trigger] others@[m] != card && playing_claims(
                            hands@,
                            clues@,
                            stack_heights@,
                            others@[m],
                            x,
                        );
                    assert(0 <= m < i + 1 && others@[m] != card);
                }
                if other != card && playing_claims(hands@, clues@, stack_heights@, other, x) {
                    assert(others@[i as int] == other);
                }
            }
            assert(live@ =~= base@.difference(claimed_upto((i + 1) as int)));
        }
        i = i + 1;
    }
    proof {
        let all = claimed_by_others(hands@, clues@, stack_heights@, already_playing@, card);
        assert forall|x: Card| claimed_upto(others@.len() as int).contains(x) <==> all.contains(x) by {
            if claimed_upto(others@.len() as int).contains(x) {
                let m = choose|m: int|
                    0 <= m < others@.len() && #[trigger] others@[m] != card && playing_claims(
                        hands@,
                        clues@,
                        stack_heights@,
                        others@[m],
                        x,
                    );
                assert(already_playing@.contains(others@[m]));
            }
            if all.contains(x) {
                let o = choose|o: CardId|
                    #[trigger] already_playing@.contains(o) && o != card && playing_claims(
                        hands@,
                        clues@,
                        stack_heights@,
                        o,
                        x,
                    );
                assert(others@.contains(o));
                let m = choose|m: int| 0 <= m < others@.len() && others@[m] == o;
                assert(others@[m] != card);
            }
        }
        assert(claimed_upto(others@.len() as int) =~= all);
    }
    is_exactly(live, expected) || (allow_ambiguous_owned_identity && live.contains(expected))
}

} // verus!
