//! Good Touch admission of a clue's newly promised cards.

use vstd::prelude::*;

use crate::cards::{first_member_from, Card, CardId, CardSet, Clue, IdentitySet, Rank};

verus! {

/// A card in some hand as the observer sees it: its identity when visible,
/// and whether it carries a positive clue of its own rank.
#[derive(Clone, Copy, Debug, PartialEq, Eq, Structural)]
pub struct VisibleCard {
    pub id: CardId,
    pub identity: Option<Card>,
    pub rank_clued: bool,
}

/// The identities convention notes allow for one card.
#[derive(Clone, Copy, Debug, PartialEq, Eq, Structural)]
pub struct CardNote {
    pub card: CardId,
    pub identities: IdentitySet,
}

/// Immutable inputs for Good Touch admission: every card in the hands, the
/// cards the clue newly touches, the clue with every card it touches, the
/// explicitly clued and fixed cards, the convention notes, and the
/// identities that are still eventually useful. Keeping the complete
/// consequence context together prevents validating only the focus while
/// ignoring other newly promised cards.
pub struct GoodTouchContext {
    pub cards: Vec<VisibleCard>,
    pub newly_touched: Vec<CardId>,
    pub clue: Option<(Clue, Vec<CardId>)>,
    pub explicitly_clued: CardSet,
    pub fixed_cards: CardSet,
    pub convention_cards: Vec<CardNote>,
    pub useful: IdentitySet,
}

/// The visible identity of the first card with identifier `id` at or after
/// position `k`.
pub open spec fn visible_from(cards: Seq<VisibleCard>, id: CardId, k: int) -> Option<Card>
    decreases cards.len() - k,
{
    if k < 0 || k >= cards.len() {
        None
    } else if cards[k].id == id {
        cards[k].identity
    } else {
        visible_from(cards, id, k + 1)
    }
}

/// Whether the first card with identifier `id` at or after `k` carries a
/// positive clue of its own rank.
pub open spec fn rank_clued_from(cards: Seq<VisibleCard>, id: CardId, k: int) -> bool
    decreases cards.len() - k,
{
    if k < 0 || k >= cards.len() {
        false
    } else if cards[k].id == id {
        cards[k].rank_clued
    } else {
        rank_clued_from(cards, id, k + 1)
    }
}

/// The identity of the first note for `id` at or after `k` that allows
/// exactly one identity.
pub open spec fn note_identity_from(notes: Seq<CardNote>, id: CardId, k: int) -> Option<Card>
    decreases notes.len() - k,
{
    if k < 0 || k >= notes.len() {
        None
    } else if notes[k].card == id && notes[k].identities@.len() == 1 {
        first_member_from(notes[k].identities, 0)
    } else {
        note_identity_from(notes, id, k + 1)
    }
}

/// Whether some note for `id` allows `identity`.
pub open spec fn note_allows(notes: Seq<CardNote>, id: CardId, identity: Card) -> bool {
    exists|k: int| 0 <= k < notes.len() && (#[trigger] notes[k]).card == id && notes[k].identities@.contains(identity)
}

/// The identity of `id` the observer knows: the visible one, else the one a
/// convention note pins down.
pub open spec fn known_identity(cards: Seq<VisibleCard>, notes: Seq<CardNote>, id: CardId) -> Option<Card> {
    match visible_from(cards, id, 0) {
        Some(c) => Some(c),
        None => note_identity_from(notes, id, 0),
    }
}

/// How many of `touched` are visibly `identity`.
pub open spec fn visibly_matching(touched: Seq<CardId>, cards: Seq<VisibleCard>, identity: Card) -> nat
    decreases touched.len(),
{
    if touched.len() == 0 {
        0
    } else {
        visibly_matching(touched.drop_last(), cards, identity) + if visible_from(cards, touched.last(), 0)
            == Some(identity) {
            1nat
        } else {
            0nat
        }
    }
}

/// The clue touches every copy of `identity` and establishes its rank: it is
/// a rank clue of that rank, or each touched copy already carries its rank.
pub open spec fn accounts_for_every_copy(cards: Seq<VisibleCard>, clue: Clue, touched: Seq<CardId>, identity: Card) -> bool {
    &&& visibly_matching(touched, cards, identity) == identity.rank.spec_copies()
    &&& (clue == Clue::Rank(identity.rank) || forall|i: int|
        0 <= i < touched.len() && visible_from(cards, #[trigger] touched[i], 0) == Some(identity)
            ==> rank_clued_from(cards, touched[i], 0))
}

/// How many newly touched cards are known to be `identity`.
pub open spec fn known_matching(newly: Seq<CardId>, cards: Seq<VisibleCard>, notes: Seq<CardNote>, identity: Card) -> nat
    decreases newly.len(),
{
    if newly.len() == 0 {
        0
    } else {
        known_matching(newly.drop_last(), cards, notes, identity) + if known_identity(cards, notes, newly.last())
            == Some(identity) {
            1nat
        } else {
            0nat
        }
    }
}

/// The context as plain values.
pub struct TouchView {
    pub cards: Seq<VisibleCard>,
    pub newly: Seq<CardId>,
    pub clue: Option<(Clue, Seq<CardId>)>,
    pub explicitly_clued: Set<CardId>,
    pub fixed: Set<CardId>,
    pub notes: Seq<CardNote>,
    pub useful: Set<Card>,
}

impl View for GoodTouchContext {
    type V = TouchView;

    open spec fn view(&self) -> TouchView {
        TouchView {
            cards: self.cards@,
            newly: self.newly_touched@,
            clue: match self.clue {
                Some((clue, touched)) => Some((clue, touched@)),
                None => None,
            },
            explicitly_clued: self.explicitly_clued@,
            fixed: self.fixed_cards@,
            notes: self.convention_cards@,
            useful: self.useful@,
        }
    }
}

/// The clue gets exactly one new copy of `identity`, establishes its rank
/// and touches every copy, so the older copies become known trash once it
/// plays.
pub open spec fn accounts_for_one_new_copy(t: TouchView, identity: Card) -> bool {
    match t.clue {
        Some((clue, touched)) => accounts_for_every_copy(t.cards, clue, touched, identity) && known_matching(
            t.newly,
            t.cards,
            t.notes,
            identity,
        ) == 1,
        None => false,
    }
}

/// Some other clued, unfixed card is known to be `identity`.
pub open spec fn known_duplicate_elsewhere(t: TouchView, card: CardId, identity: Card) -> bool {
    exists|j: int|
        0 <= j < t.cards.len() && {
            let other = #[trigger] t.cards[j];
            &&& other.id != card
            &&& (t.explicitly_clued.contains(other.id) || t.newly.contains(other.id))
            &&& !t.fixed.contains(other.id)
            &&& known_identity(t.cards, t.notes, other.id) == Some(identity)
        }
}

/// Duplication Responsibility permits risking an ambiguous matching card,
/// not knowingly touching a useful duplicate.
pub open spec fn spec_duplicates_known(t: TouchView) -> bool {
    exists|i: int|
        0 <= i < t.newly.len() && {
            let card = #[trigger] t.newly[i];
            &&& known_identity(t.cards, t.notes, card) is Some
            &&& t.useful.contains(known_identity(t.cards, t.notes, card)->0)
            &&& !accounts_for_one_new_copy(t, known_identity(t.cards, t.notes, card)->0)
            &&& known_duplicate_elsewhere(t, card, known_identity(t.cards, t.notes, card)->0)
        }
}

/// Some other explicitly clued, unfixed card already promises `identity`:
/// it is known to be it, or it is an unseen card whose notes allow it when
/// `identity` is a 1.
pub open spec fn promised_elsewhere(t: TouchView, card: CardId, identity: Card) -> bool {
    exists|j: int|
        0 <= j < t.cards.len() && {
            let other = #[trigger] t.cards[j];
            &&& other.id != card
            &&& t.explicitly_clued.contains(other.id)
            &&& !t.fixed.contains(other.id)
            &&& (known_identity(t.cards, t.notes, other.id) == Some(identity) || (identity.rank == Rank::One
                && other.identity is None && note_allows(t.notes, other.id, identity)))
        }
}

/// Good Touch over the newly touched cards from position `k`, with the
/// identities already promised by the earlier ones.
pub open spec fn admitted_from(t: TouchView, k: int, promised: Set<Card>) -> bool
    decreases t.newly.len() - k,
{
    if k < 0 || k >= t.newly.len() {
        true
    } else {
        let card = t.newly[k];
        let identity = known_identity(t.cards, t.notes, card)->0;
        let accounted = accounts_for_one_new_copy(t, identity);
        if promised.contains(identity) && !accounted {
            false
        } else if !accounted && promised_elsewhere(t, card, identity) {
            false
        } else {
            admitted_from(t, k + 1, promised.insert(identity))
        }
    }
}

/// Every newly touched card is known and still useful, and no recipient
/// would acquire an impossible duplicate play obligation.
pub open spec fn spec_good_touch(t: TouchView) -> bool {
    &&& forall|i: int|
        0 <= i < t.newly.len() ==> {
            let known = known_identity(t.cards, t.notes, #[trigger] t.newly[i]);
            known is Some && t.useful.contains(known->0)
        }
    &&& admitted_from(t, 0, Set::empty())
}

pub(crate) fn visible_identity(cards: &Vec<VisibleCard>, id: CardId) -> (r: Option<Card>)
    ensures
        r == visible_from(cards@, id, 0),
{
    let mut k: usize = 0;
    while k < cards.len()
        invariant
            k <= cards@.len(),
            visible_from(cards@, id, 0) == visible_from(cards@, id, k as int),
        decreases cards@.len() - k,
    {
        if cards[k].id == id {
            return cards[k].identity;
        }
        k = k + 1;
    }
    None
}

fn rank_clued(cards: &Vec<VisibleCard>, id: CardId) -> (r: bool)
    ensures
        r == rank_clued_from(cards@, id, 0),
{
    let mut k: usize = 0;
    while k < cards.len()
        invariant
            k <= cards@.len(),
            rank_clued_from(cards@, id, 0) == rank_clued_from(cards@, id, k as int),
        decreases cards@.len() - k,
    {
        if cards[k].id == id {
            return cards[k].rank_clued;
        }
        k = k + 1;
    }
    false
}

fn note_identity(notes: &Vec<CardNote>, id: CardId) -> (r: Option<Card>)
    ensures
        r == note_identity_from(notes@, id, 0),
{
    let mut k: usize = 0;
    while k < notes.len()
        invariant
            k <= notes@.len(),
            note_identity_from(notes@, id, 0) == note_identity_from(notes@, id, k as int),
        decreases notes@.len() - k,
    {
        if notes[k].card == id && notes[k].identities.len() == 1 {
            return notes[k].identities.sole();
        }
        k = k + 1;
    }
    None
}

fn notes_allow(notes: &Vec<CardNote>, id: CardId, identity: Card) -> (b: bool)
    ensures
        b == note_allows(notes@, id, identity),
{
    let mut k: usize = 0;
    while k < notes.len()
        invariant
            k <= notes@.len(),
            forall|j: int| 0 <= j < k ==> !((#[trigger] notes@[j]).card == id && notes@[j].identities@.contains(identity)),
        decreases notes@.len() - k,
    {
        if notes[k].card == id && notes[k].identities.contains(identity) {
            return true;
        }
        k = k + 1;
    }
    false
}

impl GoodTouchContext {
    /// The identity of `card` the observer knows.
    pub fn known_identity(&self, card: CardId) -> (r: Option<Card>)
        ensures
            r == known_identity(self@.cards, self@.notes, card),
    {
        match visible_identity(&self.cards, card) {
            Some(c) => Some(c),
            None => note_identity(&self.convention_cards, card),
        }
    }

    fn count_known(&self, identity: Card) -> (n: usize)
        ensures
            n == known_matching(self@.newly, self@.cards, self@.notes, identity),
    {
        let mut n: usize = 0;
        let mut k: usize = 0;
        while k < self.newly_touched.len()
            invariant
                k <= self@.newly.len(),
                n <= k,
                n == known_matching(self@.newly.take(k as int), self@.cards, self@.notes, identity),
            decreases self@.newly.len() - k,
        {
            proof {
                assert(self@.newly.take(k + 1).drop_last() =~= self@.newly.take(k as int));
            }
            if self.known_identity(self.newly_touched[k]) == Some(identity) {
                n = n + 1;
            }
            k = k + 1;
        }
        proof {
            assert(self@.newly.take(k as int) =~= self@.newly);
        }
        n
    }

    /// Whether the clue gets exactly one new copy of `identity` while
    /// touching every copy and establishing its rank.
    pub fn accounts_for_one_new_copy(&self, identity: Card) -> (b: bool)
        ensures
            b == accounts_for_one_new_copy(self@, identity),
    {
        match &self.clue {
            Some((clue, touched)) => clue_accounts_for_every_copy(&self.cards, *clue, touched, identity)
                && self.count_known(identity) == 1,
            None => false,
        }
    }

    fn duplicate_elsewhere(&self, card: CardId, identity: Card) -> (b: bool)
        ensures
            b == known_duplicate_elsewhere(self@, card, identity),
    {
        let mut j: usize = 0;
        while j < self.cards.len()
            invariant
                j <= self@.cards.len(),
                forall|m: int|
                    0 <= m < j ==> !({
                        let other = #[trigger] self@.cards[m];
                        &&& other.id != card
                        &&& (self@.explicitly_clued.contains(other.id) || self@.newly.contains(other.id))
                        &&& !self@.fixed.contains(other.id)
                        &&& known_identity(self@.cards, self@.notes, other.id) == Some(identity)
                    }),
            decreases self@.cards.len() - j,
        {
            let other = self.cards[j];
            if other.id != card && (self.explicitly_clued.contains(&other.id)
                || crate::h_group::hand::list_contains(self.newly_touched.as_slice(), other.id))
                && !self.fixed_cards.contains(&other.id) && self.known_identity(other.id) == Some(identity) {
                return true;
            }
            j = j + 1;
        }
        false
    }

    fn promised_by_other(&self, card: CardId, identity: Card) -> (b: bool)
        ensures
            b == promised_elsewhere(self@, card, identity),
    {
        let mut j: usize = 0;
        while j < self.cards.len()
            invariant
                j <= self@.cards.len(),
                forall|m: int|
                    0 <= m < j ==> !({
                        let other = #[trigger] self@.cards[m];
                        &&& other.id != card
                        &&& self@.explicitly_clued.contains(other.id)
                        &&& !self@.fixed.contains(other.id)
                        &&& (known_identity(self@.cards, self@.notes, other.id) == Some(identity) || (
                        identity.rank == Rank::One && other.identity is None && note_allows(
                            self@.notes,
                            other.id,
                            identity,
                        )))
                    }),
            decreases self@.cards.len() - j,
        {
            let other = self.cards[j];
            if other.id != card && self.explicitly_clued.contains(&other.id) && !self.fixed_cards.contains(
                &other.id,
            ) && (self.known_identity(other.id) == Some(identity) || (identity.rank == Rank::One
                && other.identity.is_none() && notes_allow(&self.convention_cards, other.id, identity))) {
                return true;
            }
            j = j + 1;
        }
        false
    }

    /// Duplication Responsibility permits risking an ambiguous matching card,
    /// not knowingly touching a useful duplicate. This applies to Save
    /// collateral too.
    /// <https://hanabi.github.io/level-12/#duplication-responsibility>
    pub fn duplicates_known_good_touch(&self) -> (b: bool)
        ensures
            b == spec_duplicates_known(self@),
    {
        let mut i: usize = 0;
        while i < self.newly_touched.len()
            invariant
                i <= self@.newly.len(),
                forall|m: int|
                    0 <= m < i ==> !({
                        let card = #[trigger] self@.newly[m];
                        &&& known_identity(self@.cards, self@.notes, card) is Some
                        &&& self@.useful.contains(known_identity(self@.cards, self@.notes, card)->0)
                        &&& !accounts_for_one_new_copy(self@, known_identity(self@.cards, self@.notes, card)->0)
                        &&& known_duplicate_elsewhere(self@, card, known_identity(self@.cards, self@.notes, card)->0)
                    }),
            decreases self@.newly.len() - i,
        {
            let card = self.newly_touched[i];
            match self.known_identity(card) {
                Some(identity) => {
                    if self.useful.contains(identity) && !self.accounts_for_one_new_copy(identity)
                        && self.duplicate_elsewhere(card, identity) {
                        return true;
                    }
                },
                None => {},
            }
            i = i + 1;
        }
        false
    }

    /// Admits the clue only when every newly touched card is known and still
    /// useful and no recipient would acquire an impossible duplicate play
    /// obligation.
    /// <https://hanabi.github.io/level-1/#good-touch-principle>
    pub fn good_touch(&self) -> (b: bool)
        ensures
            b == spec_good_touch(self@),
    {
        let mut i: usize = 0;
        while i < self.newly_touched.len()
            invariant
                i <= self@.newly.len(),
                forall|m: int|
                    0 <= m < i ==> {
                        let known = known_identity(self@.cards, self@.notes, #[trigger] self@.newly[m]);
                        known is Some && self@.useful.contains(known->0)
                    },
            decreases self@.newly.len() - i,
        {
            match self.known_identity(self.newly_touched[i]) {
                Some(identity) => {
                    if !self.useful.contains(identity) {
                        return false;
                    }
                },
                None => {
                    return false;
                },
            }
            i = i + 1;
        }
        let mut promised = IdentitySet::empty();
        let mut k: usize = 0;
        while k < self.newly_touched.len()
            invariant
                k <= self@.newly.len(),
                promised.wf(),
                forall|m: int|
                    0 <= m < self@.newly.len() ==> {
                        let known = known_identity(self@.cards, self@.notes, #[trigger] self@.newly[m]);
                        known is Some && self@.useful.contains(known->0)
                    },
                admitted_from(self@, 0, Set::empty()) == admitted_from(self@, k as int, promised@),
            decreases self@.newly.len() - k,
        {
            let card = self.newly_touched[k];
            let identity = match self.known_identity(card) {
                Some(identity) => identity,
                None => Card { suit: crate::cards::Suit::Red, rank: Rank::One },
            };
            proof {
                assert(known_identity(self@.cards, self@.notes, self@.newly[k as int]) is Some);
            }
            let accounted = self.accounts_for_one_new_copy(identity);
            if promised.contains(identity) && !accounted {
                return false;
            }
            let ghost before = promised@;
            promised = promised.union(IdentitySet::singleton(identity));
            proof {
                assert(promised@ =~= before.insert(identity));
            }
            if !accounted && self.promised_by_other(card, identity) {
                return false;
            }
            k = k + 1;
        }
        true
    }
}

/// A duplicate touch does not violate Good Touch when the clue gets only one
/// new copy, establishes its rank, and also touches every physical copy of
/// that identity: once the newly focused copy plays, card-count elimination
/// makes every previously gotten copy known trash.
/// <https://hanabi.github.io/level-1/#good-touch-principle>
pub fn clue_accounts_for_every_copy(cards: &Vec<VisibleCard>, clue: Clue, touched: &Vec<CardId>, identity: Card) -> (b: bool)
    ensures
        b == accounts_for_every_copy(cards@, clue, touched@, identity),
{
    let mut matching: usize = 0;
    let mut all_clued = true;
    let mut k: usize = 0;
    while k < touched.len()
        invariant
            k <= touched@.len(),
            matching <= k,
            matching == visibly_matching(touched@.take(k as int), cards@, identity),
            all_clued == forall|i: int|
                0 <= i < k && visible_from(cards@, #[trigger] touched@[i], 0) == Some(identity) ==> rank_clued_from(
                    cards@,
                    touched@[i],
                    0,
                ),
        decreases touched@.len() - k,
    {
        proof {
            assert(touched@.take(k + 1).drop_last() =~= touched@.take(k as int));
        }
        if visible_identity(cards, touched[k]) == Some(identity) {
            matching = matching + 1;
            if !rank_clued(cards, touched[k]) {
                all_clued = false;
            }
        }
        k = k + 1;
    }
    proof {
        assert(touched@.take(k as int) =~= touched@);
    }
    matching == identity.rank.copies() as usize && (clue == Clue::Rank(identity.rank) || all_clued)
}

/// The identity the newly touched card at position `k` is known to be.
pub open spec fn newly_identity(t: TouchView, k: int) -> Card {
    known_identity(t.cards, t.notes, t.newly[k])->0
}

/// What Good Touch admission guarantees from position `i` on: a card whose
/// identity is not accounted for is promised neither elsewhere nor by an
/// earlier card, and no two such cards share an identity.
proof fn lemma_admitted_steps(t: TouchView, i: int, promised: Set<Card>)
    requires
        0 <= i,
        admitted_from(t, i, promised),
    ensures
        forall|k: int|
            i <= k < t.newly.len() && !accounts_for_one_new_copy(t, #[trigger] newly_identity(t, k)) ==> !promised_elsewhere(
                t,
                t.newly[k],
                newly_identity(t, k),
            ) && !promised.contains(newly_identity(t, k)),
        forall|j: int, k: int|
            i <= j < k < t.newly.len() && !accounts_for_one_new_copy(t, #[trigger] newly_identity(t, k)) ==> #[trigger] newly_identity(t, j)
                != newly_identity(t, k),
    decreases t.newly.len() - i,
{
    if i < t.newly.len() {
        let x = newly_identity(t, i);
        lemma_admitted_steps(t, i + 1, promised.insert(x));
    }
}

/// Good Touch and Duplication Responsibility agree: a clue that knowingly
/// touches a useful duplicate, without accounting for every copy, never
/// passes Good Touch admission.
pub proof fn lemma_known_duplicate_is_not_good_touch(t: TouchView)
    requires
        spec_duplicates_known(t),
    ensures
        !spec_good_touch(t),
{
    if spec_good_touch(t) {
        lemma_admitted_steps(t, 0, Set::empty());
        let i = choose|i: int|
            0 <= i < t.newly.len() && {
                let card = #[trigger] t.newly[i];
                &&& known_identity(t.cards, t.notes, card) is Some
                &&& t.useful.contains(known_identity(t.cards, t.notes, card)->0)
                &&& !accounts_for_one_new_copy(t, known_identity(t.cards, t.notes, card)->0)
                &&& known_duplicate_elsewhere(t, card, known_identity(t.cards, t.notes, card)->0)
            };
        let card = t.newly[i];
        let x = newly_identity(t, i);
        let j = choose|j: int|
            0 <= j < t.cards.len() && {
                let other = #[trigger] t.cards[j];
                &&& other.id != card
                &&& (t.explicitly_clued.contains(other.id) || t.newly.contains(other.id))
                &&& !t.fixed.contains(other.id)
                &&& known_identity(t.cards, t.notes, other.id) == Some(x)
            };
        let other = t.cards[j];
        if t.explicitly_clued.contains(other.id) {
            assert(promised_elsewhere(t, card, x));
            assert(!accounts_for_one_new_copy(t, newly_identity(t, i)));
        } else {
            let m = choose|m: int| 0 <= m < t.newly.len() && t.newly[m] == other.id;
            assert(newly_identity(t, m) == x);
            if m < i {
                assert(newly_identity(t, m) != newly_identity(t, i));
            } else {
                assert(newly_identity(t, i) != newly_identity(t, m));
            }
        }
    }
}

} // verus!
