//! Plain-value model of the standard Hanabi deck: suits, ranks, card
//! identities, physical card and player identifiers, clues and actions, and
//! the two small set types that the convention logic reads.

use vstd::prelude::*;

verus! {

/// Number of suits in a standard game.
pub const SUIT_COUNT: usize = 5;

/// Number of distinct card identities (suit, rank) in a standard game.
pub const IDENTITY_COUNT: usize = 25;

/// Maximum number of clue tokens.
pub const MAX_CLUE_TOKENS: u8 = 8;

/// One of the five standard suits, in Hanabi Live order.
#[derive(Clone, Copy, Debug, PartialEq, Eq, Structural, Hash)]
pub enum Suit {
    Red,
    Yellow,
    Green,
    Blue,
    Purple,
}

impl Suit {
    pub open spec fn spec_index(self) -> usize {
        match self {
            Suit::Red => 0,
            Suit::Yellow => 1,
            Suit::Green => 2,
            Suit::Blue => 3,
            Suit::Purple => 4,
        }
    }

    /// Position of the suit in the standard order.
    #[verifier::when_used_as_spec(spec_index)]
    pub fn index(self) -> (i: usize)
        ensures
            i == self.spec_index(),
            i < 5,
    {
        match self {
            Suit::Red => 0,
            Suit::Yellow => 1,
            Suit::Green => 2,
            Suit::Blue => 3,
            Suit::Purple => 4,
        }
    }

    pub open spec fn spec_from_index(i: usize) -> Suit {
        if i == 0 {
            Suit::Red
        } else if i == 1 {
            Suit::Yellow
        } else if i == 2 {
            Suit::Green
        } else if i == 3 {
            Suit::Blue
        } else {
            Suit::Purple
        }
    }

    /// The suit at position `i` of the standard order.
    pub fn from_index(i: usize) -> (suit: Suit)
        requires
            i < 5,
        ensures
            suit == Suit::spec_from_index(i),
            suit.spec_index() == i,
    {
        if i == 0 {
            Suit::Red
        } else if i == 1 {
            Suit::Yellow
        } else if i == 2 {
            Suit::Green
        } else if i == 3 {
            Suit::Blue
        } else {
            Suit::Purple
        }
    }
}

/// A card rank, 1 through 5.
#[derive(Clone, Copy, Debug, PartialEq, Eq, Structural, Hash)]
pub enum Rank {
    One,
    Two,
    Three,
    Four,
    Five,
}

impl Rank {
    pub open spec fn spec_number(self) -> u8 {
        match self {
            Rank::One => 1,
            Rank::Two => 2,
            Rank::Three => 3,
            Rank::Four => 4,
            Rank::Five => 5,
        }
    }

    /// The printed number of the rank.
    #[verifier::when_used_as_spec(spec_number)]
    pub fn number(self) -> (n: u8)
        ensures
            n == self.spec_number(),
            1 <= n <= 5,
    {
        match self {
            Rank::One => 1,
            Rank::Two => 2,
            Rank::Three => 3,
            Rank::Four => 4,
            Rank::Five => 5,
        }
    }

    pub open spec fn spec_index(self) -> usize {
        (self.spec_number() - 1) as usize
    }

    /// Zero-based position of the rank.
    #[verifier::when_used_as_spec(spec_index)]
    pub fn index(self) -> (i: usize)
        ensures
            i == self.spec_index(),
            i < 5,
    {
        (self.number() - 1) as usize
    }

    pub open spec fn spec_copies(self) -> u8 {
        match self {
            Rank::One => 3,
            Rank::Five => 1,
            _ => 2,
        }
    }

    /// Number of copies of each identity of this rank in a standard deck.
    #[verifier::when_used_as_spec(spec_copies)]
    pub fn copies(self) -> (c: u8)
        ensures
            c == self.spec_copies(),
    {
        match self {
            Rank::One => 3,
            Rank::Five => 1,
            _ => 2,
        }
    }

    pub open spec fn spec_from_index(i: usize) -> Rank {
        if i == 0 {
            Rank::One
        } else if i == 1 {
            Rank::Two
        } else if i == 2 {
            Rank::Three
        } else if i == 3 {
            Rank::Four
        } else {
            Rank::Five
        }
    }

    /// The rank at zero-based position `i`.
    pub fn from_index(i: usize) -> (rank: Rank)
        requires
            i < 5,
        ensures
            rank == Rank::spec_from_index(i),
            rank.spec_index() == i,
            rank.spec_number() == i + 1,
    {
        if i == 0 {
            Rank::One
        } else if i == 1 {
            Rank::Two
        } else if i == 2 {
            Rank::Three
        } else if i == 3 {
            Rank::Four
        } else {
            Rank::Five
        }
    }
}

/// A card identity: one suit and one rank.
#[derive(Clone, Copy, Debug, PartialEq, Eq, Structural, Hash)]
pub struct Card {
    pub suit: Suit,
    pub rank: Rank,
}

impl Card {
    pub fn new(suit: Suit, rank: Rank) -> (card: Card)
        ensures
            card.suit == suit,
            card.rank == rank,
    {
        Card { suit, rank }
    }

    pub open spec fn spec_index(self) -> usize {
        (self.suit.spec_index() * 5 + self.rank.spec_index()) as usize
    }

    /// Dense index of the identity, `suit * 5 + rank`.
    #[verifier::when_used_as_spec(spec_index)]
    pub fn index(self) -> (i: usize)
        ensures
            i == self.spec_index(),
            i < 25,
    {
        self.suit.index() * 5 + self.rank.index()
    }

    pub open spec fn spec_from_index(i: usize) -> Card {
        Card { suit: Suit::spec_from_index(i / 5), rank: Rank::spec_from_index(i % 5) }
    }

    /// The identity with dense index `i`.
    pub fn from_index(i: usize) -> (card: Card)
        requires
            i < 25,
        ensures
            card == Card::spec_from_index(i),
            card.spec_index() == i,
    {
        Card { suit: Suit::from_index(i / 5), rank: Rank::from_index(i % 5) }
    }
}

/// Every identity is recovered from its dense index.
pub proof fn lemma_card_index_roundtrip(card: Card)
    ensures
        card.spec_index() < 25,
        Card::spec_from_index(card.spec_index()) == card,
{
}

/// Distinct identities have distinct dense indices.
pub proof fn lemma_card_index_injective(a: Card, b: Card)
    ensures
        a.spec_index() == b.spec_index() ==> a == b,
{
    lemma_card_index_roundtrip(a);
    lemma_card_index_roundtrip(b);
}

/// Stable identifier of one physical card.
#[derive(Clone, Copy, Debug, PartialEq, Eq, Structural, Hash)]
pub struct CardId {
    pub id: u8,
}

impl CardId {
    pub fn new(id: u8) -> (card: CardId)
        ensures
            card.id == id,
    {
        CardId { id }
    }

    pub open spec fn spec_index(self) -> usize {
        self.id as usize
    }

    #[verifier::when_used_as_spec(spec_index)]
    pub fn index(self) -> (i: usize)
        ensures
            i == self.spec_index(),
    {
        self.id as usize
    }
}

/// A seat at the table.
#[derive(Clone, Copy, Debug, PartialEq, Eq, Structural, Hash)]
pub struct PlayerId {
    pub seat: u8,
}

impl PlayerId {
    pub fn new(seat: u8) -> (player: PlayerId)
        ensures
            player.seat == seat,
    {
        PlayerId { seat }
    }

    pub open spec fn spec_index(self) -> usize {
        self.seat as usize
    }

    #[verifier::when_used_as_spec(spec_index)]
    pub fn index(self) -> (i: usize)
        ensures
            i == self.spec_index(),
    {
        self.seat as usize
    }
}

/// A clue names one suit or one rank.
#[derive(Clone, Copy, Debug, PartialEq, Eq, Structural, Hash)]
pub enum Clue {
    Suit(Suit),
    Rank(Rank),
}

impl Clue {
    pub open spec fn spec_matches(self, card: Card) -> bool {
        match self {
            Clue::Suit(suit) => card.suit == suit,
            Clue::Rank(rank) => card.rank == rank,
        }
    }

    /// Whether the clue touches a card of this identity.
    #[verifier::when_used_as_spec(spec_matches)]
    pub fn matches(self, card: Card) -> (touches: bool)
        ensures
            touches == self.spec_matches(card),
    {
        match self {
            Clue::Suit(suit) => card.suit == suit,
            Clue::Rank(rank) => card.rank == rank,
        }
    }
}

/// One legal move: play a card, discard a card, or clue another player.
#[derive(Clone, Copy, Debug, PartialEq, Eq, Structural, Hash)]
pub enum Action {
    Play(CardId),
    Discard(CardId),
    Clue { target: PlayerId, clue: Clue },
}

/// The mask with every identity bit set.
pub const ALL_IDENTITIES_MASK: u32 = 0x01ff_ffff;

pub open spec fn mask_has(mask: u32, i: int) -> bool {
    (mask >> (i as u32)) & 1u32 == 1u32
}

proof fn lemma_bits_singleton(i: u32, j: u32)
    requires
        i < 25,
        j < 25,
    ensures
        ((1u32 << i) >> j) & 1u32 == 1u32 <==> i == j,
        (1u32 << i) <= ALL_IDENTITIES_MASK,
{
    assert(((1u32 << i) >> j) & 1u32 == 1u32 <==> i == j) by (bit_vector)
        requires
            i < 25,
            j < 25,
    ;
    assert((1u32 << i) <= 0x01ff_ffffu32) by (bit_vector)
        requires
            i < 25,
    ;
}

proof fn lemma_bits_union(a: u32, b: u32, j: u32)
    requires
        j < 32,
    ensures
        ((a | b) >> j) & 1u32 == 1u32 <==> ((a >> j) & 1u32 == 1u32 || (b >> j) & 1u32
            == 1u32),
{
    assert(((a | b) >> j) & 1u32 == 1u32 <==> ((a >> j) & 1u32 == 1u32 || (b >> j) & 1u32
        == 1u32)) by (bit_vector)
        requires
            j < 32,
    ;
}

proof fn lemma_bits_without(a: u32, b: u32, j: u32)
    requires
        j < 32,
    ensures
        ((a & !b) >> j) & 1u32 == 1u32 <==> ((a >> j) & 1u32 == 1u32 && (b >> j) & 1u32
            != 1u32),
{
    assert(((a & !b) >> j) & 1u32 == 1u32 <==> ((a >> j) & 1u32 == 1u32 && (b >> j) & 1u32
        != 1u32)) by (bit_vector)
        requires
            j < 32,
    ;
}

proof fn lemma_bits_bounded(a: u32, b: u32)
    requires
        a <= ALL_IDENTITIES_MASK,
        b <= ALL_IDENTITIES_MASK,
    ensures
        (a | b) <= ALL_IDENTITIES_MASK,
        (a & !b) <= ALL_IDENTITIES_MASK,
{
    assert((a | b) <= 0x01ff_ffffu32 && (a & !b) <= 0x01ff_ffffu32) by (bit_vector)
        requires
            a <= 0x01ff_ffffu32,
            b <= 0x01ff_ffffu32,
    ;
}

proof fn lemma_bits_all(j: u32)
    requires
        j < 25,
    ensures
        (ALL_IDENTITIES_MASK >> j) & 1u32 == 1u32,
        (0u32 >> j) & 1u32 != 1u32,
{
    assert((0x01ff_ffffu32 >> j) & 1u32 == 1u32 && (0u32 >> j) & 1u32 != 1u32) by (bit_vector)
        requires
            j < 25,
    ;
}

pub open spec fn bit(a: u32, j: u32) -> u32 {
    (a >> j) & 1u32
}

/// Two masks within the identity range are equal exactly when they have the
/// same identity bits.
proof fn lemma_bits_extensional(a: u32, b: u32)
    requires
        a <= ALL_IDENTITIES_MASK,
        b <= ALL_IDENTITIES_MASK,
        forall|j: u32| j < 25 ==> #[trigger] bit(a, j) == bit(b, j),
    ensures
        a == b,
{
    assert(bit(a, 0) == bit(b, 0) && bit(a, 1) == bit(b, 1) && bit(a, 2) == bit(b, 2) && bit(a, 3)
        == bit(b, 3) && bit(a, 4) == bit(b, 4) && bit(a, 5) == bit(b, 5) && bit(a, 6) == bit(b, 6)
        && bit(a, 7) == bit(b, 7) && bit(a, 8) == bit(b, 8) && bit(a, 9) == bit(b, 9) && bit(a, 10)
        == bit(b, 10) && bit(a, 11) == bit(b, 11) && bit(a, 12) == bit(b, 12) && bit(a, 13) == bit(
        b,
        13,
    ) && bit(a, 14) == bit(b, 14) && bit(a, 15) == bit(b, 15) && bit(a, 16) == bit(b, 16) && bit(
        a,
        17,
    ) == bit(b, 17) && bit(a, 18) == bit(b, 18) && bit(a, 19) == bit(b, 19) && bit(a, 20) == bit(
        b,
        20,
    ) && bit(a, 21) == bit(b, 21) && bit(a, 22) == bit(b, 22) && bit(a, 23) == bit(b, 23) && bit(
        a,
        24,
    ) == bit(b, 24));
    assert(a == b) by (bit_vector)
        requires
            a <= 0x01ff_ffffu32,
            b <= 0x01ff_ffffu32,
            (a >> 0u32) & 1u32 == (b >> 0u32) & 1u32,
            (a >> 1u32) & 1u32 == (b >> 1u32) & 1u32,
            (a >> 2u32) & 1u32 == (b >> 2u32) & 1u32,
            (a >> 3u32) & 1u32 == (b >> 3u32) & 1u32,
            (a >> 4u32) & 1u32 == (b >> 4u32) & 1u32,
            (a >> 5u32) & 1u32 == (b >> 5u32) & 1u32,
            (a >> 6u32) & 1u32 == (b >> 6u32) & 1u32,
            (a >> 7u32) & 1u32 == (b >> 7u32) & 1u32,
            (a >> 8u32) & 1u32 == (b >> 8u32) & 1u32,
            (a >> 9u32) & 1u32 == (b >> 9u32) & 1u32,
            (a >> 10u32) & 1u32 == (b >> 10u32) & 1u32,
            (a >> 11u32) & 1u32 == (b >> 11u32) & 1u32,
            (a >> 12u32) & 1u32 == (b >> 12u32) & 1u32,
            (a >> 13u32) & 1u32 == (b >> 13u32) & 1u32,
            (a >> 14u32) & 1u32 == (b >> 14u32) & 1u32,
            (a >> 15u32) & 1u32 == (b >> 15u32) & 1u32,
            (a >> 16u32) & 1u32 == (b >> 16u32) & 1u32,
            (a >> 17u32) & 1u32 == (b >> 17u32) & 1u32,
            (a >> 18u32) & 1u32 == (b >> 18u32) & 1u32,
            (a >> 19u32) & 1u32 == (b >> 19u32) & 1u32,
            (a >> 20u32) & 1u32 == (b >> 20u32) & 1u32,
            (a >> 21u32) & 1u32 == (b >> 21u32) & 1u32,
            (a >> 22u32) & 1u32 == (b >> 22u32) & 1u32,
            (a >> 23u32) & 1u32 == (b >> 23u32) & 1u32,
            (a >> 24u32) & 1u32 == (b >> 24u32) & 1u32,
    ;
}

proof fn lemma_bit_is_zero_or_one(a: u32, j: u32)
    ensures
        bit(a, j) == 1u32 || bit(a, j) == 0u32,
{
    assert((a >> j) & 1u32 == 1u32 || (a >> j) & 1u32 == 0u32) by (bit_vector);
}

/// Every dense index below 25 names the identity it indexes.
pub proof fn lemma_card_from_index(i: usize)
    requires
        i < 25,
    ensures
        Card::spec_from_index(i).spec_index() == i,
{
}

/// A set of card identities, stored as a 25-bit mask indexed by
/// `Card::index`.
#[derive(Clone, Copy, Debug, PartialEq, Eq, Structural, Hash)]
pub struct IdentitySet {
    pub mask: u32,
}

impl View for IdentitySet {
    type V = Set<Card>;

    open spec fn view(&self) -> Set<Card> {
        Set::new(|c: Card| mask_has(self.mask, c.spec_index() as int))
    }
}

impl IdentitySet {
    /// The mask uses only the 25 identity bits.
    pub open spec fn wf(self) -> bool {
        self.mask <= ALL_IDENTITIES_MASK
    }

    /// The empty set.
    pub fn empty() -> (set: IdentitySet)
        ensures
            set.wf(),
            set@ == Set::<Card>::empty(),
            set == (IdentitySet { mask: 0 }),
    {
        let set = IdentitySet { mask: 0 };
        proof {
            assert forall|c: Card| !set@.contains(c) by {
                lemma_bits_all(c.spec_index() as u32);
            }
            assert(set@ =~= Set::<Card>::empty());
        }
        set
    }

    /// Every identity.
    pub fn all() -> (set: IdentitySet)
        ensures
            set.wf(),
            set@ == Set::<Card>::full(),
    {
        let set = IdentitySet { mask: ALL_IDENTITIES_MASK };
        proof {
            assert forall|c: Card| set@.contains(c) by {
                lemma_bits_all(c.spec_index() as u32);
            }
            assert(set@ =~= Set::<Card>::full());
        }
        set
    }

    /// The set holding exactly `card`.
    pub fn singleton(card: Card) -> (set: IdentitySet)
        ensures
            set.wf(),
            set@ == Set::<Card>::empty().insert(card),
    {
        let i = card.index() as u32;
        let set = IdentitySet { mask: 1u32 << i };
        proof {
            lemma_bits_singleton(i, 0);
            assert forall|c: Card| set@.contains(c) <==> c == card by {
                lemma_bits_singleton(i, c.spec_index() as u32);
                lemma_card_index_injective(c, card);
            }
            assert(set@ =~= Set::<Card>::empty().insert(card));
        }
        set
    }

    /// Whether `card` is a member.
    pub fn contains(self, card: Card) -> (b: bool)
        ensures
            b == self@.contains(card),
    {
        (self.mask >> (card.index() as u32)) & 1u32 == 1u32
    }

    /// The members of either set.
    pub fn union(self, other: IdentitySet) -> (set: IdentitySet)
        requires
            self.wf(),
            other.wf(),
        ensures
            set.wf(),
            set@ == self@.union(other@),
    {
        let set = IdentitySet { mask: self.mask | other.mask };
        proof {
            lemma_bits_bounded(self.mask, other.mask);
            assert forall|c: Card| set@.contains(c) == self@.union(other@).contains(c) by {
                lemma_bits_union(self.mask, other.mask, c.spec_index() as u32);
            }
            assert(set@ =~= self@.union(other@));
        }
        set
    }

    /// The members of `self` that are not in `other`.
    pub fn without(self, other: IdentitySet) -> (set: IdentitySet)
        requires
            self.wf(),
            other.wf(),
        ensures
            set.wf(),
            set@ == self@.difference(other@),
    {
        let set = IdentitySet { mask: self.mask & !other.mask };
        proof {
            lemma_bits_bounded(self.mask, other.mask);
            assert forall|c: Card| set@.contains(c) == self@.difference(other@).contains(c) by {
                lemma_bits_without(self.mask, other.mask, c.spec_index() as u32);
            }
            assert(set@ =~= self@.difference(other@));
        }
        set
    }

    /// The members of both sets.
    pub fn intersection(self, other: IdentitySet) -> (set: IdentitySet)
        requires
            self.wf(),
            other.wf(),
        ensures
            set.wf(),
            set@ == self@.intersect(other@),
    {
        let outside = self.without(other);
        let set = self.without(outside);
        proof {
            assert(set@ =~= self@.intersect(other@));
        }
        set
    }

    /// Whether the set has no member.
    pub fn is_empty(self) -> (b: bool)
        ensures
            b == (self@ == Set::<Card>::empty()),
    {
        let mut i: usize = 0;
        while i < 25
            invariant
                i <= 25,
                forall|c: Card| c.spec_index() < i ==> !self@.contains(c),
            decreases 25 - i,
        {
            let card = Card::from_index(i);
            if self.contains(card) {
                assert(self@.contains(card));
                return false;
            }
            proof {
                assert forall|c: Card| c.spec_index() < i + 1 implies !self@.contains(c) by {
                    if c.spec_index() == i {
                        lemma_card_index_injective(c, card);
                    }
                }
            }
            i = i + 1;
        }
        proof {
            assert forall|c: Card| !self@.contains(c) by {
                lemma_card_index_roundtrip(c);
            }
            assert(self@ =~= Set::<Card>::empty());
        }
        true
    }

    /// Number of members.
    pub fn len(self) -> (n: usize)
        ensures
            n == self@.len(),
            n <= 25,
    {
        let mut count: usize = 0;
        let mut i: usize = 0;
        let ghost mut seen: Set<Card> = Set::empty();
        while i < 25
            invariant
                i <= 25,
                seen == self@.filter(|c: Card| c.spec_index() < i),
                seen.finite(),
                count == seen.len(),
                count <= i,
            decreases 25 - i,
        {
            let card = Card::from_index(i);
            let ghost next = self@.filter(|c: Card| c.spec_index() < i + 1);
            if self.contains(card) {
                proof {
                    assert(!seen.contains(card));
                    assert forall|c: Card| next.contains(c) <==> seen.insert(card).contains(c) by {
                        if c.spec_index() == i {
                            lemma_card_index_injective(c, card);
                        }
                    }
                    assert(next =~= seen.insert(card));
                    seen = next;
                }
                count = count + 1;
            } else {
                proof {
                    assert forall|c: Card| next.contains(c) <==> seen.contains(c) by {
                        if c.spec_index() == i {
                            lemma_card_index_injective(c, card);
                        }
                    }
                    assert(next =~= seen);
                    seen = next;
                }
            }
            i = i + 1;
        }
        proof {
            assert forall|c: Card| seen.contains(c) <==> self@.contains(c) by {
                lemma_card_index_roundtrip(c);
            }
            assert(seen =~= self@);
        }
        count
    }
}

/// The member of `set` with the smallest index at or after `i`.
pub open spec fn first_member_from(set: IdentitySet, i: int) -> Option<Card>
    decreases 25 - i,
{
    if i >= 25 || i < 0 {
        None
    } else if set@.contains(Card::spec_from_index(i as usize)) {
        Some(Card::spec_from_index(i as usize))
    } else {
        first_member_from(set, i + 1)
    }
}

impl IdentitySet {
    /// The only member, when the set has exactly one.
    pub fn sole(self) -> (r: Option<Card>)
        ensures
            r == if self@.len() == 1 {
                first_member_from(self, 0)
            } else {
                None
            },
    {
        if self.len() != 1 {
            return None;
        }
        let mut i: usize = 0;
        while i < 25
            invariant
                i <= 25,
                self@.len() == 1,
                first_member_from(self, 0) == first_member_from(self, i as int),
            decreases 25 - i,
        {
            let card = Card::from_index(i);
            if self.contains(card) {
                return Some(card);
            }
            i = i + 1;
        }
        None
    }
}

/// The first member found is a member.
pub proof fn lemma_first_member_is_member(set: IdentitySet, i: int)
    ensures
        first_member_from(set, i) matches Some(f) ==> set@.contains(f),
    decreases 25 - i,
{
    if 0 <= i < 25 && !set@.contains(Card::spec_from_index(i as usize)) {
        lemma_first_member_is_member(set, i + 1);
    }
}

/// Two well-formed identity sets with the same members are the same value.
pub proof fn lemma_identity_set_extensional(a: IdentitySet, b: IdentitySet)
    requires
        a.wf(),
        b.wf(),
        a@ == b@,
    ensures
        a == b,
{
    assert forall|j: u32| j < 25 implies #[trigger] bit(a.mask, j) == bit(b.mask, j) by {
        let c = Card::spec_from_index(j as usize);
        lemma_card_from_index(j as usize);
        assert(c.spec_index() == j as usize);
        assert(a@.contains(c) == mask_has(a.mask, j as int));
        assert(b@.contains(c) == mask_has(b.mask, j as int));
        assert(mask_has(a.mask, j as int) == (bit(a.mask, j) == 1u32));
        assert(mask_has(b.mask, j as int) == (bit(b.mask, j) == 1u32));
        assert(a@.contains(c) == b@.contains(c));
        lemma_bit_is_zero_or_one(a.mask, j);
        lemma_bit_is_zero_or_one(b.mask, j);
    }
    lemma_bits_extensional(a.mask, b.mask);
}

/// A set of physical cards, kept as a duplicate-free list in insertion order.
#[derive(Clone, Debug)]
pub struct CardSet {
    cards: Vec<CardId>,
}

impl View for CardSet {
    type V = Set<CardId>;

    closed spec fn view(&self) -> Set<CardId> {
        self.cards@.to_set()
    }
}

impl CardSet {
    /// No card is listed twice.
    pub closed spec fn wf(&self) -> bool {
        self.cards@.no_duplicates()
    }

    /// The members in insertion order.
    pub closed spec fn order(&self) -> Seq<CardId> {
        self.cards@
    }

    /// A card is a member exactly when it is listed.
    pub proof fn lemma_listed(&self)
        ensures
            forall|c: CardId| #[trigger] self@.contains(c) <==> self.order().contains(c),
    {
    }

    pub proof fn lemma_order(&self)
        requires
            self.wf(),
        ensures
            self.order().no_duplicates(),
            self.order().to_set() == self@,
            self.order().len() == self@.len(),
    {
        self.cards@.unique_seq_to_set();
    }

    pub fn new() -> (set: CardSet)
        ensures
            set.wf(),
            set@ == Set::<CardId>::empty(),
            set.order() == Seq::<CardId>::empty(),
    {
        let set = CardSet { cards: Vec::new() };
        proof {
            assert(set.cards@.to_set() =~= Set::<CardId>::empty());
        }
        set
    }

    pub fn contains(&self, card: &CardId) -> (b: bool)
        ensures
            b == self@.contains(*card),
    {
        let mut i: usize = 0;
        while i < self.cards.len()
            invariant
                i <= self.cards@.len(),
                forall|k: int| 0 <= k < i ==> self.cards@[k] != *card,
            decreases self.cards@.len() - i,
        {
            if self.cards[i] == *card {
                proof {
                    assert(self.cards@.contains(*card));
                }
                return true;
            }
            i = i + 1;
        }
        proof {
            assert(!self.cards@.contains(*card));
        }
        false
    }

    /// Adds `card`; returns whether it was absent before.
    pub fn insert(&mut self, card: CardId) -> (added: bool)
        requires
            old(self).wf(),
        ensures
            final(self).wf(),
            final(self)@ == old(self)@.insert(card),
            added == !old(self)@.contains(card),
            added ==> final(self).order() == old(self).order().push(card),
            !added ==> final(self).order() == old(self).order(),
    {
        if self.contains(&card) {
            return false;
        }
        self.cards.push(card);
        proof {
            assert(self.cards@ == old(self).cards@.push(card));
            old(self).cards@.lemma_push_to_set_commute(card);
        }
        true
    }

    /// Removes `card`; returns whether it was present.
    pub fn remove(&mut self, card: &CardId) -> (removed: bool)
        requires
            old(self).wf(),
        ensures
            final(self).wf(),
            final(self)@ == old(self)@.remove(*card),
            removed == old(self)@.contains(*card),
            removed ==> exists|i: int|
                0 <= i < old(self).order().len() && old(self).order()[i] == *card
                    && final(self).order() == old(self).order().remove(i),
            !removed ==> final(self).order() == old(self).order(),
    {
        let mut i: usize = 0;
        while i < self.cards.len()
            invariant
                i <= self.cards@.len(),
                self.cards@ == old(self).cards@,
                self.cards@.no_duplicates(),
                forall|k: int| 0 <= k < i ==> self.cards@[k] != *card,
            decreases self.cards@.len() - i,
        {
            if self.cards[i] == *card {
                let ghost before = self.cards@;
                self.cards.remove(i);
                proof {
                    assert(self.cards@ == before.remove(i as int));
                    assert forall|a: int, b: int|
                        0 <= a < b < self.cards@.len() implies self.cards@[a] != self.cards@[b] by {
                        let a2 = if a < i { a } else { a + 1 };
                        let b2 = if b < i { b } else { b + 1 };
                        assert(self.cards@[a] == before[a2]);
                        assert(self.cards@[b] == before[b2]);
                    }
                    assert forall|c: CardId| self.cards@.contains(c) <==> before.to_set().remove(
                        *card,
                    ).contains(c) by {
                        if self.cards@.contains(c) {
                            let k = choose|k: int| 0 <= k < self.cards@.len() && self.cards@[k] == c;
                            let k2 = if k < i { k } else { k + 1 };
                            assert(before[k2] == c);
                            assert(c != *card);
                        }
                        if before.contains(c) && c != *card {
                            let k = choose|k: int| 0 <= k < before.len() && before[k] == c;
                            assert(k != i);
                            let k2 = if k < i { k } else { k - 1 };
                            assert(self.cards@[k2] == c);
                        }
                    }
                    assert(self.cards@.to_set() =~= before.to_set().remove(*card));
                    assert(before[i as int] == *card);
                    assert(before == old(self).cards@);
                    assert(old(self).order()[i as int] == *card && self.order() == old(
                        self,
                    ).order().remove(i as int));
                }
                return true;
            }
            i = i + 1;
        }
        proof {
            assert(!self.cards@.contains(*card));
            assert(self.cards@.to_set() =~= old(self).cards@.to_set().remove(*card));
        }
        false
    }

    pub fn len(&self) -> (n: usize)
        requires
            self.wf(),
        ensures
            n == self@.len(),
    {
        proof {
            self.cards@.unique_seq_to_set();
        }
        self.cards.len()
    }

    /// The members in insertion order.
    pub fn to_vec(&self) -> (v: Vec<CardId>)
        ensures
            v@ == self.order(),
    {
        self.cards.clone()
    }
}

} // verus!
