//! Ordered future-card comparisons, not point bonuses: lower ranks and fewer
//! missing predecessors are preferable, and a near 4 with its visible 5 is
//! preferable to a distant 3.

use vstd::prelude::*;
use vstd::relations::*;
use vstd::std_specs::cmp::PartialOrdSpecImpl;

use crate::cards::Rank;

verus! {

broadcast use vstd::seq_lib::group_to_multiset_ensures;

/// One secured future card: its rank, how many of its predecessors are
/// missing, and whether its successor is visible.
#[derive(Clone, Copy, Debug, PartialEq, Eq, Structural)]
pub struct FutureCardQuality {
    pub rank: Rank,
    pub missing_predecessors: u8,
    pub visible_successor: bool,
}

/// Ascending strategic bands. The middle band encodes the visible-5
/// comparison without assigning arbitrary numeric weights.
#[derive(Clone, Copy, Debug, PartialEq, Eq, Structural)]
pub enum QualityBand {
    Five,
    Four,
    DistantThree,
    NearFourWithVisibleFive,
    NearThree,
    Two,
    One,
}

impl QualityBand {
    pub open spec fn spec_position(self) -> int {
        match self {
            QualityBand::Five => 0,
            QualityBand::Four => 1,
            QualityBand::DistantThree => 2,
            QualityBand::NearFourWithVisibleFive => 3,
            QualityBand::NearThree => 4,
            QualityBand::Two => 5,
            QualityBand::One => 6,
        }
    }

    /// Position of the band in ascending order.
    pub fn position(self) -> (p: u32)
        ensures
            p == self.spec_position(),
    {
        match self {
            QualityBand::Five => 0,
            QualityBand::Four => 1,
            QualityBand::DistantThree => 2,
            QualityBand::NearFourWithVisibleFive => 3,
            QualityBand::NearThree => 4,
            QualityBand::Two => 5,
            QualityBand::One => 6,
        }
    }
}

impl FutureCardQuality {
    pub open spec fn spec_band(self) -> QualityBand {
        match self.rank {
            Rank::One => QualityBand::One,
            Rank::Two => QualityBand::Two,
            Rank::Three => if self.missing_predecessors <= 1 {
                QualityBand::NearThree
            } else {
                QualityBand::DistantThree
            },
            Rank::Four => if self.missing_predecessors <= 1 && self.visible_successor {
                QualityBand::NearFourWithVisibleFive
            } else {
                QualityBand::Four
            },
            Rank::Five => QualityBand::Five,
        }
    }

    /// The strategic band of the card.
    pub fn band(self) -> (b: QualityBand)
        ensures
            b == self.spec_band(),
    {
        match self.rank {
            Rank::One => QualityBand::One,
            Rank::Two => QualityBand::Two,
            Rank::Three => if self.missing_predecessors <= 1 {
                QualityBand::NearThree
            } else {
                QualityBand::DistantThree
            },
            Rank::Four => if self.missing_predecessors <= 1 && self.visible_successor {
                QualityBand::NearFourWithVisibleFive
            } else {
                QualityBand::Four
            },
            Rank::Five => QualityBand::Five,
        }
    }

    /// The order key: band first, then fewer missing predecessors, then a
    /// visible successor.
    pub open spec fn spec_key(self) -> int {
        self.spec_band().spec_position() * 512 + (255 - self.missing_predecessors) * 2 + (
        if self.visible_successor {
            1int
        } else {
            0int
        })
    }

    /// The order key.
    pub fn key(self) -> (k: u32)
        ensures
            k == self.spec_key(),
    {
        self.band().position() * 512 + (255 - self.missing_predecessors as u32) * 2 + if self.visible_successor {
            1u32
        } else {
            0u32
        }
    }
}

/// Distinct qualities have distinct keys, so the key order is a total order
/// on qualities.
pub proof fn lemma_key_injective(a: FutureCardQuality, b: FutureCardQuality)
    ensures
        a.spec_key() == b.spec_key() ==> a == b,
{
    if a.spec_key() == b.spec_key() {
        assert(a.spec_band().spec_position() == b.spec_band().spec_position());
        assert(a.missing_predecessors == b.missing_predecessors);
        assert(a.visible_successor == b.visible_successor);
    }
}

pub open spec fn quality_order(a: FutureCardQuality, b: FutureCardQuality) -> core::cmp::Ordering {
    if a.spec_key() < b.spec_key() {
        core::cmp::Ordering::Less
    } else if a.spec_key() > b.spec_key() {
        core::cmp::Ordering::Greater
    } else {
        core::cmp::Ordering::Equal
    }
}

impl PartialOrd for FutureCardQuality {
    fn partial_cmp(&self, other: &Self) -> (r: Option<core::cmp::Ordering>) {
        let a = self.key();
        let b = other.key();
        if a < b {
            Some(core::cmp::Ordering::Less)
        } else if a > b {
            Some(core::cmp::Ordering::Greater)
        } else {
            Some(core::cmp::Ordering::Equal)
        }
    }
}

impl PartialOrdSpecImpl for FutureCardQuality {
    open spec fn obeys_partial_cmp_spec() -> bool {
        true
    }

    open spec fn partial_cmp_spec(&self, other: &Self) -> Option<core::cmp::Ordering> {
        Some(quality_order(*self, *other))
    }
}

/// Key of an optional quality; an absent quality ranks below every present one.
pub open spec fn option_key(q: Option<FutureCardQuality>) -> int {
    match q {
        Some(q) => q.spec_key(),
        None => -1,
    }
}

/// Descending order on optional qualities.
pub open spec fn descending() -> spec_fn(Option<FutureCardQuality>, Option<FutureCardQuality>) -> bool {
    |a: Option<FutureCardQuality>, b: Option<FutureCardQuality>| option_key(a) >= option_key(b)
}

/// The descending order is a total order.
pub proof fn lemma_descending_total()
    ensures
        total_ordering(descending()),
{
    assert forall|a: Option<FutureCardQuality>, b: Option<FutureCardQuality>|
        #[trigger] descending()(a, b) && #[trigger] descending()(b, a) implies a == b by {
        match (a, b) {
            (Some(x), Some(y)) => lemma_key_injective(x, y),
            _ => {
                if a is Some {
                    assert(a.unwrap().spec_key() >= 0);
                }
                if b is Some {
                    assert(b.unwrap().spec_key() >= 0);
                }
            },
        }
    }
}

fn option_key_exec(q: Option<FutureCardQuality>) -> (k: i64)
    ensures
        k == option_key(q),
{
    match q {
        Some(q) => q.key() as i64,
        None => -1,
    }
}

/// Distinct secured identities, ordered best first. Comparing matching cards
/// prevents many weak promises from being summed into one strong promise.
#[derive(Clone, Debug, PartialEq, Eq)]
pub struct SecuredCardQuality {
    cards: Vec<Option<FutureCardQuality>>,
}

impl View for SecuredCardQuality {
    type V = Seq<Option<FutureCardQuality>>;

    closed spec fn view(&self) -> Seq<Option<FutureCardQuality>> {
        self.cards@
    }
}

/// `cards` followed by absent entries up to 25.
pub open spec fn padded(cards: Seq<FutureCardQuality>) -> Seq<Option<FutureCardQuality>> {
    Seq::new(
        25,
        |i: int|
            if i < cards.len() {
                Some(cards[i])
            } else {
                None
            },
    )
}

impl SecuredCardQuality {
    /// No secured card.
    pub fn new() -> (s: Self)
        ensures
            s@ == Seq::new(25, |i: int| None::<FutureCardQuality>),
    {
        let mut cards: Vec<Option<FutureCardQuality>> = Vec::new();
        let mut i: usize = 0;
        while i < 25
            invariant
                i <= 25,
                cards@ == Seq::new(i as nat, |k: int| None::<FutureCardQuality>),
            decreases 25 - i,
        {
            cards.push(None);
            i = i + 1;
            proof {
                assert(cards@ =~= Seq::new(i as nat, |k: int| None::<FutureCardQuality>));
            }
        }
        SecuredCardQuality { cards }
    }

    /// The secured cards, best first: `cards` padded to 25 entries and
    /// sorted in descending order.
    pub fn from_cards(cards: Vec<FutureCardQuality>) -> (s: Self)
        requires
            cards@.len() <= 25,
        ensures
            s@ == padded(cards@).sort_by(descending()),
            s@.len() == 25,
            forall|other: Seq<FutureCardQuality>|
                #![trigger other.to_multiset()]
                other.to_multiset() == cards@.to_multiset() ==> s@ == padded(other).sort_by(descending()),
    {
        let mut rest: Vec<Option<FutureCardQuality>> = Vec::new();
        let mut i: usize = 0;
        while i < 25
            invariant
                i <= 25,
                cards@.len() <= 25,
                rest@ == padded(cards@).take(i as int),
            decreases 25 - i,
        {
            if i < cards.len() {
                rest.push(Some(cards[i]));
            } else {
                rest.push(None);
            }
            i = i + 1;
            proof {
                assert(rest@ =~= padded(cards@).take(i as int));
            }
        }
        proof {
            assert(padded(cards@).take(25) =~= padded(cards@));
        }
        let ghost input = rest@;
        let mut sorted: Vec<Option<FutureCardQuality>> = Vec::new();
        while rest.len() > 0
            invariant
                input.len() == 25,
                sorted@.len() + rest@.len() == 25,
                sorted@.to_multiset().add(rest@.to_multiset()) == input.to_multiset(),
                sorted_by(sorted@, descending()),
                forall|a: int, b: int|
                    0 <= a < sorted@.len() && 0 <= b < rest@.len() ==> option_key(
                        #[trigger] sorted@[a],
                    ) >= option_key(#[trigger] rest@[b]),
            decreases rest@.len(),
        {
            let mut best: usize = 0;
            let mut best_key = option_key_exec(rest[0]);
            let mut j: usize = 1;
            while j < rest.len()
                invariant
                    1 <= j <= rest@.len(),
                    best < rest@.len(),
                    best_key == option_key(rest@[best as int]),
                    forall|k: int| 0 <= k < j ==> option_key(#[trigger] rest@[k]) <= best_key,
                decreases rest@.len() - j,
            {
                let k = option_key_exec(rest[j]);
                if k > best_key {
                    best = j;
                    best_key = k;
                }
                j = j + 1;
            }
            let ghost before_rest = rest@;
            let ghost before_sorted = sorted@;
            let chosen = rest.remove(best);
            sorted.push(chosen);
            proof {
                vstd::seq_lib::to_multiset_remove(before_rest, best as int);
                vstd::seq_lib::to_multiset_build(before_sorted, chosen);
                assert(before_rest.remove(best as int) == rest@);
                assert(sorted@.to_multiset().add(rest@.to_multiset()) =~= before_sorted.to_multiset().add(
                    before_rest.to_multiset(),
                ));
                assert forall|a: int, b: int|
                    0 <= a < sorted@.len() && 0 <= b < rest@.len() implies option_key(
                    #[trigger] sorted@[a],
                ) >= option_key(#[trigger] rest@[b]) by {
                    let b2 = if b < best { b } else { b + 1 };
                    assert(rest@[b] == before_rest[b2]);
                    if a < before_sorted.len() {
                        assert(sorted@[a] == before_sorted[a]);
                    }
                }
                assert forall|a: int, b: int|
                    0 <= a < b < sorted@.len() implies #[trigger] descending()(sorted@[a], sorted@[b]) by {
                    if b < before_sorted.len() {
                        assert(sorted@[a] == before_sorted[a]);
                        assert(sorted@[b] == before_sorted[b]);
                    } else {
                        assert(sorted@[a] == before_sorted[a]);
                        assert(before_rest[best as int] == chosen);
                    }
                }
            }
        }
        proof {
            assert(rest@ =~= Seq::<Option<FutureCardQuality>>::empty());
            assert(sorted@.to_multiset().add(rest@.to_multiset()) =~= sorted@.to_multiset());
            lemma_descending_total();
            input.lemma_sort_by_ensures(descending());
            vstd::seq_lib::lemma_sorted_unique(sorted@, input.sort_by(descending()), descending());
            assert forall|other: Seq<FutureCardQuality>|
                #![trigger other.to_multiset()]
                other.to_multiset() == cards@.to_multiset() implies sorted@ == padded(other).sort_by(
                descending(),
            ) by {
                lemma_secured_order_invariant(cards@, other);
            }
        }
        SecuredCardQuality { cards: sorted }
    }

    /// Whether every position is at least as good as the same position of
    /// `other`.
    pub fn no_worse_than(&self, other: &Self) -> (b: bool)
        ensures
            b == forall|i: int|
                0 <= i < self@.len() && i < other@.len() ==> option_key(#[trigger] self@[i])
                    >= option_key(other@[i]),
    {
        let n = if self.cards.len() < other.cards.len() {
            self.cards.len()
        } else {
            other.cards.len()
        };
        let mut i: usize = 0;
        while i < n
            invariant
                i <= n,
                n <= self@.len(),
                n <= other@.len(),
                n == self@.len() || n == other@.len(),
                forall|k: int| 0 <= k < i ==> option_key(#[trigger] self@[k]) >= option_key(other@[k]),
            decreases n - i,
        {
            if option_key_exec(self.cards[i]) < option_key_exec(other.cards[i]) {
                return false;
            }
            i = i + 1;
        }
        true
    }
}

/// Each quality, present.
pub open spec fn present(cards: Seq<FutureCardQuality>) -> Seq<Option<FutureCardQuality>> {
    cards.map_values(|c: FutureCardQuality| Some(c))
}

/// Rearranging qualities rearranges their present entries.
proof fn lemma_present_multiset(a: Seq<FutureCardQuality>, b: Seq<FutureCardQuality>)
    requires
        a.to_multiset() == b.to_multiset(),
    ensures
        present(a).to_multiset() == present(b).to_multiset(),
    decreases a.len(),
{
    broadcast use vstd::multiset::group_multiset_axioms;

    vstd::seq_lib::to_multiset_len(a);
    vstd::seq_lib::to_multiset_len(b);
    if a.len() == 0 {
        assert(b.len() == 0);
        assert(present(a) =~= present(b));
    } else {
        let x = a[0];
        assert(a.to_multiset().contains(x));
        assert(b.contains(x));
        let i = choose|i: int| 0 <= i < b.len() && b[i] == x;
        let b2 = b.remove(i);
        let a2 = a.remove(0);
        vstd::seq_lib::to_multiset_remove(a, 0);
        vstd::seq_lib::to_multiset_remove(b, i);
        lemma_present_multiset(a2, b2);
        assert(present(a).remove(0) =~= present(a2));
        assert(present(b).remove(i) =~= present(b2));
        vstd::seq_lib::to_multiset_remove(present(a), 0);
        vstd::seq_lib::to_multiset_remove(present(b), i);
        assert(present(a)[0] == Some(x));
        assert(present(b)[i] == Some(x));
        let ma = present(a).to_multiset();
        let mb = present(b).to_multiset();
        assert(ma.count(Some(x)) > 0);
        assert(mb.count(Some(x)) > 0);
        assert(ma.remove(Some(x)) == mb.remove(Some(x)));
        assert forall|y: Option<FutureCardQuality>| ma.count(y) == mb.count(y) by {
            assert(ma.remove(Some(x)).count(y) == mb.remove(Some(x)).count(y));
        }
        assert(ma =~= mb);
    }
}

/// The padded entries are the present qualities followed by absent ones.
proof fn lemma_padded_split(cards: Seq<FutureCardQuality>)
    requires
        cards.len() <= 25,
    ensures
        padded(cards) == present(cards) + Seq::new(
            (25 - cards.len()) as nat,
            |i: int| None::<FutureCardQuality>,
        ),
{
    assert(padded(cards) =~= present(cards) + Seq::new(
        (25 - cards.len()) as nat,
        |i: int| None::<FutureCardQuality>,
    ));
}

/// The secured cards of `cards`: every quality present once per occurrence,
/// absent entries up to 25, best first. The absent entries come last, after
/// every present one.
pub proof fn lemma_secured_entries(cards: Seq<FutureCardQuality>)
    requires
        cards.len() <= 25,
    ensures
        padded(cards).sort_by(descending()).len() == 25,
        padded(cards).sort_by(descending()).to_multiset() == present(cards).to_multiset().add(
            Seq::new((25 - cards.len()) as nat, |i: int| None::<FutureCardQuality>).to_multiset(),
        ),
        sorted_by(padded(cards).sort_by(descending()), descending()),
        forall|i: int, j: int|
            0 <= i < j < 25 && (#[trigger] padded(cards).sort_by(descending())[i]) is None
                ==> (#[trigger] padded(cards).sort_by(descending())[j]) is None,
{
    let s = padded(cards).sort_by(descending());
    lemma_descending_total();
    padded(cards).lemma_sort_by_ensures(descending());
    vstd::seq_lib::to_multiset_len(padded(cards));
    vstd::seq_lib::to_multiset_len(s);
    lemma_padded_split(cards);
    vstd::seq_lib::lemma_multiset_commutative(
        present(cards),
        Seq::new((25 - cards.len()) as nat, |i: int| None::<FutureCardQuality>),
    );
    assert forall|i: int, j: int|
        0 <= i < j < 25 && (#[trigger] s[i]) is None implies (#[trigger] s[j]) is None by {
        assert(descending()(s[i], s[j]));
        assert(option_key(s[i]) >= option_key(s[j]));
        if s[j] is Some {
            assert(s[j].unwrap().spec_key() >= 0);
        }
    }
}

/// The secured cards do not depend on the order in which the cards come:
/// any rearrangement of the same qualities gives the same secured cards.
pub proof fn lemma_secured_order_invariant(a: Seq<FutureCardQuality>, b: Seq<FutureCardQuality>)
    requires
        a.len() <= 25,
        a.to_multiset() == b.to_multiset(),
    ensures
        b.len() == a.len(),
        padded(a).sort_by(descending()) == padded(b).sort_by(descending()),
{
    vstd::seq_lib::to_multiset_len(a);
    vstd::seq_lib::to_multiset_len(b);
    lemma_present_multiset(a, b);
    lemma_padded_split(a);
    lemma_padded_split(b);
    let tail = Seq::new((25 - a.len()) as nat, |i: int| None::<FutureCardQuality>);
    vstd::seq_lib::lemma_multiset_commutative(present(a), tail);
    vstd::seq_lib::lemma_multiset_commutative(present(b), tail);
    assert(padded(a).to_multiset() == padded(b).to_multiset());
    lemma_descending_total();
    padded(a).lemma_sort_by_ensures(descending());
    padded(b).lemma_sort_by_ensures(descending());
    vstd::seq_lib::lemma_sorted_unique(
        padded(a).sort_by(descending()),
        padded(b).sort_by(descending()),
        descending(),
    );
}

impl Default for SecuredCardQuality {
    fn default() -> (s: Self)
        ensures
            s@ == Seq::new(25, |i: int| None::<FutureCardQuality>),
    {
        SecuredCardQuality::new()
    }
}

} // verus!
