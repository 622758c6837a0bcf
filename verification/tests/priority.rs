use hanabi_search::cards::{Card, CardId, CardSet, IdentitySet, PlayerId, Rank, Suit};
use hanabi_search::h_group::admission::VisibleCard;
use hanabi_search::h_group::priority::has_higher_basic_priority;

fn id(raw: u8) -> CardId {
    CardId::new(raw)
}

fn card(suit: Suit, rank: Rank) -> Card {
    Card::new(suit, rank)
}

struct Table {
    seen: Vec<Vec<VisibleCard>>,
    hands: Vec<Vec<CardId>>,
    logical: Vec<IdentitySet>,
    forced: CardSet,
    hand: Vec<CardId>,
}

/// Seat 0 acts with cards 0..=3 (oldest first); seat 1 holds cards 10 and 11.
fn table(other: [Option<Card>; 2]) -> Table {
    let seen = vec![
        (0..4).map(|i| VisibleCard { id: id(i), identity: None, rank_clued: false }).collect(),
        vec![
            VisibleCard { id: id(10), identity: other[0], rank_clued: false },
            VisibleCard { id: id(11), identity: other[1], rank_clued: false },
        ],
    ];
    Table {
        seen,
        hands: vec![vec![id(0), id(1), id(2), id(3)], vec![id(10), id(11)]],
        logical: vec![IdentitySet::all(); 50],
        forced: CardSet::new(),
        hand: vec![id(0), id(1), id(2), id(3)],
    }
}

fn higher(t: &Table, candidate: (u8, Card), played: (u8, Card)) -> bool {
    has_higher_basic_priority(
        &t.seen,
        &t.hands,
        &t.logical,
        &t.forced,
        PlayerId::new(0),
        &t.hand,
        id(candidate.0),
        candidate.1,
        false,
        id(played.0),
        played.1,
        false,
    )
}

#[test]
fn a_blind_play_goes_first() {
    let mut t = table([None, None]);
    let r1 = card(Suit::Red, Rank::One);
    let b1 = card(Suit::Blue, Rank::One);
    t.forced.insert(id(0));
    t.logical[1] = IdentitySet::singleton(b1);
    assert!(higher(&t, (0, r1), (1, b1)));
    assert!(!higher(&t, (1, b1), (0, r1)));
    // Two blind plays have no invented order.
    t.forced.insert(id(2));
    assert!(!higher(&t, (0, r1), (2, b1)));
    assert!(!higher(&t, (2, b1), (0, r1)));
    // A forced card that is exactly known is no blind play.
    t.logical[0] = IdentitySet::singleton(r1);
    assert!(!higher(&t, (0, r1), (2, b1)));
}

#[test]
fn leading_into_another_hand_goes_first() {
    let t = table([Some(card(Suit::Red, Rank::Two)), None]);
    let r1 = card(Suit::Red, Rank::One);
    let b1 = card(Suit::Blue, Rank::One);
    assert!(higher(&t, (0, r1), (1, b1)));
    assert!(!higher(&t, (1, b1), (0, r1)));
    let both = table([Some(card(Suit::Red, Rank::Two)), Some(card(Suit::Blue, Rank::Two))]);
    assert!(!higher(&both, (0, r1), (1, b1)));
    assert!(!higher(&both, (1, b1), (0, r1)));
}

#[test]
fn leading_into_the_own_hand_goes_next() {
    let mut t = table([None, None]);
    let r1 = card(Suit::Red, Rank::One);
    let b1 = card(Suit::Blue, Rank::One);
    t.logical[3] = IdentitySet::singleton(card(Suit::Red, Rank::Two));
    assert!(higher(&t, (0, r1), (1, b1)));
    assert!(!higher(&t, (1, b1), (0, r1)));
}

#[test]
fn fives_then_lower_ranks_then_newer_cards() {
    let t = table([None, None]);
    let r5 = card(Suit::Red, Rank::Five);
    let b2 = card(Suit::Blue, Rank::Two);
    let g1 = card(Suit::Green, Rank::One);
    let y1 = card(Suit::Yellow, Rank::One);
    assert!(higher(&t, (0, r5), (1, b2)));
    assert!(!higher(&t, (1, b2), (0, r5)));
    assert!(higher(&t, (0, g1), (1, b2)));
    assert!(!higher(&t, (1, b2), (0, g1)));
    // Equal ranks: the newer card (later position) goes first.
    assert!(higher(&t, (3, g1), (1, y1)));
    assert!(!higher(&t, (1, y1), (3, g1)));
}

#[test]
fn a_card_completing_the_own_chain_to_a_five_does_not_lead_into_the_hand() {
    let mut t = table([None, None]);
    let r4 = card(Suit::Red, Rank::Four);
    let b3 = card(Suit::Blue, Rank::Three);
    t.logical[3] = IdentitySet::singleton(card(Suit::Red, Rank::Five));
    // Without the chain flag the red 4 leads into the own red 5.
    assert!(higher(&t, (0, r4), (1, b3)));
    let terminal = has_higher_basic_priority(
        &t.seen,
        &t.hands,
        &t.logical,
        &t.forced,
        PlayerId::new(0),
        &t.hand,
        id(0),
        r4,
        true,
        id(1),
        b3,
        false,
    );
    // Neither card is a 5, so the chain flag does not apply.
    assert!(terminal);
    let r5 = card(Suit::Red, Rank::Five);
    // Against a 5, a red 4 completing the chain loses its own-hand lead.
    let against_five = has_higher_basic_priority(
        &t.seen,
        &t.hands,
        &t.logical,
        &t.forced,
        PlayerId::new(0),
        &t.hand,
        id(0),
        r4,
        true,
        id(2),
        r5,
        false,
    );
    assert!(!against_five);
}
