use hanabi_search::cards::{Card, CardId, CardSet, Clue, IdentitySet, Rank, Suit};
use hanabi_search::h_group::admission::{
    clue_accounts_for_every_copy, CardNote, GoodTouchContext, VisibleCard,
};

fn id(raw: u8) -> CardId {
    CardId::new(raw)
}

fn set(raw: &[u8]) -> CardSet {
    let mut s = CardSet::new();
    for r in raw {
        s.insert(CardId::new(*r));
    }
    s
}

fn seen(raw: u8, suit: Suit, rank: Rank) -> VisibleCard {
    VisibleCard { id: id(raw), identity: Some(Card::new(suit, rank)), rank_clued: false }
}

fn hidden(raw: u8) -> VisibleCard {
    VisibleCard { id: id(raw), identity: None, rank_clued: false }
}

fn useful_all() -> IdentitySet {
    IdentitySet::all()
}

fn context(
    cards: Vec<VisibleCard>,
    newly: &[u8],
    clue: Option<(Clue, Vec<CardId>)>,
    explicitly: &[u8],
    notes: Vec<CardNote>,
) -> GoodTouchContext {
    GoodTouchContext {
        cards,
        newly_touched: newly.iter().map(|r| id(*r)).collect(),
        clue,
        explicitly_clued: set(explicitly),
        fixed_cards: set(&[]),
        convention_cards: notes,
        useful: useful_all(),
    }
}

#[test]
fn a_single_useful_known_card_is_good_touch() {
    let ctx = context(
        vec![seen(1, Suit::Red, Rank::Two), seen(2, Suit::Blue, Rank::Four)],
        &[1],
        Some((Clue::Suit(Suit::Red), vec![id(1)])),
        &[],
        vec![],
    );
    assert!(ctx.good_touch());
    assert!(!ctx.duplicates_known_good_touch());
}

#[test]
fn touching_a_card_already_clued_elsewhere_is_refused() {
    let ctx = context(
        vec![seen(1, Suit::Red, Rank::Two), seen(2, Suit::Red, Rank::Two)],
        &[1],
        Some((Clue::Suit(Suit::Red), vec![id(1)])),
        &[2],
        vec![],
    );
    assert!(!ctx.good_touch());
    assert!(ctx.duplicates_known_good_touch());
}

#[test]
fn two_newly_touched_copies_are_refused() {
    let ctx = context(
        vec![seen(1, Suit::Red, Rank::Two), seen(2, Suit::Red, Rank::Two)],
        &[1, 2],
        Some((Clue::Suit(Suit::Red), vec![id(1), id(2)])),
        &[],
        vec![],
    );
    assert!(!ctx.good_touch());
    assert!(ctx.duplicates_known_good_touch());
}

#[test]
fn a_rank_clue_touching_every_copy_accounts_for_the_old_copy() {
    // Red two has two copies; the rank clue touches both, one newly.
    let cards = vec![seen(1, Suit::Red, Rank::Two), seen(2, Suit::Red, Rank::Two)];
    let ctx = context(
        cards.clone(),
        &[1],
        Some((Clue::Rank(Rank::Two), vec![id(1), id(2)])),
        &[2],
        vec![],
    );
    assert!(ctx.accounts_for_one_new_copy(Card::new(Suit::Red, Rank::Two)));
    assert!(ctx.good_touch());
    assert!(!ctx.duplicates_known_good_touch());
    assert!(clue_accounts_for_every_copy(
        &cards,
        Clue::Rank(Rank::Two),
        &vec![id(1), id(2)],
        Card::new(Suit::Red, Rank::Two)
    ));
    // A colour clue leaves the ranks unknown.
    assert!(!clue_accounts_for_every_copy(
        &cards,
        Clue::Suit(Suit::Red),
        &vec![id(1), id(2)],
        Card::new(Suit::Red, Rank::Two)
    ));
}

#[test]
fn a_colour_clue_accounts_when_every_copy_already_carries_its_rank() {
    let mut a = seen(1, Suit::Red, Rank::Two);
    let mut b = seen(2, Suit::Red, Rank::Two);
    a.rank_clued = true;
    b.rank_clued = true;
    let cards = vec![a, b];
    assert!(clue_accounts_for_every_copy(
        &cards,
        Clue::Suit(Suit::Red),
        &vec![id(1), id(2)],
        Card::new(Suit::Red, Rank::Two)
    ));
    // Missing one copy is not enough.
    assert!(!clue_accounts_for_every_copy(
        &cards,
        Clue::Rank(Rank::Two),
        &vec![id(1)],
        Card::new(Suit::Red, Rank::Two)
    ));
}

#[test]
fn unknown_or_trash_touches_are_refused() {
    let unknown = context(vec![hidden(1)], &[1], Some((Clue::Rank(Rank::One), vec![id(1)])), &[], vec![]);
    assert!(!unknown.good_touch());
    assert_eq!(unknown.known_identity(id(1)), None);

    let mut trash = context(
        vec![seen(1, Suit::Red, Rank::One)],
        &[1],
        Some((Clue::Rank(Rank::One), vec![id(1)])),
        &[],
        vec![],
    );
    trash.useful = IdentitySet::all().without(IdentitySet::singleton(Card::new(Suit::Red, Rank::One)));
    assert!(!trash.good_touch());
}

#[test]
fn a_convention_note_pins_an_unseen_identity() {
    let note = CardNote { card: id(1), identities: IdentitySet::singleton(Card::new(Suit::Green, Rank::Three)) };
    let ctx = context(vec![hidden(1)], &[1], Some((Clue::Rank(Rank::Three), vec![id(1)])), &[], vec![note]);
    assert_eq!(ctx.known_identity(id(1)), Some(Card::new(Suit::Green, Rank::Three)));
    assert!(ctx.good_touch());
}

#[test]
fn an_unseen_clued_one_whose_notes_allow_the_identity_blocks_the_touch() {
    let note = CardNote {
        card: id(2),
        identities: IdentitySet::singleton(Card::new(Suit::Red, Rank::One))
            .union(IdentitySet::singleton(Card::new(Suit::Blue, Rank::One))),
    };
    let ctx = context(
        vec![seen(1, Suit::Red, Rank::One), hidden(2)],
        &[1],
        Some((Clue::Suit(Suit::Red), vec![id(1)])),
        &[2],
        vec![note],
    );
    assert!(!ctx.good_touch());
    // Ambiguity alone is no known duplicate.
    assert!(!ctx.duplicates_known_good_touch());
}
