use hanabi_search::cards::{Card, CardId, CardSet, Rank, Suit};
use hanabi_search::h_group::hand::{
    chop, finesse_position_id, five_chop_moved_card, five_pulled_card, focus, is_critical,
    list_contains, newest_listed, newly_touched, remove_card,
};

fn ids(raw: &[u8]) -> Vec<CardId> {
    raw.iter().map(|id| CardId::new(*id)).collect()
}

fn set(raw: &[u8]) -> CardSet {
    let mut s = CardSet::new();
    for id in raw {
        s.insert(CardId::new(*id));
    }
    s
}

#[test]
fn chop_and_finesse_positions_skip_gotten_cards() {
    // Oldest first.
    let hand = ids(&[1, 2, 3, 4, 5]);
    assert_eq!(chop(&hand, &set(&[])), Some(CardId::new(1)));
    assert_eq!(chop(&hand, &set(&[1, 2])), Some(CardId::new(3)));
    assert_eq!(chop(&hand, &set(&[1, 2, 3, 4, 5])), None);
    assert_eq!(finesse_position_id(&hand, &set(&[5]), 0), Some(CardId::new(4)));
    assert_eq!(finesse_position_id(&hand, &set(&[5]), 1), Some(CardId::new(3)));
    assert_eq!(finesse_position_id(&hand, &set(&[]), 5), None);
}

#[test]
fn focus_prefers_chop_then_newest_new_card() {
    let hand = ids(&[1, 2, 3, 4, 5]);
    let gotten = set(&[4]);
    // Several new cards including chop: the chop.
    assert_eq!(focus(&hand, &ids(&[1, 3]), Some(CardId::new(1)), &gotten), Some(CardId::new(1)));
    // Several new cards without chop: the newest new one.
    assert_eq!(focus(&hand, &ids(&[2, 3, 4]), Some(CardId::new(1)), &gotten), Some(CardId::new(3)));
    // Only a re-touched card: the newest touched card.
    assert_eq!(focus(&hand, &ids(&[4]), Some(CardId::new(1)), &gotten), Some(CardId::new(4)));
    assert_eq!(newly_touched(&ids(&[2, 4, 5]), &gotten), ids(&[2, 5]));
    assert_eq!(newest_listed(&hand, &ids(&[2, 3])), Some(CardId::new(3)));
    assert_eq!(newest_listed(&hand, &ids(&[9])), None);
}

#[test]
fn five_pull_and_five_chop_move_find_the_card_left_of_the_touch() {
    let hand = ids(&[1, 2, 3, 4, 5]);
    let none = set(&[]);
    assert_eq!(five_pulled_card(&hand, &ids(&[4]), &none), Some(CardId::new(3)));
    assert_eq!(five_pulled_card(&hand, &ids(&[1]), &none), None);
    // The moved card must be the chop.
    assert_eq!(five_chop_moved_card(&hand, &ids(&[2]), &none), Some(CardId::new(1)));
    assert_eq!(five_chop_moved_card(&hand, &ids(&[3]), &none), None);
    let mut h = hand.clone();
    remove_card(&mut h, CardId::new(3));
    assert_eq!(h, ids(&[1, 2, 4, 5]));
    remove_card(&mut h, CardId::new(9));
    assert_eq!(h, ids(&[1, 2, 4, 5]));
    assert!(list_contains(&h, CardId::new(4)));
    assert!(!list_contains(&h, CardId::new(3)));
}

#[test]
fn a_card_is_critical_when_it_is_the_last_copy() {
    let b2 = Card::new(Suit::Blue, Rank::Two);
    let g1 = Card::new(Suit::Green, Rank::One);
    let pile = vec![b2, g1, g1];
    assert!(is_critical(&pile, b2));
    assert!(is_critical(&pile, g1));
    assert!(!is_critical(&pile, Card::new(Suit::Blue, Rank::Three)));
    // A 5 is never reported as critical by this rule.
    assert!(!is_critical(&vec![], Card::new(Suit::Red, Rank::Five)));
}
