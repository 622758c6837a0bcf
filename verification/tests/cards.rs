use hanabi_search::cards::{Card, CardId, CardSet, Clue, IdentitySet, PlayerId, Rank, Suit};
use hanabi_search::h_group::identity_set;

#[test]
fn identity_sets_behave_as_sets_of_cards() {
    let r1 = Card::new(Suit::Red, Rank::One);
    let p5 = Card::new(Suit::Purple, Rank::Five);
    let s = IdentitySet::singleton(r1).union(IdentitySet::singleton(p5));
    assert!(s.contains(r1) && s.contains(p5));
    assert!(!s.contains(Card::new(Suit::Red, Rank::Two)));
    assert_eq!(s.len(), 2);
    assert_eq!(s.without(IdentitySet::singleton(r1)), IdentitySet::singleton(p5));
    assert!(IdentitySet::empty().is_empty());
    assert_eq!(IdentitySet::all().len(), 25);
    assert_eq!(p5.index(), 24);
    assert_eq!(Card::from_index(24), p5);
    assert_eq!(Rank::One.copies(), 3);
    assert_eq!(Rank::Five.copies(), 1);
    assert!(Clue::Suit(Suit::Red).matches(r1));
    assert!(!Clue::Rank(Rank::Two).matches(r1));
    assert_eq!(PlayerId::new(3).index(), 3);
}

#[test]
fn card_sets_keep_insertion_order_without_duplicates() {
    let mut set = CardSet::new();
    assert!(set.insert(CardId::new(4)));
    assert!(set.insert(CardId::new(2)));
    assert!(!set.insert(CardId::new(4)));
    assert_eq!(set.len(), 2);
    assert_eq!(set.to_vec(), vec![CardId::new(4), CardId::new(2)]);
    assert!(set.remove(&CardId::new(4)));
    assert!(!set.remove(&CardId::new(4)));
    assert!(!set.contains(&CardId::new(4)));
    assert!(set.contains(&CardId::new(2)));
}

#[test]
fn identity_sets_collect_listed_cards() {
    let cards = vec![
        Card::new(Suit::Blue, Rank::Three),
        Card::new(Suit::Blue, Rank::Three),
        Card::new(Suit::Yellow, Rank::One),
    ];
    let set = identity_set(&cards);
    assert_eq!(set.len(), 2);
    assert!(set.contains(Card::new(Suit::Yellow, Rank::One)));
    assert!(identity_set(&Vec::new()).is_empty());
}
