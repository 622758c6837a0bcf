use hanabi_search::cards::Rank;
use hanabi_search::future_card_quality::{FutureCardQuality, QualityBand, SecuredCardQuality};

fn card(rank: Rank, missing_predecessors: u8, visible_successor: bool) -> FutureCardQuality {
    FutureCardQuality {
        rank,
        missing_predecessors,
        visible_successor,
    }
}

#[test]
fn reviewed_rank_distance_and_visible_five_order() {
    let near_three = card(Rank::Three, 1, false);
    let distant_three = card(Rank::Three, 2, false);
    let near_four = card(Rank::Four, 1, false);
    let four_with_five = card(Rank::Four, 1, true);
    assert!(near_three > distant_three);
    assert!(distant_three > near_four);
    assert!(four_with_five > distant_three);
    assert!(near_three > four_with_five);
    assert!(near_four > card(Rank::Four, 2, false));
    assert!(card(Rank::Three, 1, true) > near_three);
    assert!(card(Rank::Four, 0, true) > four_with_five);
}

#[test]
fn reviewed_two_threes_are_stronger_than_two_fours() {
    let threes = SecuredCardQuality::from_cards(vec![
        card(Rank::Three, 1, true),
        card(Rank::Three, 2, false),
    ]);
    let fours = SecuredCardQuality::from_cards(vec![
        card(Rank::Four, 1, false),
        card(Rank::Four, 3, false),
    ]);
    assert!(threes.no_worse_than(&fours));
    assert!(!fours.no_worse_than(&threes));
}

#[test]
fn secured_cards_are_sorted_best_first_and_equal_regardless_of_input_order() {
    let a = SecuredCardQuality::from_cards(vec![
        card(Rank::Five, 0, false),
        card(Rank::One, 0, false),
        card(Rank::Three, 2, false),
    ]);
    let b = SecuredCardQuality::from_cards(vec![
        card(Rank::Three, 2, false),
        card(Rank::Five, 0, false),
        card(Rank::One, 0, false),
    ]);
    assert_eq!(a, b);
    assert!(a.no_worse_than(&b) && b.no_worse_than(&a));
    assert!(a.no_worse_than(&SecuredCardQuality::new()));
    assert!(!SecuredCardQuality::default().no_worse_than(&a));
}

#[test]
fn quality_bands_follow_rank_and_distance() {
    assert_eq!(card(Rank::Three, 1, false).band(), QualityBand::NearThree);
    assert_eq!(card(Rank::Three, 2, true).band(), QualityBand::DistantThree);
    assert_eq!(card(Rank::Four, 1, true).band(), QualityBand::NearFourWithVisibleFive);
    assert_eq!(card(Rank::Four, 2, true).band(), QualityBand::Four);
    assert_eq!(card(Rank::Four, 0, true).key(), 3 * 512 + 255 * 2 + 1);
}

#[test]
fn secured_cards_do_not_depend_on_input_order() {
    let a = card(Rank::Two, 0, false);
    let b = card(Rank::Four, 1, true);
    let c = card(Rank::Three, 2, false);
    let first = SecuredCardQuality::from_cards(vec![a, b, c, a]);
    let second = SecuredCardQuality::from_cards(vec![c, a, a, b]);
    assert_eq!(first, second);
    assert!(first.no_worse_than(&second) && second.no_worse_than(&first));
    // A missing card is worse than any secured card.
    let fewer = SecuredCardQuality::from_cards(vec![c, a, b]);
    assert!(first.no_worse_than(&fewer));
    assert!(!fewer.no_worse_than(&first));
}
