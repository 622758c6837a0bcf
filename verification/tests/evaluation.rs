use hanabi_search::cards::{Card, CardId, Rank, Suit};
use hanabi_search::evaluation::{
    is_critical_now, parse_objective, score_ceiling, ParseSearchObjectiveError, SearchObjective,
};

#[test]
fn objectives_round_trip_through_their_identifiers() {
    assert_eq!(SearchObjective::default(), SearchObjective::ExpectedScore);
    for objective in [SearchObjective::ExpectedScore, SearchObjective::PerfectScore] {
        assert_eq!(objective.to_string().parse::<SearchObjective>(), Ok(objective));
    }
    assert_eq!(SearchObjective::PerfectScore.name(), "perfect-score");
    assert_eq!(
        parse_objective("best"),
        Err(ParseSearchObjectiveError("best".to_owned()))
    );
    assert_eq!(
        ParseSearchObjectiveError("be\"st".to_owned()).to_string(),
        "unknown search objective \"be\\\"st\"; expected expected-score or perfect-score"
    );
}

#[test]
fn score_ceiling_stops_each_suit_at_its_first_lost_rank() {
    assert_eq!(score_ceiling([0; 5], &Vec::new()), 25);
    let pile = vec![
        Card::new(Suit::Red, Rank::Five),
        Card::new(Suit::Blue, Rank::Two),
        Card::new(Suit::Blue, Rank::Two),
        Card::new(Suit::Green, Rank::One),
        Card::new(Suit::Green, Rank::One),
    ];
    // Red loses its 5, blue loses both 2s, green still has one 1.
    assert_eq!(score_ceiling([0; 5], &pile), 4 + 5 + 5 + 1 + 5);
    // A suit whose stack already passed the lost rank is unaffected.
    assert_eq!(score_ceiling([5, 0, 0, 3, 0], &pile), 25);
    let mut all_ones = pile.clone();
    all_ones.push(Card::new(Suit::Green, Rank::One));
    assert_eq!(score_ceiling([0; 5], &all_ones), 4 + 5 + 0 + 1 + 5);
}

#[test]
fn a_discard_leaving_one_unplayed_copy_is_critical() {
    let b2 = Card::new(Suit::Blue, Rank::Two);
    let remaining = vec![
        (CardId::new(1), Some(b2)),
        (CardId::new(2), Some(b2)),
        (CardId::new(3), None),
        (CardId::new(4), Some(Card::new(Suit::Red, Rank::One))),
    ];
    assert!(is_critical_now([0; 5], &remaining, b2, CardId::new(1)));
    assert!(!is_critical_now([0; 5], &remaining, b2, CardId::new(3)));
    // Already played: never critical.
    assert!(!is_critical_now([0, 0, 0, 2, 0], &remaining, b2, CardId::new(1)));
    let r1 = Card::new(Suit::Red, Rank::One);
    assert!(is_critical_now([0; 5], &remaining, r1, CardId::new(9)));
}
