use hanabi_search::cards::{Card, IdentitySet, PlayerId, Rank, Suit};
use hanabi_search::h_group::distribution::{
    recognized_distribution_identity, timing, DistributionTiming,
};

#[test]
fn queued_green_stack_finishes_four_turns_earlier() {
    let bob = PlayerId::new(1);
    let cathy = PlayerId::new(2);
    let donald = PlayerId::new(3);
    let green = |rank| Card::new(Suit::Green, rank);
    let cards = [
        (cathy, green(Rank::Three)),
        (cathy, green(Rank::Four)),
        (bob, green(Rank::Five)),
    ];
    assert_eq!(
        timing(4, bob, donald, 2, green(Rank::Four), &cards),
        Some(DistributionTiming {
            before: 8,
            after: 4
        })
    );
    assert_eq!(timing(4, bob, cathy, 2, green(Rank::Four), &cards), None);
    assert_eq!(
        timing(4, bob, donald, 2, green(Rank::Three), &cards),
        None,
        "duplicating the first play does not accelerate this stack"
    );
    assert_eq!(
        timing(4, bob, donald, 1, green(Rank::Four), &cards),
        None,
        "missing predecessors cannot be assumed"
    );
}

#[test]
fn an_already_played_identity_has_no_distribution_timing() {
    let bob = PlayerId::new(1);
    let cathy = PlayerId::new(2);
    let cards = [(cathy, Card::new(Suit::Red, Rank::Two))];
    assert_eq!(
        timing(3, bob, cathy, 2, Card::new(Suit::Red, Rank::Two), &cards),
        None
    );
}

#[test]
fn a_distribution_clue_needs_exactly_one_feasible_identity() {
    let bob = PlayerId::new(1);
    let cathy = PlayerId::new(2);
    let donald = PlayerId::new(3);
    let green = |rank| Card::new(Suit::Green, rank);
    let cards = [
        (cathy, green(Rank::Three)),
        (cathy, green(Rank::Four)),
        (bob, green(Rank::Five)),
    ];
    let heights = [0, 0, 2, 0, 0];
    let fours = [Suit::Red, Suit::Yellow, Suit::Green, Suit::Blue, Suit::Purple]
        .iter()
        .fold(IdentitySet::empty(), |s, suit| s.union(IdentitySet::singleton(Card::new(*suit, Rank::Four))));
    // Only the green 4 shortens a known schedule.
    assert_eq!(
        recognized_distribution_identity(4, bob, donald, heights, fours, &cards),
        Some(green(Rank::Four))
    );
    // For Cathy herself no identity fits.
    assert_eq!(recognized_distribution_identity(4, bob, cathy, heights, fours, &cards), None);
    assert_eq!(
        recognized_distribution_identity(4, bob, donald, heights, IdentitySet::singleton(green(Rank::Three)), &cards),
        None
    );
}

#[test]
fn timing_reads_the_commitments_as_a_set() {
    let bob = PlayerId::new(1);
    let cathy = PlayerId::new(2);
    let donald = PlayerId::new(3);
    let green = |rank| Card::new(Suit::Green, rank);
    let shuffled = [
        (bob, green(Rank::Five)),
        (cathy, green(Rank::Four)),
        (cathy, green(Rank::Three)),
        (cathy, green(Rank::Four)),
    ];
    let timing = timing(4, bob, donald, 2, green(Rank::Four), &shuffled);
    assert_eq!(timing, Some(DistributionTiming { before: 8, after: 4 }));
    let found = timing.unwrap();
    assert!(found.after < found.before);
}
