use hanabi_search::cards::{Card, PlayerId, Rank, Suit};
use hanabi_search::h_group::completion::{funded_completion_schedule, next_player, TableClock};

fn clock(tokens: u8) -> TableClock {
    TableClock {
        stack_heights: vec![0; 5],
        clue_tokens: tokens,
        deck_size: 30,
        final_turns_remaining: None,
        current_player: PlayerId::new(0),
        players: 2,
    }
}

#[test]
fn a_due_initial_play_completes_at_once() {
    let r1 = Card::new(Suit::Red, Rank::One);
    assert!(funded_completion_schedule(&clock(0), vec![(PlayerId::new(0), r1)], vec![], Some(r1)));
    // The first turn must be the designated play.
    assert!(!funded_completion_schedule(&clock(3), vec![(PlayerId::new(1), r1)], vec![], Some(r1)));
}

#[test]
fn announcing_a_teammates_card_costs_a_token() {
    let r1 = Card::new(Suit::Red, Rank::One);
    let announce = vec![(PlayerId::new(1), r1)];
    assert!(funded_completion_schedule(&clock(1), vec![], announce.clone(), None));
    assert!(!funded_completion_schedule(&clock(0), vec![], announce, None));
    assert_eq!(next_player(PlayerId::new(1), 2), PlayerId::new(0));
    assert_eq!(next_player(PlayerId::new(0), 3), PlayerId::new(1));
}
