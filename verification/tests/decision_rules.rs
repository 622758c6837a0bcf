use hanabi_search::cards::{Action, Card, CardId, CardSet, Clue, PlayerId, Rank, Suit};
use hanabi_search::h_group::action_analysis::HGroupActionKind;
use hanabi_search::h_group::admission::VisibleCard;
use hanabi_search::h_group::candidate::{ClueSchedule, ClueValue, CluePurpose, CompiledClueAction};
use hanabi_search::h_group::decision::{
    classify_h_group_action, five_stall_distance_from_chop, positional_discard_is_valid_for,
    hard_clue_obligation, required_first_five_stall_actions, target_is_occupied, FiveStallDuty,
};
use hanabi_search::h_group::claims::IdentityClaims;
use hanabi_search::h_group::connection::{
    ConnectionManager, ConnectionObligation, HGroupConnectionKind, PromiseId,
};
use hanabi_search::h_group::facts::ConventionFacts;
use hanabi_search::h_group::HGroupMoveKind;

fn id(raw: u8) -> CardId {
    CardId::new(raw)
}

fn clue_to(target: u8, clue: Clue, purpose: CluePurpose, immediate: bool) -> CompiledClueAction {
    CompiledClueAction::new(
        Action::Clue { target: PlayerId::new(target), clue },
        None,
        ClueValue::new(300),
        purpose,
        ClueSchedule::new(false, immediate),
        0,
    )
}

#[test]
fn actions_are_classified_by_their_role() {
    let discard_now = vec![id(3)];
    let playable_now = vec![id(4), id(5)];
    let save = clue_to(2, Clue::Rank(Rank::Five), CluePurpose::Save, false);
    assert_eq!(
        classify_h_group_action(Action::Play(id(4)), Some(id(4)), &discard_now, &playable_now, None),
        HGroupActionKind::Connection
    );
    assert_eq!(
        classify_h_group_action(Action::Play(id(5)), Some(id(4)), &discard_now, &playable_now, None),
        HGroupActionKind::PromisedPlay
    );
    assert_eq!(
        classify_h_group_action(Action::Discard(id(3)), None, &discard_now, &playable_now, None),
        HGroupActionKind::RequiredDiscard
    );
    assert_eq!(
        classify_h_group_action(Action::Discard(id(7)), None, &discard_now, &playable_now, None),
        HGroupActionKind::Discard
    );
    assert_eq!(
        classify_h_group_action(Action::Play(id(9)), None, &discard_now, &playable_now, None),
        HGroupActionKind::Fallback
    );
    assert_eq!(
        classify_h_group_action(save.action, None, &discard_now, &playable_now, Some(&save)),
        HGroupActionKind::Clue { target: PlayerId::new(2), save: true, immediate_play: false }
    );
    let play = clue_to(1, Clue::Suit(Suit::Red), CluePurpose::Play, true);
    assert_eq!(
        classify_h_group_action(play.action, None, &discard_now, &playable_now, Some(&play)),
        HGroupActionKind::Clue { target: PlayerId::new(1), save: false, immediate_play: true }
    );
}

fn seen(raw: u8, identity: Option<Card>) -> VisibleCard {
    VisibleCard { id: id(raw), identity, rank_clued: false }
}

#[test]
fn a_positional_discard_needs_a_playable_card_in_the_indicated_slot() {
    let r1 = Card::new(Suit::Red, Rank::One);
    let hands = vec![
        vec![seen(0, None), seen(1, None), seen(2, None)],
        vec![seen(10, Some(Card::new(Suit::Blue, Rank::Three))), seen(11, Some(r1))],
        vec![seen(20, Some(Card::new(Suit::Blue, Rank::Four))), seen(21, None)],
    ];
    let me = PlayerId::new(0);
    // Outside the final round any discard is valid.
    assert!(positional_discard_is_valid_for(&hands, 10, [0; 5], me, id(2)));
    // Card 1 has one older card: it indicates slot 1, where seat 1 holds red 1.
    assert!(positional_discard_is_valid_for(&hands, 2, [0; 5], me, id(1)));
    // Card 0 indicates slot 0: blue 3 and blue 4 are not playable.
    assert!(!positional_discard_is_valid_for(&hands, 2, [0; 5], me, id(0)));
    // With blue at 2, slot 0 of seat 1 is playable.
    assert!(positional_discard_is_valid_for(&hands, 2, [0, 0, 0, 2, 0], me, id(0)));
    // Card 2 indicates slot 2, which no other hand has.
    assert!(!positional_discard_is_valid_for(&hands, 2, [0; 5], me, id(2)));
}

#[test]
fn five_stall_distance_counts_ungotten_newer_cards() {
    let r5 = Card::new(Suit::Red, Rank::Five);
    let b5 = Card::new(Suit::Blue, Rank::Five);
    let hands = vec![
        vec![seen(0, None)],
        vec![seen(10, Some(r5)), seen(11, None), seen(12, Some(b5)), seen(13, None), seen(14, None)],
    ];
    let mut gotten = CardSet::new();
    gotten.insert(id(14));
    let fives = clue_to(1, Clue::Rank(Rank::Five), CluePurpose::Save, false);
    // Blue 5 at slot 2 has one ungotten newer card (13); red 5 has three.
    assert_eq!(five_stall_distance_from_chop(&hands, &fives, &gotten), 1);
    let red = clue_to(1, Clue::Suit(Suit::Red), CluePurpose::Save, false);
    assert_eq!(five_stall_distance_from_chop(&hands, &red, &gotten), 3);
    let green = clue_to(1, Clue::Suit(Suit::Green), CluePurpose::Save, false);
    assert_eq!(five_stall_distance_from_chop(&hands, &green, &gotten), usize::MAX);
    let to_self = clue_to(0, Clue::Rank(Rank::Five), CluePurpose::Save, false);
    assert_eq!(five_stall_distance_from_chop(&hands, &to_self, &gotten), usize::MAX);
}

fn stall(target: u8, clue: Clue, kind: HGroupMoveKind) -> CompiledClueAction {
    CompiledClueAction::new(
        Action::Clue { target: PlayerId::new(target), clue },
        Some(kind),
        ClueValue::new(100),
        CluePurpose::Advanced,
        ClueSchedule::new(false, false),
        0,
    )
}

fn duty() -> FiveStallDuty {
    FiveStallDuty {
        early_game: true,
        basic_moves_enabled: true,
        five_stall_given: false,
        has_promised_play: false,
        has_known_safe_discard: false,
    }
}

#[test]
fn the_first_five_stall_keeps_only_the_stalls_closest_to_chop() {
    let r5 = Card::new(Suit::Red, Rank::Five);
    let b5 = Card::new(Suit::Blue, Rank::Five);
    let hands = vec![
        vec![seen(0, None)],
        vec![seen(10, Some(r5)), seen(11, None), seen(12, Some(b5)), seen(13, None)],
        vec![seen(20, Some(Card::new(Suit::Green, Rank::Five))), seen(21, None)],
    ];
    let gotten = CardSet::new();
    let red = stall(1, Clue::Suit(Suit::Red), HGroupMoveKind::FiveStall);
    let blue = stall(1, Clue::Suit(Suit::Blue), HGroupMoveKind::FiveStall);
    let green = stall(2, Clue::Suit(Suit::Green), HGroupMoveKind::FiveStall);
    let tcm = stall(2, Clue::Rank(Rank::Two), HGroupMoveKind::TrashChopMove);
    let clues = vec![red, blue, green, tcm];
    // Blue 5 and green 5 each have one ungotten newer card; red 5 has three.
    assert_eq!(
        required_first_five_stall_actions(duty(), &hands, &clues, &gotten, None),
        Some(vec![blue.action, green.action, tcm.action])
    );
    // Seat 2 has Permission to Discard: its 5 Stall is ignored.
    assert_eq!(
        required_first_five_stall_actions(duty(), &hands, &clues, &gotten, Some(PlayerId::new(2))),
        Some(vec![blue.action, tcm.action])
    );
    // Not due once a 5 Stall was given, or with a Play clue available.
    let mut given = duty();
    given.five_stall_given = true;
    assert_eq!(required_first_five_stall_actions(given, &hands, &clues, &gotten, None), None);
    let play = clue_to(1, Clue::Rank(Rank::One), CluePurpose::Play, true);
    assert_eq!(required_first_five_stall_actions(duty(), &hands, &vec![red, play], &gotten, None), None);
    // No eligible 5 Stall at all.
    assert_eq!(required_first_five_stall_actions(duty(), &hands, &vec![tcm], &gotten, None), None);
}

fn occupancy_claims() -> IdentityClaims {
    let mut pending = ConnectionManager::default();
    pending.start(
        1,
        ConnectionObligation {
            promise: PromiseId::unassigned(),
            actor: PlayerId::new(2),
            cards: vec![id(9)],
            expected: Card::new(Suit::Blue, Rank::One),
            focus_identity: Card::new(Suit::Blue, Rank::Two),
            kind: HGroupConnectionKind::Finesse,
            focus: id(1),
            step: 0,
        },
    );
    let mut playing = CardSet::new();
    playing.insert(id(6));
    IdentityClaims {
        hands: vec![vec![], vec![seen(6, Some(Card::new(Suit::Red, Rank::One)))], vec![]],
        facts: ConventionFacts::new(),
        clues: vec![],
        already_playing: playing,
        pending,
        replay_hands: vec![vec![id(1)], vec![id(6)], vec![id(9)]],
        invalidated_focuses: CardSet::new(),
    }
}

#[test]
fn a_player_bound_to_play_is_occupied() {
    let claims = occupancy_claims();
    assert!(target_is_occupied(&claims, &vec![true], [0; 5], PlayerId::new(2)));
    assert!(!target_is_occupied(&claims, &vec![false], [0; 5], PlayerId::new(2)));
    // Blue 1 is no longer playable once blue is at 1.
    assert!(!target_is_occupied(&claims, &vec![true], [0, 0, 0, 1, 0], PlayerId::new(2)));
    // Seat 1's card already playing is a visible, playable red 1.
    assert!(target_is_occupied(&claims, &vec![false], [0; 5], PlayerId::new(1)));
    assert!(!target_is_occupied(&claims, &vec![false], [1, 0, 0, 0, 0], PlayerId::new(1)));
    assert!(!target_is_occupied(&claims, &vec![true], [0; 5], PlayerId::new(0)));
}

fn save_to(target: u8, strength: u16, urgent: bool) -> CompiledClueAction {
    CompiledClueAction::new(
        Action::Clue { target: PlayerId::new(target), clue: Clue::Rank(Rank::Five) },
        Some(HGroupMoveKind::SaveClue),
        ClueValue::new(strength),
        CluePurpose::Save,
        ClueSchedule::new(urgent, false),
        0,
    )
}

#[test]
fn only_a_fix_or_an_urgent_save_behind_busy_players_is_a_hard_obligation() {
    let claims = occupancy_claims();
    let current = PlayerId::new(1);
    let fix = CompiledClueAction::new(
        Action::Clue { target: PlayerId::new(2), clue: Clue::Suit(Suit::Red) },
        Some(HGroupMoveKind::FixClue),
        ClueValue::new(100),
        CluePurpose::Fix,
        ClueSchedule::new(false, false),
        0,
    );
    assert!(hard_clue_obligation(&claims, &vec![true], [0; 5], current, &fix));
    // Seat 2 acts between seat 1 and seat 0 and is bound to play.
    assert!(hard_clue_obligation(&claims, &vec![true], [0; 5], current, &save_to(0, 450, true)));
    assert!(!hard_clue_obligation(&claims, &vec![false], [0; 5], current, &save_to(0, 450, true)));
    assert!(!hard_clue_obligation(&claims, &vec![true], [0; 5], current, &save_to(0, 300, true)));
    assert!(!hard_clue_obligation(&claims, &vec![true], [0; 5], current, &save_to(0, 450, false)));
    // A target already bound to play can wait a full round.
    assert!(!hard_clue_obligation(&claims, &vec![true], [0; 5], PlayerId::new(0), &save_to(2, 450, true)));
    // The next player needs nobody in between.
    assert!(hard_clue_obligation(&claims, &vec![false], [0; 5], current, &save_to(2, 450, true)));
}
