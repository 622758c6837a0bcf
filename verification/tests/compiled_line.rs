use hanabi_search::cards::{Card, CardId, IdentitySet, PlayerId, Rank, Suit};
use hanabi_search::h_group::admission::VisibleCard;
use hanabi_search::h_group::compiled_line::{ClueRecord, LineInputs, ObserverLine};
use hanabi_search::h_group::{HGroupMoveKind, HGroupSignal};

const TURN: u32 = 7;

fn id(raw: u8) -> CardId {
    CardId::new(raw)
}

fn signal(kind: HGroupMoveKind, cards: &[u8]) -> HGroupSignal {
    HGroupSignal {
        turn: TURN,
        actor: PlayerId::new(0),
        target: Some(PlayerId::new(1)),
        kind,
        cards: cards.iter().map(|c| id(*c)).collect(),
        identity: None,
    }
}

fn line(signals: Vec<HGroupSignal>, clues: Vec<ClueRecord>) -> ObserverLine {
    ObserverLine { signals, clues }
}

fn clue(focus: u8, new_non_focus: &[u8]) -> ClueRecord {
    ClueRecord { turn: TURN, focus: id(focus), new_non_focus: new_non_focus.iter().map(|c| id(*c)).collect() }
}

fn inputs(lines: Vec<ObserverLine>) -> LineInputs {
    LineInputs {
        observer: PlayerId::new(0),
        turn: TURN,
        hands: vec![
            vec![VisibleCard { id: id(1), identity: None, rank_clued: false }],
            vec![
                VisibleCard { id: id(7), identity: Some(Card::new(Suit::Red, Rank::Three)), rank_clued: false },
                VisibleCard { id: id(8), identity: Some(Card::new(Suit::Blue, Rank::One)), rank_clued: false },
                VisibleCard { id: id(9), identity: Some(Card::new(Suit::Red, Rank::Two)), rank_clued: false },
            ],
        ],
        stack_heights: [0; 5],
        useful: IdentitySet::all(),
        commitments: vec![],
        lines,
    }
}

fn metrics(i: &LineInputs, canonical: Option<HGroupMoveKind>) -> Option<(usize, usize, Option<Vec<CardId>>)> {
    i.compile_named_line_metrics(canonical).map(|n| (n.secured_actions, n.connection_steps, n.playable_cards))
}

#[test]
fn a_layered_finesse_counts_its_blind_plays_and_focus() {
    let i = inputs(vec![line(vec![signal(HGroupMoveKind::LayeredFinesse, &[1, 2])], vec![]), line(vec![], vec![])]);
    assert_eq!(metrics(&i, None), Some((3, 2, None)));
}

#[test]
fn a_canonical_bluff_secures_useful_touches_and_drops_a_far_last_card() {
    let i = inputs(vec![
        line(vec![signal(HGroupMoveKind::Bluff, &[5, 7])], vec![clue(7, &[8, 9, 7])]),
        line(vec![], vec![]),
    ]);
    // Cards 5, 7 and the useful touches 8 and 9 are secured; red 3 is two
    // away from playable, so it is not a named play.
    assert_eq!(metrics(&i, Some(HGroupMoveKind::Bluff)), Some((4, 1, Some(vec![id(5)]))));
    // A Bluff that is not the canonical reading names no line.
    assert_eq!(metrics(&i, None), None);
}

#[test]
fn ignition_takes_precedence_and_counts_pushed_cards() {
    let i = inputs(vec![
        line(
            vec![
                signal(HGroupMoveKind::Bluff, &[5, 7]),
                signal(HGroupMoveKind::UnnecessaryIgnition, &[1]),
                signal(HGroupMoveKind::UnnecessaryMove, &[2, 3]),
            ],
            vec![],
        ),
        line(vec![], vec![]),
    ]);
    assert_eq!(metrics(&i, Some(HGroupMoveKind::Bluff)), Some((3, 3, None)));
}

#[test]
fn an_ejection_counts_a_secured_focus() {
    let mut i = inputs(vec![
        line(vec![signal(HGroupMoveKind::FiveColorEjection, &[1, 2])], vec![clue(9, &[])]),
        line(vec![], vec![]),
    ]);
    // Red 2's predecessor is neither played nor committed.
    assert_eq!(metrics(&i, None), Some((1, 1, None)));
    i.commitments = vec![Card::new(Suit::Red, Rank::One)];
    assert_eq!(metrics(&i, None), Some((2, 1, None)));
    // A focus-only annotation is no action signal.
    let bare = inputs(vec![line(vec![signal(HGroupMoveKind::Ejection, &[1])], vec![]), line(vec![], vec![])]);
    assert_eq!(metrics(&bare, None), None);
}

#[test]
fn only_the_givers_clandestine_reading_counts() {
    let other = inputs(vec![
        line(vec![], vec![]),
        line(vec![signal(HGroupMoveKind::ClandestineFinesse, &[2, 3])], vec![clue(9, &[])]),
    ]);
    assert_eq!(metrics(&other, None), None);
    let giver = inputs(vec![
        line(vec![signal(HGroupMoveKind::ClandestineFinesse, &[2, 3])], vec![clue(9, &[])]),
        line(vec![], vec![]),
    ]);
    assert_eq!(metrics(&giver, None), Some((3, 2, Some(vec![id(2), id(3), id(9)]))));
}

#[test]
fn compile_collects_ignitions_charms_and_positional_anchors() {
    let mut anchor = signal(HGroupMoveKind::StackedEjection, &[4, 5]);
    anchor.target = Some(PlayerId::new(1));
    let i = inputs(vec![
        line(
            vec![signal(HGroupMoveKind::TrashDoubleIgnition, &[1, 2]), anchor],
            vec![],
        ),
        line(vec![signal(HGroupMoveKind::Charm, &[7])], vec![]),
    ]);
    let evidence = i.compile(None, PlayerId::new(0)).unwrap();
    assert_eq!(evidence.observer, PlayerId::new(0));
    assert_eq!(evidence.ignition_cards, vec![id(1), id(2)]);
    assert_eq!(evidence.charm_focus, None);
    assert_eq!(evidence.conflicting_observers, vec![PlayerId::new(1)]);
    assert_eq!(evidence.positional_anchor, Some(id(4)));
    assert_eq!(evidence.named.map(|n| n.secured_actions), Some(2));

    let charmed = inputs(vec![
        line(vec![signal(HGroupMoveKind::Charm, &[1])], vec![clue(3, &[]), clue(9, &[])]),
        line(vec![signal(HGroupMoveKind::Charm, &[7])], vec![]),
    ]);
    let evidence = charmed.compile(None, PlayerId::new(1)).unwrap();
    assert_eq!(evidence.charm_focus, Some(id(9)));
    assert!(evidence.conflicting_observers.is_empty());
    // The next player after seat 1 is seat 0, and no anchor targets it.
    assert_eq!(evidence.positional_anchor, None);

    let mut missing = inputs(vec![]);
    missing.observer = PlayerId::new(0);
    assert!(missing.compile(None, PlayerId::new(0)).is_none());
}
