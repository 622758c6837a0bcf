use hanabi_search::cards::{Card, CardId, IdentitySet, Rank, Suit};
use hanabi_search::cards::PlayerId;
use hanabi_search::h_group::admission::VisibleCard;
use hanabi_search::h_group::constraint_graph::{
    cross_product, h_group_belief_constraints, ConnectionPromise, ConventionConstraintGraph,
};
use hanabi_search::h_group::facts::ConventionFacts;
use hanabi_search::h_group::{HGroupMoveKind, HGroupSignal};

#[test]
fn cross_product_preserves_mutually_exclusive_relations() {
    let first = vec![vec![(CardId::new(1), IdentitySet::all())]];
    let second = vec![
        vec![(CardId::new(2), IdentitySet::all())],
        vec![(CardId::new(3), IdentitySet::all())],
    ];
    let product = cross_product(first, &second);
    assert_eq!(product.len(), 2);
    assert_eq!(product[0].len(), 2);
    assert_eq!(product[1].len(), 2);
}

#[test]
fn cross_product_orders_branches_existing_major() {
    let red = IdentitySet::singleton(Card::new(Suit::Red, Rank::One));
    let first = vec![
        vec![(CardId::new(1), red)],
        vec![(CardId::new(2), red)],
    ];
    let second = vec![
        vec![(CardId::new(3), red)],
        vec![(CardId::new(4), red), (CardId::new(5), red)],
    ];
    let product = cross_product(first, &second);
    let ids: Vec<Vec<u8>> = product
        .iter()
        .map(|branch| branch.iter().map(|(card, _)| card.id).collect())
        .collect();
    assert_eq!(ids, vec![vec![1, 3], vec![1, 4, 5], vec![2, 3], vec![2, 4, 5]]);
    assert!(cross_product(Vec::new(), &second).is_empty());
    assert_eq!(cross_product(vec![Vec::new()], &Vec::new()).len(), 0);
}

fn table() -> Vec<Vec<VisibleCard>> {
    vec![
        (1..=4).map(|i| VisibleCard { id: CardId::new(i), identity: None, rank_clued: false }).collect(),
        vec![VisibleCard {
            id: CardId::new(5),
            identity: Some(Card::new(Suit::Red, Rank::One)),
            rank_clued: false,
        }],
    ]
}

fn elimination(cards: &[u8], identity: Card) -> ConventionFacts {
    ConventionFacts::from_signals(&vec![HGroupSignal {
        turn: 1,
        actor: PlayerId::new(1),
        target: Some(PlayerId::new(0)),
        kind: HGroupMoveKind::Elimination,
        cards: cards.iter().map(|c| CardId::new(*c)).collect(),
        identity: Some(identity),
    }])
}

#[test]
fn notes_alone_give_common_domains_and_no_branches() {
    let notes = vec![(CardId::new(1), IdentitySet::all())];
    let graph = ConventionConstraintGraph::from_replay(
        &table(),
        PlayerId::new(0),
        [0; 5],
        &ConventionFacts::new(),
        &notes,
        &vec![],
    );
    assert_eq!(graph.common, notes);
    assert!(graph.alternatives.is_empty());
    let belief = graph.into_belief_constraints();
    assert_eq!(belief.constraints, notes);
    assert!(belief.branches.is_empty());
}

#[test]
fn a_relational_claim_branches_over_hidden_own_candidates() {
    let b1 = Card::new(Suit::Blue, Rank::One);
    let exact = IdentitySet::singleton(b1);
    let other = IdentitySet::all().without(exact);
    let graph = ConventionConstraintGraph::from_replay(
        &table(),
        PlayerId::new(0),
        [0; 5],
        &elimination(&[1, 2], b1),
        &vec![],
        &vec![],
    );
    assert!(graph.common.is_empty());
    assert_eq!(
        graph.alternatives,
        vec![
            vec![(CardId::new(1), exact), (CardId::new(2), other)],
            vec![(CardId::new(1), other), (CardId::new(2), exact)],
        ]
    );
}

#[test]
fn a_demonstrated_claim_rules_its_identity_out_of_own_cards() {
    let r1 = Card::new(Suit::Red, Rank::One);
    let graph = ConventionConstraintGraph::from_replay(
        &table(),
        PlayerId::new(0),
        [0; 5],
        &elimination(&[1, 5], r1),
        &vec![],
        &vec![],
    );
    let other = IdentitySet::all().without(IdentitySet::singleton(r1));
    assert_eq!(graph.common, vec![(CardId::new(1), other)]);
    assert!(graph.alternatives.is_empty());
}

#[test]
fn a_promise_branches_over_which_card_supplies_it() {
    let b2 = Card::new(Suit::Blue, Rank::Two);
    let promise = ConnectionPromise { identity: b2, cards: vec![CardId::new(3), CardId::new(4)] };
    let heights = [0, 0, 0, 1, 0];
    let graph = ConventionConstraintGraph::from_replay(
        &table(),
        PlayerId::new(0),
        heights,
        &ConventionFacts::new(),
        &vec![],
        &vec![promise],
    );
    let exact = IdentitySet::singleton(b2);
    let wrong = [
        Card::new(Suit::Red, Rank::One),
        Card::new(Suit::Yellow, Rank::One),
        Card::new(Suit::Green, Rank::One),
        Card::new(Suit::Purple, Rank::One),
    ]
    .iter()
    .fold(IdentitySet::empty(), |s, c| s.union(IdentitySet::singleton(*c)));
    assert_eq!(
        graph.alternatives,
        vec![
            vec![(CardId::new(3), exact)],
            vec![(CardId::new(3), wrong), (CardId::new(4), exact)],
        ]
    );
}

#[test]
fn belief_constraints_branch_only_over_promises() {
    let notes = vec![(CardId::new(1), IdentitySet::all())];
    let plain = h_group_belief_constraints([0; 5], &notes, &vec![]);
    assert_eq!(plain.constraints, notes);
    assert!(plain.branches.is_empty());
    let r1 = Card::new(Suit::Red, Rank::One);
    let promise = ConnectionPromise { identity: r1, cards: vec![CardId::new(3), CardId::new(4)] };
    let branched = h_group_belief_constraints([0; 5], &notes, &vec![promise]);
    assert_eq!(branched.branches.len(), 2);
    assert_eq!(branched.branches[0], vec![(CardId::new(3), IdentitySet::singleton(r1))]);
    assert_eq!(branched.branches[1].len(), 2);
    // A promise without candidates leaves no consistent branch.
    let empty = ConnectionPromise { identity: r1, cards: vec![] };
    assert!(h_group_belief_constraints([0; 5], &notes, &vec![empty]).branches.is_empty());
}
