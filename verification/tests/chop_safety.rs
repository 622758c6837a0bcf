use hanabi_search::cards::{Card, CardId, IdentitySet, Rank, Suit};
use hanabi_search::h_group::admission::VisibleCard;
use hanabi_search::h_group::chop_safety::declined_protection_domain;

fn set(cards: &[Card]) -> IdentitySet {
    cards.iter().fold(IdentitySet::empty(), |s, c| s.union(IdentitySet::singleton(*c)))
}

#[test]
fn a_declined_save_rules_out_what_the_team_had_to_protect() {
    let r5 = Card::new(Suit::Red, Rank::Five);
    let b2 = Card::new(Suit::Blue, Rank::Two);
    let g3 = Card::new(Suit::Green, Rank::Three);
    let y1 = Card::new(Suit::Yellow, Rank::One);
    let p4 = Card::new(Suit::Purple, Rank::Four);
    let chop = CardId::new(4);
    let hands = vec![
        vec![VisibleCard { id: chop, identity: None, rank_clued: false }],
        vec![VisibleCard { id: CardId::new(9), identity: Some(b2), rank_clued: false }],
    ];
    let domain = set(&[r5, b2, g3, y1, p4]);
    let useful = IdentitySet::all();
    let critical = set(&[p4]);
    let allowed = declined_protection_domain(&hands, chop, domain, [0; 5], useful, critical, true);
    // The 5, the playable 1 and the critical 4 had to be saved; the blue 2
    // has a visible replacement; the green 3 needed no save.
    assert_eq!(allowed, set(&[b2, g3]));
    // Without a protection duty nothing is ruled out.
    assert_eq!(declined_protection_domain(&hands, chop, domain, [0; 5], useful, critical, false), domain);
    // Identities no longer useful never needed protection.
    assert_eq!(
        declined_protection_domain(&hands, chop, domain, [0; 5], IdentitySet::empty(), critical, true),
        domain
    );
}
