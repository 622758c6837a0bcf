use hanabi_search::convention::{HGroupLevel, HGroupProfile};
use hanabi_search::h_group::{h_group_levels, level_descriptor, HGroupMoveKind};

#[test]
fn the_learning_path_has_twenty_five_levels_then_max() {
    let levels = h_group_levels();
    assert_eq!(levels.len(), 26);
    for (index, level) in levels.iter().enumerate() {
        assert_eq!(level.profile.effective_level() as usize, index + 1);
        assert!(!level.effects.is_empty());
    }
    assert_eq!(levels[0].title, "Basic conventions");
    assert_eq!(levels[0].effects[0], HGroupMoveKind::PlayClue);
    assert_eq!(levels[25].profile, HGroupProfile::Max);
    assert_eq!(levels[24].effects, vec![HGroupMoveKind::Priority]);
    assert_eq!(
        level_descriptor(HGroupProfile::Level(HGroupLevel::Level11)).effects,
        vec![HGroupMoveKind::Bluff, HGroupMoveKind::SelfBluff]
    );
}

#[test]
fn every_move_is_introduced_by_at_most_one_level() {
    let levels = h_group_levels();
    let mut seen = Vec::new();
    for level in &levels {
        for effect in &level.effects {
            assert!(!seen.contains(effect), "{effect:?} listed twice");
            seen.push(*effect);
        }
    }
}

#[test]
fn levels_are_ordered_by_their_numbers() {
    assert!(HGroupLevel::Level3 < HGroupLevel::Level5);
    assert!(HGroupLevel::Level25 > HGroupLevel::Level1);
    assert!(HGroupLevel::Level7 <= HGroupLevel::Level7);
    let mut levels = vec![HGroupLevel::Level12, HGroupLevel::Level2, HGroupLevel::Level25, HGroupLevel::Level9];
    levels.sort();
    assert_eq!(levels, vec![HGroupLevel::Level2, HGroupLevel::Level9, HGroupLevel::Level12, HGroupLevel::Level25]);
    assert_eq!(HGroupLevel::Level4.max(HGroupLevel::Level11), HGroupLevel::Level11);
}
