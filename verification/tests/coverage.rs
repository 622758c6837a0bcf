use std::collections::HashSet;

use hanabi_search::convention::{HGroupLevel, HGroupProfile};
use hanabi_search::h_group::coverage::documentation_sections;

#[test]
fn pinned_subsection_sources_are_complete_and_unique() {
    let sections = documentation_sections();
    assert_eq!(sections.len(), 357);
    let mut urls = HashSet::new();
    for section in sections {
        assert!(section.source_url.starts_with("https://hanabi.github.io/"));
        assert!(
            urls.insert(section.source_url),
            "duplicate source URL: {}",
            section.source_url
        );
    }
}

#[test]
fn pinned_subsection_counts_cover_every_numbered_level_and_max() {
    let sections = documentation_sections();
    let expected = [
        19, 11, 9, 9, 9, 9, 8, 10, 11, 8, 11, 10, 7, 9, 8, 6, 6, 11, 15, 7, 9, 8, 4, 5, 11,
    ];
    for (index, expected_count) in expected.into_iter().enumerate() {
        let level = HGroupLevel::try_from_number(
            u8::try_from(index + 1).expect("the numbered level fits in u8"),
        )
        .expect("levels 1 through 25 exist");
        let count = sections
            .iter()
            .filter(|section| section.profile == HGroupProfile::Level(level))
            .count();
        assert_eq!(
            count,
            expected_count,
            "incomplete Level {} inventory",
            index + 1
        );
    }
    assert_eq!(
        sections
            .iter()
            .filter(|section| section.profile == HGroupProfile::Max)
            .count(),
        127
    );
}
