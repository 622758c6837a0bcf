use hanabi_search::convention::{
    HGroupLevel, HGroupProfile, ParseConventionError, ParseHGroupProfileError,
    SupportedConvention, H_GROUP_RULESET_REVISION,
};

#[test]
fn registry_separates_framework_metadata_from_concrete_selections() {
    assert_eq!(SupportedConvention::default(), SupportedConvention::NoConvention);
    assert_eq!("none".parse(), Ok(SupportedConvention::NoConvention));
    assert!("h-group".parse::<SupportedConvention>().is_err());
    assert_eq!(
        "h-group:5".parse(),
        Ok(SupportedConvention::HGroup(HGroupProfile::Level(
            HGroupLevel::Level5
        )))
    );
    assert_eq!(
        "h-group:max".parse(),
        Ok(SupportedConvention::HGroup(HGroupProfile::Max))
    );
    assert_eq!(SupportedConvention::NoConvention.to_string(), "none");
    assert_eq!(
        SupportedConvention::HGroup(HGroupProfile::Level(HGroupLevel::Level5)).to_string(),
        "h-group (level 5)"
    );
}

#[test]
fn h_group_profiles_are_cumulative_and_max_is_level_26() {
    let level_five = HGroupProfile::Level(HGroupLevel::Level5);
    assert!(level_five.includes(HGroupLevel::Level1));
    assert!(level_five.includes(HGroupLevel::Level5));
    assert!(!level_five.includes(HGroupLevel::Level6));

    assert!(HGroupProfile::Max.includes(HGroupLevel::Level25));
    assert_eq!(HGroupProfile::Max.effective_level(), 26);
    assert_eq!("1".parse(), Ok(HGroupProfile::Level(HGroupLevel::Level1)));
    assert_eq!("25".parse(), Ok(HGroupProfile::Level(HGroupLevel::Level25)));
    assert!("0".parse::<HGroupProfile>().is_err());
    assert!("26".parse::<HGroupProfile>().is_err());
}

#[test]
fn h_group_selection_exposes_profile_and_revision_metadata() {
    let convention = SupportedConvention::HGroup(HGroupProfile::Level(HGroupLevel::Level3));
    assert_eq!(
        convention.profile(),
        Some(HGroupProfile::Level(HGroupLevel::Level3))
    );
    assert_eq!(convention.ruleset_revision(), Some(H_GROUP_RULESET_REVISION));
    assert_eq!(SupportedConvention::NoConvention.profile(), None);
    assert_eq!(SupportedConvention::NoConvention.ruleset_revision(), None);
    assert_eq!(convention.id(), "h-group");
    assert_eq!(SupportedConvention::NoConvention.id(), "none");
}

#[test]
fn invalid_profiles_report_the_rejected_text() {
    assert_eq!(
        "abc".parse::<HGroupProfile>(),
        Err(ParseHGroupProfileError("abc".to_owned()))
    );
    // A number out of range is reported in its decimal form.
    assert_eq!(
        "026".parse::<HGroupProfile>(),
        Err(ParseHGroupProfileError("26".to_owned()))
    );
    assert_eq!("+7".parse(), Ok(HGroupProfile::Level(HGroupLevel::Level7)));
    assert!("+".parse::<HGroupProfile>().is_err());
    assert!("".parse::<HGroupProfile>().is_err());
    assert_eq!(
        "256".parse::<HGroupProfile>(),
        Err(ParseHGroupProfileError("256".to_owned()))
    );
    assert_eq!(
        "h-group:0".parse::<SupportedConvention>(),
        Err(ParseConventionError::InvalidHGroupProfile(
            ParseHGroupProfileError("0".to_owned())
        ))
    );
    assert_eq!(
        "h-group:x".parse::<SupportedConvention>(),
        Err(ParseConventionError::InvalidHGroupProfile(
            ParseHGroupProfileError("x".to_owned())
        ))
    );
    assert_eq!(
        "hgroup".parse::<SupportedConvention>(),
        Err(ParseConventionError::Unknown("hgroup".to_owned()))
    );
}

#[test]
fn profile_and_level_names() {
    assert_eq!(HGroupProfile::Max.to_string(), "max");
    assert_eq!(HGroupProfile::Level(HGroupLevel::Level12).to_string(), "level 12");
    assert_eq!(HGroupLevel::Level25.to_string(), "25");
    assert_eq!(HGroupLevel::Level9.number(), 9);
    assert_eq!(
        SupportedConvention::HGroup(HGroupProfile::Max).to_string(),
        "h-group (max)"
    );
    assert_eq!(
        ParseHGroupProfileError("0".to_owned()).to_string(),
        "invalid H-Group level \"0\"; expected 1 through 25, or max"
    );
}

#[test]
fn parse_errors_quote_the_rejected_text_as_debug_does() {
    assert_eq!(
        ParseConventionError::Unknown("h\"g".to_owned()).to_string(),
        "unknown convention \"h\\\"g\"; expected none or h-group:<1-25|max>"
    );
    assert_eq!(
        ParseConventionError::InvalidHGroupProfile(ParseHGroupProfileError("x\ny".to_owned())).to_string(),
        "invalid H-Group level \"x\\ny\"; expected 1 through 25, or max"
    );
}
