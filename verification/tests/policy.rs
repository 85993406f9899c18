use geoip_filter::error::ConfigErrorKind;
use geoip_filter::mode::GeoIPMode;
use geoip_filter::policy::PolicySet;

fn codes(list: &[&str]) -> Vec<String> {
    list.iter().map(|code| code.to_string()).collect()
}

#[test]
fn whitelist_lets_listed_countries_through() {
    let policy = PolicySet::new(GeoIPMode::Whitelist, codes(&["US", "CA"]), false).unwrap();
    assert!(!policy.should_block(Some("US")));
    assert!(!policy.should_block(Some("CA")));
}

#[test]
fn whitelist_turns_unlisted_countries_away() {
    let policy = PolicySet::new(GeoIPMode::Whitelist, codes(&["US", "CA"]), false).unwrap();
    assert!(policy.should_block(Some("FR")));
    assert!(policy.should_block(Some("us")));
    assert!(policy.should_block(Some("USA")));
    assert!(policy.should_block(Some("")));
}

#[test]
fn blacklist_turns_listed_countries_away() {
    let policy = PolicySet::new(GeoIPMode::Blacklist, codes(&["CN", "RU"]), true).unwrap();
    assert!(policy.should_block(Some("CN")));
    assert!(policy.should_block(Some("RU")));
}

#[test]
fn blacklist_lets_unlisted_countries_through() {
    let policy = PolicySet::new(GeoIPMode::Blacklist, codes(&["CN", "RU"]), false).unwrap();
    assert!(!policy.should_block(Some("DE")));
    assert!(!policy.should_block(Some("cn")));
}

#[test]
fn unknown_country_follows_allow_unknown_in_both_modes() {
    for mode in [GeoIPMode::Whitelist, GeoIPMode::Blacklist] {
        let strict = PolicySet::new(mode, codes(&["US"]), false).unwrap();
        let lenient = PolicySet::new(mode, codes(&["US"]), true).unwrap();
        assert!(strict.should_block(None));
        assert!(!lenient.should_block(None));
    }
}

#[test]
fn policy_without_countries_is_refused() {
    let error = PolicySet::new(GeoIPMode::Whitelist, Vec::new(), false).err().unwrap();
    assert_eq!(error.kind, ConfigErrorKind::EmptyCountries);
    assert_eq!(error.subject, "");
    assert_eq!(
        error.message(),
        "geoip_filter countries must contain at least one country code"
    );
    let error = PolicySet::new(GeoIPMode::Blacklist, codes(&["", ""]), true).err().unwrap();
    assert_eq!(error.kind, ConfigErrorKind::EmptyCountries);
}

#[test]
fn policy_with_a_malformed_code_is_refused() {
    for bad in ["USA", "U", "us", "U1", "É!", "U S"] {
        let error = PolicySet::new(GeoIPMode::Whitelist, codes(&["CA", bad, "??"]), false)
            .err()
            .unwrap();
        assert_eq!(error.kind, ConfigErrorKind::InvalidCountryCode);
        assert_eq!(error.subject, bad);
    }
}

#[test]
fn malformed_code_is_reported_before_an_empty_list() {
    let error = PolicySet::new(GeoIPMode::Whitelist, codes(&["", "x"]), false).err().unwrap();
    assert_eq!(error.kind, ConfigErrorKind::InvalidCountryCode);
    assert_eq!(error.subject, "x");
    assert_eq!(
        error.message(),
        "Invalid geoip_filter country code: x. Country codes have two letters"
    );
}

#[test]
fn policy_lists_each_country_once() {
    let policy =
        PolicySet::new(GeoIPMode::Whitelist, codes(&["US", "", "CA", "US"]), true).unwrap();
    assert_eq!(policy.countries(), &codes(&["US", "CA"]));
    assert_eq!(policy.mode(), GeoIPMode::Whitelist);
    assert!(policy.allow_unknown());
}

#[test]
fn list_is_split_trimmed_and_uppercased() {
    let policy = PolicySet::from_list(GeoIPMode::Blacklist, " cn, ru ,,\tkp\n,CN", false).unwrap();
    assert_eq!(policy.countries(), &codes(&["CN", "RU", "KP"]));
    assert_eq!(policy.mode(), GeoIPMode::Blacklist);
    assert!(!policy.allow_unknown());
    assert!(policy.should_block(Some("KP")));
    assert!(!policy.should_block(Some("US")));
}

#[test]
fn list_that_names_no_country_is_refused() {
    for list in ["", " ", ",", " , ,, "] {
        let error = PolicySet::from_list(GeoIPMode::Whitelist, list, false).err().unwrap();
        assert_eq!(error.kind, ConfigErrorKind::EmptyCountries);
    }
}

#[test]
fn list_with_a_malformed_code_is_refused() {
    let error = PolicySet::from_list(GeoIPMode::Whitelist, "us, usa ,c", false).err().unwrap();
    assert_eq!(error.kind, ConfigErrorKind::InvalidCountryCode);
    assert_eq!(error.subject, "USA");
}

#[test]
fn block_message_names_origin_country_mode_and_rule() {
    let policy = PolicySet::new(GeoIPMode::Whitelist, codes(&["US", "CA"]), false).unwrap();
    assert_eq!(
        policy.block_message("5.6.7.8", Some("FR")),
        "GeoIP blocked request from IP 5.6.7.8 (Country: FR, Mode: Whitelist, AllowUnknown: false)"
    );
    let policy = PolicySet::new(GeoIPMode::Blacklist, codes(&["CN"]), true).unwrap();
    assert_eq!(
        policy.block_message("::1", None),
        "GeoIP blocked request from IP ::1 (Country: Unknown, Mode: Blacklist, AllowUnknown: true)"
    );
}
