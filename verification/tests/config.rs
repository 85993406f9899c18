use geoip_filter::config::{
    cache_size, cache_ttl, load_settings, text_of, validate_configuration, validate_entry,
    ConfigValue, FilterEntry, DEFAULT_CACHE_SIZE, DEFAULT_CACHE_TTL,
};
use geoip_filter::error::ConfigErrorKind;
use geoip_filter::mode::GeoIPMode;

fn text(value: &str) -> Option<ConfigValue> {
    Some(ConfigValue::Text(value.to_string()))
}

fn integer(value: i128) -> Option<ConfigValue> {
    Some(ConfigValue::Integer(value))
}

fn sound() -> FilterEntry {
    FilterEntry {
        values: vec![ConfigValue::Boolean(true)],
        mode: text("whitelist"),
        countries: text("US,CA"),
        allow_unknown: None,
        db_path: text("/var/lib/geoip/city.mmdb"),
        cache_size: None,
        cache_ttl: None,
    }
}

fn fault_of(entry: FilterEntry) -> (ConfigErrorKind, String) {
    let error = validate_entry(&entry).unwrap_err();
    (error.kind, error.message())
}

#[test]
fn sound_entry_passes() {
    assert!(validate_entry(&sound()).is_ok());
    let mut full = sound();
    full.allow_unknown = Some(ConfigValue::Boolean(false));
    full.cache_size = integer(1);
    full.cache_ttl = integer(1);
    assert!(validate_entry(&full).is_ok());
    assert!(validate_configuration(&vec![sound(), full]).is_ok());
    assert!(validate_configuration(&Vec::new()).is_ok());
}

#[test]
fn entry_needs_one_boolean_value() {
    let expected = (
        ConfigErrorKind::NotSingleBoolean,
        "The `geoip_filter` configuration property must have exactly one boolean value"
            .to_string(),
    );
    let mut entry = sound();
    entry.values = Vec::new();
    assert_eq!(fault_of(entry), expected);
    let mut entry = sound();
    entry.values = vec![ConfigValue::Boolean(true), ConfigValue::Boolean(true)];
    assert_eq!(fault_of(entry), expected);
    let mut entry = sound();
    entry.values = vec![ConfigValue::Text("true".to_string())];
    assert_eq!(fault_of(entry), expected);
}

#[test]
fn mode_must_be_present_text_and_known() {
    let mut entry = sound();
    entry.mode = None;
    assert_eq!(
        fault_of(entry),
        (
            ConfigErrorKind::ModeRequired,
            "The `mode` property is required in geoip_filter configuration".to_string()
        )
    );
    let mut entry = sound();
    entry.mode = integer(1);
    assert_eq!(
        fault_of(entry),
        (ConfigErrorKind::ModeNotString, "The `mode` property must be a string".to_string())
    );
    let mut entry = sound();
    entry.mode = text("allow");
    assert_eq!(
        fault_of(entry),
        (
            ConfigErrorKind::InvalidMode,
            "Invalid GeoIP mode: allow. Valid modes are: whitelist, blacklist".to_string()
        )
    );
    let mut entry = sound();
    entry.mode = text("BlackList");
    assert!(validate_entry(&entry).is_ok());
}

#[test]
fn countries_must_be_present_text() {
    let mut entry = sound();
    entry.countries = None;
    assert_eq!(
        fault_of(entry),
        (
            ConfigErrorKind::CountriesRequired,
            "The `countries` property is required in geoip_filter configuration".to_string()
        )
    );
    let mut entry = sound();
    entry.countries = Some(ConfigValue::Other);
    assert_eq!(
        fault_of(entry),
        (
            ConfigErrorKind::CountriesNotString,
            "The `countries` property must be a string".to_string()
        )
    );
}

#[test]
fn countries_must_name_a_country() {
    for list in ["", " ", ",", " , ,, "] {
        let mut entry = sound();
        entry.countries = text(list);
        entry.allow_unknown = integer(1);
        assert_eq!(
            fault_of(entry),
            (
                ConfigErrorKind::EmptyCountries,
                "geoip_filter countries must contain at least one country code".to_string()
            )
        );
    }
}

#[test]
fn countries_must_be_codes_of_two_letters() {
    for (list, bad) in [("USA", "USA"), ("us, u1", "U1"), ("c,us", "C"), ("us,é", "É")] {
        let mut entry = sound();
        entry.countries = text(list);
        let error = validate_entry(&entry).unwrap_err();
        assert_eq!(error.kind, ConfigErrorKind::InvalidCountryCode);
        assert_eq!(error.subject, bad);
    }
    let mut entry = sound();
    entry.countries = text(" us ,\tca,, de ");
    assert!(validate_entry(&entry).is_ok());
    let error = validate_configuration(&vec![sound(), {
        let mut entry = sound();
        entry.countries = text("US,GBR");
        entry
    }])
    .unwrap_err();
    assert_eq!(error.kind, ConfigErrorKind::InvalidCountryCode);
    assert_eq!(error.subject, "GBR");
}

#[test]
fn count_over_its_width_passes_the_checks_and_is_refused_on_loading() {
    let mut entry = sound();
    entry.cache_size = integer(i128::MAX);
    assert!(validate_entry(&entry).is_ok());
    assert_eq!(
        load_settings(Some(&entry)).err().unwrap().kind,
        ConfigErrorKind::CacheSizeTooLarge
    );
}

#[test]
fn allow_unknown_must_be_boolean_where_given() {
    let mut entry = sound();
    entry.allow_unknown = text("yes");
    assert_eq!(
        fault_of(entry),
        (
            ConfigErrorKind::AllowUnknownNotBoolean,
            "The `allow_unknown` property must be a boolean".to_string()
        )
    );
}

#[test]
fn db_path_must_be_present_text() {
    let mut entry = sound();
    entry.db_path = None;
    assert_eq!(
        fault_of(entry),
        (
            ConfigErrorKind::DbPathRequired,
            "The `db_path` property is required in geoip_filter configuration".to_string()
        )
    );
    let mut entry = sound();
    entry.db_path = Some(ConfigValue::Boolean(true));
    assert_eq!(
        fault_of(entry),
        (ConfigErrorKind::DbPathNotString, "The `db_path` property must be a string".to_string())
    );
}

#[test]
fn cache_size_must_be_a_positive_integer_where_given() {
    let mut entry = sound();
    entry.cache_size = integer(0);
    assert_eq!(
        fault_of(entry),
        (
            ConfigErrorKind::CacheSizeNotPositive,
            "`cache_size` must be a positive integer (>= 1)".to_string()
        )
    );
    let mut entry = sound();
    entry.cache_size = integer(-5);
    assert_eq!(fault_of(entry).0, ConfigErrorKind::CacheSizeNotPositive);
    let mut entry = sound();
    entry.cache_size = text("10");
    assert_eq!(
        fault_of(entry),
        (ConfigErrorKind::CacheSizeNotInteger, "`cache_size` must be an integer".to_string())
    );
}

#[test]
fn cache_ttl_must_be_a_positive_integer_where_given() {
    let mut entry = sound();
    entry.cache_ttl = integer(0);
    assert_eq!(
        fault_of(entry),
        (
            ConfigErrorKind::CacheTtlNotPositive,
            "`cache_ttl` must be a positive integer (>= 1, seconds)".to_string()
        )
    );
    let mut entry = sound();
    entry.cache_ttl = Some(ConfigValue::Other);
    assert_eq!(
        fault_of(entry),
        (
            ConfigErrorKind::CacheTtlNotInteger,
            "`cache_ttl` must be an integer (seconds)".to_string()
        )
    );
}

#[test]
fn faults_are_reported_in_the_order_of_the_checks() {
    let mut entry = sound();
    entry.values = Vec::new();
    entry.mode = None;
    assert_eq!(fault_of(entry).0, ConfigErrorKind::NotSingleBoolean);
    let mut entry = sound();
    entry.mode = text("nope");
    entry.countries = None;
    assert_eq!(fault_of(entry).0, ConfigErrorKind::InvalidMode);
    let mut entry = sound();
    entry.countries = None;
    entry.allow_unknown = integer(1);
    assert_eq!(fault_of(entry).0, ConfigErrorKind::CountriesRequired);
    let mut entry = sound();
    entry.allow_unknown = integer(1);
    entry.db_path = None;
    assert_eq!(fault_of(entry).0, ConfigErrorKind::AllowUnknownNotBoolean);
    let mut entry = sound();
    entry.db_path = None;
    entry.cache_size = integer(0);
    assert_eq!(fault_of(entry).0, ConfigErrorKind::DbPathRequired);
    let mut entry = sound();
    entry.cache_size = integer(0);
    entry.cache_ttl = integer(0);
    assert_eq!(fault_of(entry).0, ConfigErrorKind::CacheSizeNotPositive);
}

#[test]
fn first_faulty_entry_decides() {
    let mut second = sound();
    second.db_path = None;
    let mut third = sound();
    third.mode = None;
    let error = validate_configuration(&vec![sound(), second, third]).unwrap_err();
    assert_eq!(error.kind, ConfigErrorKind::DbPathRequired);
}

#[test]
fn settings_are_read_with_defaults() {
    let settings = load_settings(Some(&sound())).unwrap();
    assert_eq!(settings.policy.mode(), GeoIPMode::Whitelist);
    assert_eq!(settings.policy.countries(), &vec!["US".to_string(), "CA".to_string()]);
    assert!(!settings.policy.allow_unknown());
    assert_eq!(settings.db_path, "/var/lib/geoip/city.mmdb");
    assert_eq!(settings.cache_size, 10_000);
    assert_eq!(settings.cache_ttl, 300);
    assert_eq!(DEFAULT_CACHE_SIZE, 10_000);
    assert_eq!(DEFAULT_CACHE_TTL, 300);
}

#[test]
fn settings_take_what_is_given() {
    let mut entry = sound();
    entry.mode = text("BLACKLIST");
    entry.countries = text(" cn , ru ");
    entry.allow_unknown = Some(ConfigValue::Boolean(true));
    entry.cache_size = integer(64);
    entry.cache_ttl = integer(5);
    let settings = load_settings(Some(&entry)).unwrap();
    assert_eq!(settings.policy.mode(), GeoIPMode::Blacklist);
    assert_eq!(settings.policy.countries(), &vec!["CN".to_string(), "RU".to_string()]);
    assert!(settings.policy.allow_unknown());
    assert_eq!(settings.cache_size, 64);
    assert_eq!(settings.cache_ttl, 5);
}

#[test]
fn allow_unknown_of_another_kind_counts_as_not_given() {
    let mut entry = sound();
    entry.allow_unknown = text("true");
    let settings = load_settings(Some(&entry)).unwrap();
    assert!(!settings.policy.allow_unknown());
}

#[test]
fn settings_are_refused_for_a_count_that_is_no_integer() {
    let kind_of = |entry: &FilterEntry| load_settings(Some(entry)).err().unwrap().kind;
    let mut entry = sound();
    entry.cache_size = text("64");
    entry.cache_ttl = Some(ConfigValue::Boolean(true));
    assert_eq!(kind_of(&entry), ConfigErrorKind::CacheSizeNotInteger);
    let mut entry = sound();
    entry.cache_ttl = Some(ConfigValue::Other);
    assert_eq!(kind_of(&entry), ConfigErrorKind::CacheTtlNotInteger);
}

#[test]
fn settings_are_refused_for_a_count_below_one() {
    let kind_of = |entry: &FilterEntry| load_settings(Some(entry)).err().unwrap().kind;
    for low in [0, -1, i128::MIN] {
        let mut entry = sound();
        entry.cache_size = integer(low);
        entry.cache_ttl = integer(low);
        assert_eq!(kind_of(&entry), ConfigErrorKind::CacheSizeNotPositive);
        let mut entry = sound();
        entry.cache_ttl = integer(low);
        assert_eq!(kind_of(&entry), ConfigErrorKind::CacheTtlNotPositive);
    }
    let mut entry = sound();
    entry.cache_size = integer(1);
    entry.cache_ttl = integer(1);
    let settings = load_settings(Some(&entry)).unwrap();
    assert_eq!(settings.cache_size, 1);
    assert_eq!(settings.cache_ttl, 1);
}

#[test]
fn settings_are_refused_for_a_count_over_its_width() {
    let kind_of = |entry: &FilterEntry| load_settings(Some(entry)).err().unwrap();
    let mut entry = sound();
    entry.cache_size = integer(usize::MAX as i128 + 1);
    assert_eq!(kind_of(&entry).kind, ConfigErrorKind::CacheSizeTooLarge);
    assert_eq!(kind_of(&entry).message(), "`cache_size` is too large");
    let mut entry = sound();
    entry.cache_size = integer((1i128 << 64) + 5);
    assert_eq!(kind_of(&entry).kind, ConfigErrorKind::CacheSizeTooLarge);
    let mut entry = sound();
    entry.cache_ttl = integer(u64::MAX as i128 + 1);
    assert_eq!(kind_of(&entry).kind, ConfigErrorKind::CacheTtlTooLarge);
    assert_eq!(kind_of(&entry).message(), "`cache_ttl` is too large (seconds)");
    let mut entry = sound();
    entry.cache_ttl = integer(i128::MAX);
    assert_eq!(kind_of(&entry).kind, ConfigErrorKind::CacheTtlTooLarge);
    let mut entry = sound();
    entry.cache_size = integer(usize::MAX as i128);
    entry.cache_ttl = integer(u64::MAX as i128);
    let settings = load_settings(Some(&entry)).unwrap();
    assert_eq!(settings.cache_size, usize::MAX);
    assert_eq!(settings.cache_ttl, u64::MAX);
}

#[test]
fn settings_are_refused_in_order() {
    let kind_of = |entry: Option<&FilterEntry>| load_settings(entry).err().unwrap().kind;
    assert_eq!(kind_of(None), ConfigErrorKind::MissingMode);
    let mut entry = sound();
    entry.mode = integer(3);
    entry.countries = None;
    assert_eq!(kind_of(Some(&entry)), ConfigErrorKind::MissingMode);
    assert_eq!(
        load_settings(Some(&entry)).err().unwrap().message(),
        "Missing geoip_filter mode configuration"
    );
    let mut entry = sound();
    entry.mode = text("neither");
    entry.countries = None;
    assert_eq!(kind_of(Some(&entry)), ConfigErrorKind::InvalidMode);
    let mut entry = sound();
    entry.countries = Some(ConfigValue::Other);
    entry.db_path = None;
    assert_eq!(kind_of(Some(&entry)), ConfigErrorKind::MissingCountries);
    assert_eq!(
        load_settings(Some(&entry)).err().unwrap().message(),
        "Missing geoip_filter countries configuration"
    );
    let mut entry = sound();
    entry.countries = text(" , ");
    entry.db_path = None;
    assert_eq!(kind_of(Some(&entry)), ConfigErrorKind::EmptyCountries);
    let mut entry = sound();
    entry.countries = text("US,GBR");
    entry.db_path = None;
    assert_eq!(kind_of(Some(&entry)), ConfigErrorKind::InvalidCountryCode);
    let mut entry = sound();
    entry.db_path = None;
    entry.cache_size = integer(0);
    assert_eq!(kind_of(Some(&entry)), ConfigErrorKind::MissingDbPath);
    assert_eq!(
        load_settings(Some(&entry)).err().unwrap().message(),
        "Missing geoip_filter db_path configuration"
    );
    let mut entry = sound();
    entry.cache_size = integer(0);
    entry.cache_ttl = text("soon");
    assert_eq!(kind_of(Some(&entry)), ConfigErrorKind::CacheSizeNotPositive);
    let mut entry = sound();
    entry.cache_ttl = text("soon");
    assert_eq!(kind_of(Some(&entry)), ConfigErrorKind::CacheTtlNotInteger);
}

#[test]
fn counts_are_read_as_given() {
    assert_eq!(cache_size(&None).unwrap(), 10_000);
    assert_eq!(cache_size(&integer(1)).unwrap(), 1);
    assert_eq!(cache_size(&integer(250)).unwrap(), 250);
    assert_eq!(cache_size(&integer(usize::MAX as i128)).unwrap(), usize::MAX);
    assert_eq!(cache_ttl(&None).unwrap(), 300);
    assert_eq!(cache_ttl(&integer(1)).unwrap(), 1);
    assert_eq!(cache_ttl(&integer(86_400)).unwrap(), 86_400);
    assert_eq!(cache_ttl(&integer(u64::MAX as i128)).unwrap(), u64::MAX);
}

#[test]
fn counts_out_of_range_are_refused() {
    let size_kind = |value: Option<ConfigValue>| cache_size(&value).unwrap_err().kind;
    let ttl_kind = |value: Option<ConfigValue>| cache_ttl(&value).unwrap_err().kind;
    assert_eq!(size_kind(integer(0)), ConfigErrorKind::CacheSizeNotPositive);
    assert_eq!(size_kind(integer(-7)), ConfigErrorKind::CacheSizeNotPositive);
    assert_eq!(size_kind(integer(usize::MAX as i128 + 1)), ConfigErrorKind::CacheSizeTooLarge);
    assert_eq!(size_kind(integer(i128::MAX)), ConfigErrorKind::CacheSizeTooLarge);
    assert_eq!(size_kind(text("10")), ConfigErrorKind::CacheSizeNotInteger);
    assert_eq!(size_kind(Some(ConfigValue::Other)), ConfigErrorKind::CacheSizeNotInteger);
    assert_eq!(ttl_kind(integer(0)), ConfigErrorKind::CacheTtlNotPositive);
    assert_eq!(ttl_kind(integer(i128::MIN)), ConfigErrorKind::CacheTtlNotPositive);
    assert_eq!(ttl_kind(integer(1i128 << 64)), ConfigErrorKind::CacheTtlTooLarge);
    assert_eq!(ttl_kind(Some(ConfigValue::Boolean(true))), ConfigErrorKind::CacheTtlNotInteger);
}

#[test]
fn text_is_taken_from_text_values_only() {
    assert_eq!(text_of(&text("abc")), Some("abc"));
    assert_eq!(text_of(&integer(1)), None);
    assert_eq!(text_of(&Some(ConfigValue::Boolean(true))), None);
    assert_eq!(text_of(&Some(ConfigValue::Other)), None);
    assert_eq!(text_of(&None), None);
}
