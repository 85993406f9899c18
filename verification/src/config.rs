//! The filter's configuration: what a host's configuration holds for the
//! filter, the checks on it, and the settings it comes to.

use crate::country::{parse_countries, piece_codes, selection};
use crate::error::{ConfigError, ConfigErrorKind, Fault};
use crate::mode::GeoIPMode;
use crate::policy::{PolicySet, PolicyView};
use crate::text::{lowercase_of, optional_text, split_commas};
use vstd::prelude::*;

verus! {

/// The cache size of a configuration that gives none.
pub const DEFAULT_CACHE_SIZE: i128 = 10_000i128;

/// The seconds an entry is served in a configuration that gives none.
pub const DEFAULT_CACHE_TTL: i128 = 300i128;

/// One value of a configuration.
#[derive(Clone, Debug)]
pub enum ConfigValue {
    Text(String),
    Integer(i128),
    Boolean(bool),
    /// A value of any other kind.
    Other,
}

impl ConfigValue {
    /// The text of a value that is text.
    pub open spec fn text(self) -> Option<Seq<char>> {
        match self {
            ConfigValue::Text(text) => Some(text@),
            _ => None,
        }
    }

    /// The number of a value that is an integer.
    pub open spec fn integer(self) -> Option<i128> {
        match self {
            ConfigValue::Integer(number) => Some(number),
            _ => None,
        }
    }

    /// The truth value of a value that is a boolean.
    pub open spec fn boolean(self) -> Option<bool> {
        match self {
            ConfigValue::Boolean(flag) => Some(flag),
            _ => None,
        }
    }
}

/// What one `geoip_filter` entry of a configuration holds: its own values,
/// and the value of each property that the filter knows, where it is given.
#[derive(Clone, Debug)]
pub struct FilterEntry {
    pub values: Vec<ConfigValue>,
    pub mode: Option<ConfigValue>,
    pub countries: Option<ConfigValue>,
    pub allow_unknown: Option<ConfigValue>,
    pub db_path: Option<ConfigValue>,
    pub cache_size: Option<ConfigValue>,
    pub cache_ttl: Option<ConfigValue>,
}

/// The text of a property, where the property is given and is text.
pub open spec fn given_text(property: Option<ConfigValue>) -> Option<Seq<char>> {
    match property {
        Some(value) => value.text(),
        None => None,
    }
}

/// The number of a property, where the property is given and is an integer.
pub open spec fn given_integer(property: Option<ConfigValue>) -> Option<i128> {
    match property {
        Some(value) => value.integer(),
        None => None,
    }
}

/// The truth value of a property, where the property is given and is a
/// boolean.
pub open spec fn given_boolean(property: Option<ConfigValue>) -> Option<bool> {
    match property {
        Some(value) => value.boolean(),
        None => None,
    }
}

/// What is wrong with a property that must be text, if anything: that it is
/// absent, or that it is something else.
pub open spec fn text_fault(
    property: Option<ConfigValue>,
    absent: ConfigErrorKind,
    other: ConfigErrorKind,
) -> Option<Fault> {
    match property {
        None => Some(Fault::plain(absent)),
        Some(value) => if value is Text {
            None
        } else {
            Some(Fault::plain(other))
        },
    }
}

/// What is wrong with a property that, where given, must be an integer of
/// at least one.
pub open spec fn count_fault(
    property: Option<ConfigValue>,
    low: ConfigErrorKind,
    other: ConfigErrorKind,
) -> Option<Fault> {
    match property {
        None => None,
        Some(ConfigValue::Integer(number)) => if number < 1 {
            Some(Fault::plain(low))
        } else {
            None
        },
        Some(_) => Some(Fault::plain(other)),
    }
}

/// What is wrong with the mode of an entry.
pub open spec fn mode_fault(property: Option<ConfigValue>) -> Option<Fault> {
    match property {
        None => Some(Fault::plain(ConfigErrorKind::ModeRequired)),
        Some(ConfigValue::Text(text)) => if GeoIPMode::named_by(lowercase_of(text@)) is Some {
            None
        } else {
            Some(Fault { kind: ConfigErrorKind::InvalidMode, subject: text@ })
        },
        Some(_) => Some(Fault::plain(ConfigErrorKind::ModeNotString)),
    }
}

/// What is wrong with the countries of an entry: that they are absent, that
/// they are not text, that a piece of the list is not a code of two letters,
/// or that the list names no country.
pub open spec fn countries_fault(property: Option<ConfigValue>) -> Option<Fault> {
    match property {
        None => Some(Fault::plain(ConfigErrorKind::CountriesRequired)),
        Some(ConfigValue::Text(list)) => match selection(piece_codes(split_commas(list@))) {
            Err(fault) => Some(fault),
            Ok(_) => None,
        },
        Some(_) => Some(Fault::plain(ConfigErrorKind::CountriesNotString)),
    }
}

/// The first thing wrong with an entry, in the order in which an entry is
/// checked: its own value, the mode, the countries, `allow_unknown`, the
/// path of the database, the cache size, the TTL.
pub open spec fn entry_fault(entry: FilterEntry) -> Option<Fault> {
    if !(entry.values@.len() == 1 && entry.values@[0] is Boolean) {
        Some(Fault::plain(ConfigErrorKind::NotSingleBoolean))
    } else if mode_fault(entry.mode) is Some {
        mode_fault(entry.mode)
    } else if countries_fault(entry.countries) is Some {
        countries_fault(entry.countries)
    } else if entry.allow_unknown is Some && !(entry.allow_unknown->0 is Boolean) {
        Some(Fault::plain(ConfigErrorKind::AllowUnknownNotBoolean))
    } else if text_fault(
        entry.db_path,
        ConfigErrorKind::DbPathRequired,
        ConfigErrorKind::DbPathNotString,
    ) is Some {
        text_fault(entry.db_path, ConfigErrorKind::DbPathRequired, ConfigErrorKind::DbPathNotString)
    } else if count_fault(
        entry.cache_size,
        ConfigErrorKind::CacheSizeNotPositive,
        ConfigErrorKind::CacheSizeNotInteger,
    ) is Some {
        count_fault(
            entry.cache_size,
            ConfigErrorKind::CacheSizeNotPositive,
            ConfigErrorKind::CacheSizeNotInteger,
        )
    } else {
        count_fault(
            entry.cache_ttl,
            ConfigErrorKind::CacheTtlNotPositive,
            ConfigErrorKind::CacheTtlNotInteger,
        )
    }
}

/// Whether entry `i` is the first with something wrong.
pub open spec fn first_faulty_at(entries: Seq<FilterEntry>, i: int) -> bool {
    &&& 0 <= i < entries.len()
    &&& entry_fault(entries[i]) is Some
    &&& forall|j: int| 0 <= j < i ==> entry_fault(#[trigger] entries[j]) is None
}

/// What is wrong with a configuration: the first fault of its first faulty
/// entry, or nothing.
pub open spec fn first_fault(entries: Seq<FilterEntry>) -> Option<Fault> {
    if exists|i: int| first_faulty_at(entries, i) {
        entry_fault(entries[choose|i: int| first_faulty_at(entries, i)])
    } else {
        None
    }
}

fn check_text(property: &Option<ConfigValue>, absent: ConfigErrorKind, other: ConfigErrorKind) -> (checked:
    Result<(), ConfigError>)
    ensures
        match text_fault(*property, absent, other) {
            Some(fault) => checked matches Err(error) && error@ == fault,
            None => checked is Ok,
        },
{
    match property {
        None => Err(ConfigError::plain(absent)),
        Some(ConfigValue::Text(_)) => Ok(()),
        Some(_) => Err(ConfigError::plain(other)),
    }
}

fn check_count(property: &Option<ConfigValue>, low: ConfigErrorKind, other: ConfigErrorKind) -> (checked:
    Result<(), ConfigError>)
    ensures
        match count_fault(*property, low, other) {
            Some(fault) => checked matches Err(error) && error@ == fault,
            None => checked is Ok,
        },
{
    match property {
        None => Ok(()),
        Some(ConfigValue::Integer(number)) => {
            if *number < 1 {
                Err(ConfigError::plain(low))
            } else {
                Ok(())
            }
        },
        Some(_) => Err(ConfigError::plain(other)),
    }
}

fn check_mode(property: &Option<ConfigValue>) -> (checked: Result<(), ConfigError>)
    ensures
        match mode_fault(*property) {
            Some(fault) => checked matches Err(error) && error@ == fault,
            None => checked is Ok,
        },
{
    match property {
        None => Err(ConfigError::plain(ConfigErrorKind::ModeRequired)),
        Some(ConfigValue::Text(text)) => {
            match GeoIPMode::from_str(text.as_str()) {
                Ok(_) => Ok(()),
                Err(error) => Err(error),
            }
        },
        Some(_) => Err(ConfigError::plain(ConfigErrorKind::ModeNotString)),
    }
}

fn check_countries(property: &Option<ConfigValue>) -> (checked: Result<(), ConfigError>)
    ensures
        match countries_fault(*property) {
            Some(fault) => checked matches Err(error) && error@ == fault,
            None => checked is Ok,
        },
{
    match property {
        None => Err(ConfigError::plain(ConfigErrorKind::CountriesRequired)),
        Some(ConfigValue::Text(list)) => {
            match parse_countries(list.as_str()) {
                Ok(_) => Ok(()),
                Err(error) => Err(error),
            }
        },
        Some(_) => Err(ConfigError::plain(ConfigErrorKind::CountriesNotString)),
    }
}

/// Checks one entry, and reports the first thing wrong with it.
pub fn validate_entry(entry: &FilterEntry) -> (checked: Result<(), ConfigError>)
    ensures
        match entry_fault(*entry) {
            Some(fault) => checked matches Err(error) && error@ == fault,
            None => checked is Ok,
        },
{
    let single = entry.values.len() == 1 && match &entry.values[0] {
        ConfigValue::Boolean(_) => true,
        _ => false,
    };
    if !single {
        return Err(ConfigError::plain(ConfigErrorKind::NotSingleBoolean));
    }
    match check_mode(&entry.mode) {
        Err(error) => {
            return Err(error);
        },
        Ok(_) => {},
    }
    match check_countries(&entry.countries) {
        Err(error) => {
            return Err(error);
        },
        Ok(_) => {},
    }
    match &entry.allow_unknown {
        Some(ConfigValue::Boolean(_)) => {},
        Some(_) => {
            return Err(ConfigError::plain(ConfigErrorKind::AllowUnknownNotBoolean));
        },
        None => {},
    }
    match check_text(
        &entry.db_path,
        ConfigErrorKind::DbPathRequired,
        ConfigErrorKind::DbPathNotString,
    ) {
        Err(error) => {
            return Err(error);
        },
        Ok(_) => {},
    }
    match check_count(
        &entry.cache_size,
        ConfigErrorKind::CacheSizeNotPositive,
        ConfigErrorKind::CacheSizeNotInteger,
    ) {
        Err(error) => {
            return Err(error);
        },
        Ok(_) => {},
    }
    check_count(
        &entry.cache_ttl,
        ConfigErrorKind::CacheTtlNotPositive,
        ConfigErrorKind::CacheTtlNotInteger,
    )
}

/// Checks the `geoip_filter` entries of a configuration in order, and
/// reports the first thing wrong with the first faulty one.
pub fn validate_configuration(entries: &Vec<FilterEntry>) -> (checked: Result<(), ConfigError>)
    ensures
        match first_fault(entries@) {
            Some(fault) => checked matches Err(error) && error@ == fault,
            None => checked is Ok,
        },
{
    let mut i: usize = 0;
    while i < entries.len()
        invariant
            i <= entries.len(),
            forall|j: int| 0 <= j < i ==> entry_fault(#[trigger] entries@[j]) is None,
        decreases entries.len() - i,
    {
        match validate_entry(&entries[i]) {
            Err(error) => {
                proof {
                    let first = choose|k: int| first_faulty_at(entries@, k);
                    assert(first_faulty_at(entries@, i as int));
                    if first < i {
                        assert(entry_fault(entries@[first]) is None);
                    } else if i < first {
                        assert(entry_fault(entries@[i as int]) is None);
                    }
                }
                return Err(error);
            },
            Ok(_) => {},
        }
        i = i + 1;
    }
    Ok(())
}

/// The settings of a filter: its policy, where its database of countries
/// lies, and the size and TTL of its cache.
pub struct FilterSettings {
    pub policy: PolicySet,
    pub db_path: String,
    /// The most addresses the cache holds, at least one.
    pub cache_size: usize,
    /// The seconds for which a cached country is served, at least one.
    pub cache_ttl: u64,
}

/// Settings as contracts see them.
pub struct SettingsView {
    pub policy: PolicyView,
    pub db_path: Seq<char>,
    pub cache_size: nat,
    pub cache_ttl: nat,
}

impl View for FilterSettings {
    type V = SettingsView;

    open spec fn view(&self) -> SettingsView {
        SettingsView {
            policy: self.policy@,
            db_path: self.db_path@,
            cache_size: self.cache_size as nat,
            cache_ttl: self.cache_ttl as nat,
        }
    }
}

/// The count that a property comes to: `default` where none is given, the
/// number given where it is an integer from one up to `limit`, a refusal
/// otherwise: of a value that is no integer, of a number below one, of a
/// number over `limit`.
pub open spec fn count_setting(
    property: Option<ConfigValue>,
    default: int,
    limit: int,
    other: ConfigErrorKind,
    low: ConfigErrorKind,
    large: ConfigErrorKind,
) -> Result<int, Fault> {
    match property {
        None => Ok(default),
        Some(ConfigValue::Integer(number)) => if number < 1 {
            Err(Fault::plain(low))
        } else if number > limit {
            Err(Fault::plain(large))
        } else {
            Ok(number as int)
        },
        Some(_) => Err(Fault::plain(other)),
    }
}

/// The cache size that a property comes to: at least one, at most what a
/// `usize` holds.
pub open spec fn cache_size_setting(property: Option<ConfigValue>) -> Result<int, Fault> {
    count_setting(
        property,
        DEFAULT_CACHE_SIZE as int,
        usize::MAX as int,
        ConfigErrorKind::CacheSizeNotInteger,
        ConfigErrorKind::CacheSizeNotPositive,
        ConfigErrorKind::CacheSizeTooLarge,
    )
}

/// The TTL in seconds that a property comes to: at least one, at most what
/// a `u64` holds.
pub open spec fn cache_ttl_setting(property: Option<ConfigValue>) -> Result<int, Fault> {
    count_setting(
        property,
        DEFAULT_CACHE_TTL as int,
        u64::MAX as int,
        ConfigErrorKind::CacheTtlNotInteger,
        ConfigErrorKind::CacheTtlNotPositive,
        ConfigErrorKind::CacheTtlTooLarge,
    )
}

/// The settings that an entry comes to, or the first thing that keeps it
/// from having any: no mode given as text, a mode that is none, no
/// countries given as text, a refused list of countries, no path given as
/// text, a refused cache size, a refused TTL.
pub open spec fn entry_settings(entry: FilterEntry) -> Result<SettingsView, Fault> {
    match given_text(entry.mode) {
        None => Err(Fault::plain(ConfigErrorKind::MissingMode)),
        Some(mode_text) => match GeoIPMode::named_by(lowercase_of(mode_text)) {
            None => Err(Fault { kind: ConfigErrorKind::InvalidMode, subject: mode_text }),
            Some(mode) => match given_text(entry.countries) {
                None => Err(Fault::plain(ConfigErrorKind::MissingCountries)),
                Some(list) => match selection(piece_codes(split_commas(list))) {
                    Err(fault) => Err(fault),
                    Ok(countries) => match given_text(entry.db_path) {
                        None => Err(Fault::plain(ConfigErrorKind::MissingDbPath)),
                        Some(path) => match cache_size_setting(entry.cache_size) {
                            Err(fault) => Err(fault),
                            Ok(size) => match cache_ttl_setting(entry.cache_ttl) {
                                Err(fault) => Err(fault),
                                Ok(ttl) => Ok(
                                    SettingsView {
                                        policy: PolicyView {
                                            mode,
                                            countries,
                                            allow_unknown: given_boolean(entry.allow_unknown)
                                                == Some(true),
                                        },
                                        db_path: path,
                                        cache_size: size as nat,
                                        cache_ttl: ttl as nat,
                                    },
                                ),
                            },
                        },
                    },
                },
            },
        },
    }
}

/// The settings of a configuration with the given entry for the filter. One
/// with no entry has no mode.
pub open spec fn settings_of(entry: Option<FilterEntry>) -> Result<SettingsView, Fault> {
    match entry {
        None => Err(Fault::plain(ConfigErrorKind::MissingMode)),
        Some(entry) => entry_settings(entry),
    }
}

/// The text of a property that is given as text.
pub fn text_of(property: &Option<ConfigValue>) -> (text: Option<&str>)
    ensures
        optional_text(text) == given_text(*property),
{
    match property {
        Some(ConfigValue::Text(text)) => Some(text.as_str()),
        _ => None,
    }
}

/// Reads the cache size from its property: 10,000 where none is given. A
/// value that is no integer, a number below one and a number over what a
/// `usize` holds are refused; nothing is repaired.
pub fn cache_size(property: &Option<ConfigValue>) -> (size: Result<usize, ConfigError>)
    ensures
        match cache_size_setting(*property) {
            Ok(count) => size matches Ok(made) && made == count,
            Err(fault) => size matches Err(error) && error@ == fault,
        },
{
    match property {
        None => Ok(DEFAULT_CACHE_SIZE as usize),
        Some(ConfigValue::Integer(number)) => {
            if *number < 1 {
                Err(ConfigError::plain(ConfigErrorKind::CacheSizeNotPositive))
            } else if *number > usize::MAX as i128 {
                Err(ConfigError::plain(ConfigErrorKind::CacheSizeTooLarge))
            } else {
                Ok(*number as usize)
            }
        },
        Some(_) => Err(ConfigError::plain(ConfigErrorKind::CacheSizeNotInteger)),
    }
}

/// Reads the TTL in seconds from its property: 300 where none is given. A
/// value that is no integer, a number below one and a number over what a
/// `u64` holds are refused; nothing is repaired.
pub fn cache_ttl(property: &Option<ConfigValue>) -> (secs: Result<u64, ConfigError>)
    ensures
        match cache_ttl_setting(*property) {
            Ok(count) => secs matches Ok(made) && made == count,
            Err(fault) => secs matches Err(error) && error@ == fault,
        },
{
    match property {
        None => Ok(DEFAULT_CACHE_TTL as u64),
        Some(ConfigValue::Integer(number)) => {
            if *number < 1 {
                Err(ConfigError::plain(ConfigErrorKind::CacheTtlNotPositive))
            } else if *number > u64::MAX as i128 {
                Err(ConfigError::plain(ConfigErrorKind::CacheTtlTooLarge))
            } else {
                Ok(*number as u64)
            }
        },
        Some(_) => Err(ConfigError::plain(ConfigErrorKind::CacheTtlNotInteger)),
    }
}

/// Reads the settings of a filter from the entry that a configuration has
/// for it, if it has one.
pub fn load_settings(entry: Option<&FilterEntry>) -> (loaded: Result<FilterSettings, ConfigError>)
    ensures
        match settings_of(
            match entry {
                Some(entry) => Some(*entry),
                None => None,
            },
        ) {
            Ok(settings) => loaded matches Ok(made) && made@ == settings,
            Err(fault) => loaded matches Err(error) && error@ == fault,
        },
{
    let entry = match entry {
        Some(entry) => entry,
        None => {
            return Err(ConfigError::plain(ConfigErrorKind::MissingMode));
        },
    };
    let mode_text = match text_of(&entry.mode) {
        Some(text) => text,
        None => {
            return Err(ConfigError::plain(ConfigErrorKind::MissingMode));
        },
    };
    let mode = match GeoIPMode::from_str(mode_text) {
        Ok(mode) => mode,
        Err(error) => {
            return Err(error);
        },
    };
    let list = match text_of(&entry.countries) {
        Some(text) => text,
        None => {
            return Err(ConfigError::plain(ConfigErrorKind::MissingCountries));
        },
    };
    let allow_unknown = match &entry.allow_unknown {
        Some(ConfigValue::Boolean(flag)) => *flag,
        _ => false,
    };
    let policy = match PolicySet::from_list(mode, list, allow_unknown) {
        Ok(policy) => policy,
        Err(error) => {
            return Err(error);
        },
    };
    let db_path = match text_of(&entry.db_path) {
        Some(text) => text.to_owned(),
        None => {
            return Err(ConfigError::plain(ConfigErrorKind::MissingDbPath));
        },
    };
    let cache_size = match cache_size(&entry.cache_size) {
        Ok(size) => size,
        Err(error) => {
            return Err(error);
        },
    };
    let cache_ttl = match cache_ttl(&entry.cache_ttl) {
        Ok(secs) => secs,
        Err(error) => {
            return Err(error);
        },
    };
    Ok(FilterSettings { policy, db_path, cache_size, cache_ttl })
}

/// An entry that passed the checks has settings, with the counts it gives,
/// unless a count is more than its width holds; and the refusal is then
/// that of the count.
pub proof fn law_checked_entry_loads(entry: FilterEntry)
    requires
        entry_fault(entry) is None,
    ensures
        match cache_size_setting(entry.cache_size) {
            Err(fault) => fault == Fault::plain(ConfigErrorKind::CacheSizeTooLarge) && settings_of(
                Some(entry),
            ) == Err::<SettingsView, Fault>(fault),
            Ok(size) => match cache_ttl_setting(entry.cache_ttl) {
                Err(fault) => fault == Fault::plain(ConfigErrorKind::CacheTtlTooLarge)
                    && settings_of(Some(entry)) == Err::<SettingsView, Fault>(fault),
                Ok(ttl) => settings_of(Some(entry)) is Ok && settings_of(
                    Some(entry),
                )->Ok_0.cache_size == size && settings_of(Some(entry))->Ok_0.cache_ttl == ttl,
            },
        },
{
}

/// Settings are had only from an entry whose mode, countries, path and
/// counts are in order: the counts, where given, are integers of at least
/// one, and the settings hold them as they are.
pub proof fn law_settings_hold_given_counts(entry: FilterEntry)
    requires
        settings_of(Some(entry)) is Ok,
    ensures
        count_fault(
            entry.cache_size,
            ConfigErrorKind::CacheSizeNotPositive,
            ConfigErrorKind::CacheSizeNotInteger,
        ) is None,
        count_fault(
            entry.cache_ttl,
            ConfigErrorKind::CacheTtlNotPositive,
            ConfigErrorKind::CacheTtlNotInteger,
        ) is None,
        countries_fault(entry.countries) is None,
        settings_of(Some(entry))->Ok_0.cache_size >= 1,
        settings_of(Some(entry))->Ok_0.cache_ttl >= 1,
        given_integer(entry.cache_size) matches Some(number) ==> settings_of(
            Some(entry),
        )->Ok_0.cache_size == number,
        given_integer(entry.cache_ttl) matches Some(number) ==> settings_of(
            Some(entry),
        )->Ok_0.cache_ttl == number,
{
}

} // verus!
