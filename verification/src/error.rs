//! The ways a configuration is refused.

use vstd::prelude::*;
use vstd::string::StringExecFns;

verus! {

/// Why a configuration is refused.
#[derive(Clone, Copy, Debug, PartialEq, Eq, Structural)]
pub enum ConfigErrorKind {
    /// The filter has no `mode` given as text.
    MissingMode,
    /// The `mode` is neither `whitelist` nor `blacklist`.
    InvalidMode,
    /// The filter has no `countries` given as text.
    MissingCountries,
    /// The `countries` name no country.
    EmptyCountries,
    /// One of the `countries` is not a code of two letters.
    InvalidCountryCode,
    /// The filter has no `db_path` given as text.
    MissingDbPath,
    /// The filter's own value is not one boolean.
    NotSingleBoolean,
    /// The `mode` is not text.
    ModeNotString,
    /// The `mode` is absent.
    ModeRequired,
    /// The `countries` are not text.
    CountriesNotString,
    /// The `countries` are absent.
    CountriesRequired,
    /// `allow_unknown` is not a boolean.
    AllowUnknownNotBoolean,
    /// The `db_path` is not text.
    DbPathNotString,
    /// The `db_path` is absent.
    DbPathRequired,
    /// The `cache_size` is below one.
    CacheSizeNotPositive,
    /// The `cache_size` is not an integer.
    CacheSizeNotInteger,
    /// The `cache_ttl` is below one.
    CacheTtlNotPositive,
    /// The `cache_ttl` is not an integer.
    CacheTtlNotInteger,
    /// The `cache_size` is more than a `usize` holds.
    CacheSizeTooLarge,
    /// The `cache_ttl` is more than a `u64` holds.
    CacheTtlTooLarge,
}

/// A refusal as contracts see it: the reason, and the text at fault where
/// the reason is about one (the mode, a country code), empty otherwise.
pub struct Fault {
    pub kind: ConfigErrorKind,
    pub subject: Seq<char>,
}

/// A refusal of a configuration.
#[derive(Debug)]
pub struct ConfigError {
    pub kind: ConfigErrorKind,
    pub subject: String,
}

impl View for ConfigError {
    type V = Fault;

    open spec fn view(&self) -> Fault {
        Fault { kind: self.kind, subject: self.subject@ }
    }
}

impl Fault {
    /// A refusal that is about no text.
    pub open spec fn plain(kind: ConfigErrorKind) -> Fault {
        Fault { kind, subject: Seq::empty() }
    }

    /// The words that report the refusal.
    pub open spec fn message(self) -> Seq<char> {
        match self.kind {
            ConfigErrorKind::MissingMode => "Missing geoip_filter mode configuration"@,
            ConfigErrorKind::InvalidMode => "Invalid GeoIP mode: "@ + self.subject
                + ". Valid modes are: whitelist, blacklist"@,
            ConfigErrorKind::MissingCountries => "Missing geoip_filter countries configuration"@,
            ConfigErrorKind::EmptyCountries => "geoip_filter countries must contain at least one country code"@,
            ConfigErrorKind::InvalidCountryCode => "Invalid geoip_filter country code: "@
                + self.subject + ". Country codes have two letters"@,
            ConfigErrorKind::MissingDbPath => "Missing geoip_filter db_path configuration"@,
            ConfigErrorKind::NotSingleBoolean => "The `geoip_filter` configuration property must have exactly one boolean value"@,
            ConfigErrorKind::ModeNotString => "The `mode` property must be a string"@,
            ConfigErrorKind::ModeRequired => "The `mode` property is required in geoip_filter configuration"@,
            ConfigErrorKind::CountriesNotString => "The `countries` property must be a string"@,
            ConfigErrorKind::CountriesRequired => "The `countries` property is required in geoip_filter configuration"@,
            ConfigErrorKind::AllowUnknownNotBoolean => "The `allow_unknown` property must be a boolean"@,
            ConfigErrorKind::DbPathNotString => "The `db_path` property must be a string"@,
            ConfigErrorKind::DbPathRequired => "The `db_path` property is required in geoip_filter configuration"@,
            ConfigErrorKind::CacheSizeNotPositive => "`cache_size` must be a positive integer (>= 1)"@,
            ConfigErrorKind::CacheSizeNotInteger => "`cache_size` must be an integer"@,
            ConfigErrorKind::CacheTtlNotPositive => "`cache_ttl` must be a positive integer (>= 1, seconds)"@,
            ConfigErrorKind::CacheTtlNotInteger => "`cache_ttl` must be an integer (seconds)"@,
            ConfigErrorKind::CacheSizeTooLarge => "`cache_size` is too large"@,
            ConfigErrorKind::CacheTtlTooLarge => "`cache_ttl` is too large (seconds)"@,
        }
    }
}

impl ConfigError {
    /// A refusal that is about no text.
    pub fn plain(kind: ConfigErrorKind) -> (error: ConfigError)
        ensures
            error@ == Fault::plain(kind),
    {
        ConfigError { kind, subject: String::new() }
    }

    /// A refusal for the reason `kind` with `subject` as the text at fault.
    pub fn about(kind: ConfigErrorKind, subject: &str) -> (error: ConfigError)
        ensures
            error@ == (Fault { kind, subject: subject@ }),
    {
        ConfigError { kind, subject: subject.to_owned() }
    }

    /// The words that report the refusal.
    pub fn message(&self) -> (text: String)
        ensures
            text@ == self@.message(),
    {
        match self.kind {
            ConfigErrorKind::MissingMode => "Missing geoip_filter mode configuration".to_owned(),
            ConfigErrorKind::InvalidMode => {
                let mut text = "Invalid GeoIP mode: ".to_owned();
                text.append(self.subject.as_str());
                text.append(". Valid modes are: whitelist, blacklist");
                text
            },
            ConfigErrorKind::MissingCountries => "Missing geoip_filter countries configuration".to_owned(),
            ConfigErrorKind::EmptyCountries => "geoip_filter countries must contain at least one country code".to_owned(),
            ConfigErrorKind::InvalidCountryCode => {
                let mut text = "Invalid geoip_filter country code: ".to_owned();
                text.append(self.subject.as_str());
                text.append(". Country codes have two letters");
                text
            },
            ConfigErrorKind::MissingDbPath => "Missing geoip_filter db_path configuration".to_owned(),
            ConfigErrorKind::NotSingleBoolean => "The `geoip_filter` configuration property must have exactly one boolean value".to_owned(),
            ConfigErrorKind::ModeNotString => "The `mode` property must be a string".to_owned(),
            ConfigErrorKind::ModeRequired => "The `mode` property is required in geoip_filter configuration".to_owned(),
            ConfigErrorKind::CountriesNotString => "The `countries` property must be a string".to_owned(),
            ConfigErrorKind::CountriesRequired => "The `countries` property is required in geoip_filter configuration".to_owned(),
            ConfigErrorKind::AllowUnknownNotBoolean => "The `allow_unknown` property must be a boolean".to_owned(),
            ConfigErrorKind::DbPathNotString => "The `db_path` property must be a string".to_owned(),
            ConfigErrorKind::DbPathRequired => "The `db_path` property is required in geoip_filter configuration".to_owned(),
            ConfigErrorKind::CacheSizeNotPositive => "`cache_size` must be a positive integer (>= 1)".to_owned(),
            ConfigErrorKind::CacheSizeNotInteger => "`cache_size` must be an integer".to_owned(),
            ConfigErrorKind::CacheTtlNotPositive => "`cache_ttl` must be a positive integer (>= 1, seconds)".to_owned(),
            ConfigErrorKind::CacheTtlNotInteger => "`cache_ttl` must be an integer (seconds)".to_owned(),
            ConfigErrorKind::CacheSizeTooLarge => "`cache_size` is too large".to_owned(),
            ConfigErrorKind::CacheTtlTooLarge => "`cache_ttl` is too large (seconds)".to_owned(),
        }
    }
}

} // verus!
