//! The two ways a policy reads its set of countries.

use crate::error::{ConfigError, ConfigErrorKind, Fault};
use crate::text::{lowercase_of, same_text, to_lowercase};
use vstd::prelude::*;

verus! {

/// How the set of countries is read: as the only ones let through, or as the
/// ones turned away.
#[derive(Clone, Copy, Debug, PartialEq, Eq, Structural)]
pub enum GeoIPMode {
    Whitelist,
    Blacklist,
}

impl GeoIPMode {
    /// The mode that a lowercase text names, if it names one.
    pub open spec fn named_by(lower: Seq<char>) -> Option<GeoIPMode> {
        if lower == "whitelist"@ {
            Some(GeoIPMode::Whitelist)
        } else if lower == "blacklist"@ {
            Some(GeoIPMode::Blacklist)
        } else {
            None
        }
    }

    /// The mode that the text names as it stands, letter for letter.
    pub fn from_lowercase(lower: &str) -> (mode: Option<GeoIPMode>)
        ensures
            mode == Self::named_by(lower@),
    {
        if same_text(lower, "whitelist") {
            Some(GeoIPMode::Whitelist)
        } else if same_text(lower, "blacklist") {
            Some(GeoIPMode::Blacklist)
        } else {
            None
        }
    }

    /// Reads a mode from text, in any mix of upper and lower case. A text
    /// that names no mode is refused, and the refusal carries the text.
    pub fn from_str(s: &str) -> (mode: Result<GeoIPMode, ConfigError>)
        ensures
            match Self::named_by(lowercase_of(s@)) {
                Some(named) => mode == Ok::<GeoIPMode, ConfigError>(named),
                None => mode matches Err(error) && error@ == (Fault {
                    kind: ConfigErrorKind::InvalidMode,
                    subject: s@,
                }),
            },
    {
        let lower = to_lowercase(s);
        match Self::from_lowercase(lower.as_str()) {
            Some(named) => Ok(named),
            None => Err(ConfigError::about(ConfigErrorKind::InvalidMode, s)),
        }
    }

    /// The name of the mode as records show it.
    pub fn name(&self) -> (name: &'static str)
        ensures
            name@ == self.name_text(),
    {
        match self {
            GeoIPMode::Whitelist => "Whitelist",
            GeoIPMode::Blacklist => "Blacklist",
        }
    }

    /// The name of the mode as records show it.
    pub open spec fn name_text(&self) -> Seq<char> {
        match self {
            GeoIPMode::Whitelist => "Whitelist"@,
            GeoIPMode::Blacklist => "Blacklist"@,
        }
    }
}

} // verus!
