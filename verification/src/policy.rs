//! The policy: which resolved countries are turned away.

use crate::country::{
    holds_text, is_country_code, parse_countries, piece_codes, select_countries, selection,
};
use crate::error::ConfigError;
use crate::mode::GeoIPMode;
use crate::text::{optional_text, split_commas, texts};
use vstd::prelude::*;
use vstd::string::StringExecFns;

verus! {

/// A policy as contracts see it.
pub struct PolicyView {
    pub mode: GeoIPMode,
    pub countries: Set<Seq<char>>,
    pub allow_unknown: bool,
}

impl PolicyView {
    /// Whether a request whose origin resolved to `country` is turned away.
    /// A resolved country is turned away under a whitelist where the set
    /// lacks it and under a blacklist where the set has it; an unresolved
    /// one wherever unknown origins are not allowed.
    pub open spec fn blocks(self, country: Option<Seq<char>>) -> bool {
        match country {
            Some(code) => match self.mode {
                GeoIPMode::Whitelist => !self.countries.contains(code),
                GeoIPMode::Blacklist => self.countries.contains(code),
            },
            None => !self.allow_unknown,
        }
    }

    /// The words of the record that is kept of a request turned away: the
    /// origin, its country or `Unknown`, the mode, and whether unknown
    /// origins are allowed.
    pub open spec fn block_message(self, origin: Seq<char>, country: Option<Seq<char>>) -> Seq<
        char,
    > {
        "GeoIP blocked request from IP "@ + origin + " (Country: "@ + (match country {
            Some(code) => code,
            None => "Unknown"@,
        }) + ", Mode: "@ + self.mode.name_text() + ", AllowUnknown: "@ + (if self.allow_unknown {
            "true"@
        } else {
            "false"@
        }) + ")"@
    }
}

/// A set of countries read as a whitelist or as a blacklist, with a rule
/// for origins whose country is unknown. It lists at least one country,
/// every country it lists is a code of two letters `A` to `Z`, and none is
/// listed twice: the countries are held in a vector that is kept a set.
pub struct PolicySet {
    mode: GeoIPMode,
    countries: Vec<String>,
    allow_unknown: bool,
}

impl View for PolicySet {
    type V = PolicyView;

    closed spec fn view(&self) -> PolicyView {
        PolicyView {
            mode: self.mode,
            countries: texts(self.countries@).to_set(),
            allow_unknown: self.allow_unknown,
        }
    }
}

impl PolicySet {
    #[verifier::type_invariant]
    spec fn listed(&self) -> bool {
        &&& self.countries@.len() > 0
        &&& texts(self.countries@).no_duplicates()
        &&& forall|i: int|
            0 <= i < self.countries@.len() ==> is_country_code(#[trigger] self.countries@[i]@)
    }

    /// A policy over the countries that `codes` name. Empty codes count for
    /// nothing; a code that is neither empty nor two letters `A` to `Z` is
    /// refused, and so is a list that names no country.
    pub fn new(mode: GeoIPMode, codes: Vec<String>, allow_unknown: bool) -> (made: Result<
        PolicySet,
        ConfigError,
    >)
        ensures
            match selection(texts(codes@)) {
                Ok(countries) => made matches Ok(policy) && policy@ == (PolicyView {
                    mode,
                    countries,
                    allow_unknown,
                }),
                Err(fault) => made matches Err(error) && error@ == fault,
            },
    {
        match select_countries(&codes) {
            Ok(countries) => Ok(PolicySet { mode, countries, allow_unknown }),
            Err(error) => Err(error),
        }
    }

    /// A policy over the countries of a list with commas between them, as a
    /// configuration gives it: each piece without the whitespace around it
    /// and in uppercase.
    pub fn from_list(mode: GeoIPMode, list: &str, allow_unknown: bool) -> (made: Result<
        PolicySet,
        ConfigError,
    >)
        ensures
            match selection(piece_codes(split_commas(list@))) {
                Ok(countries) => made matches Ok(policy) && policy@ == (PolicyView {
                    mode,
                    countries,
                    allow_unknown,
                }),
                Err(fault) => made matches Err(error) && error@ == fault,
            },
    {
        match parse_countries(list) {
            Ok(countries) => Ok(PolicySet { mode, countries, allow_unknown }),
            Err(error) => Err(error),
        }
    }

    /// Decides whether a request whose origin resolved to `country` is
    /// turned away.
    pub fn should_block(&self, country: Option<&str>) -> (blocked: bool)
        ensures
            blocked == self@.blocks(optional_text(country)),
            country matches Some(code) && self@.countries.contains(code@) ==> (blocked
                <==> self@.mode == GeoIPMode::Blacklist),
            country matches Some(code) && !self@.countries.contains(code@) ==> (blocked
                <==> self@.mode == GeoIPMode::Whitelist),
            country is None ==> (blocked <==> !self@.allow_unknown),
    {
        match country {
            Some(code) => {
                let listed = holds_text(&self.countries, code);
                match self.mode {
                    GeoIPMode::Whitelist => !listed,
                    GeoIPMode::Blacklist => listed,
                }
            },
            None => !self.allow_unknown,
        }
    }

    /// The mode of the policy.
    pub fn mode(&self) -> (mode: GeoIPMode)
        ensures
            mode == self@.mode,
    {
        self.mode
    }

    /// Whether origins of unknown country are let through.
    pub fn allow_unknown(&self) -> (allowed: bool)
        ensures
            allowed == self@.allow_unknown,
    {
        self.allow_unknown
    }

    /// The countries of the policy, each once: at least one, all of them
    /// codes of two letters.
    pub fn countries(&self) -> (countries: &Vec<String>)
        ensures
            countries@.len() > 0,
            texts(countries@).no_duplicates(),
            texts(countries@).to_set() == self@.countries,
            forall|i: int| 0 <= i < countries@.len() ==> is_country_code(#[trigger] countries@[i]@),
    {
        proof {
            use_type_invariant(self);
        }
        &self.countries
    }

    /// The words of the record kept of a request from `origin` that the
    /// policy turned away.
    pub fn block_message(&self, origin: &str, country: Option<&str>) -> (message: String)
        ensures
            message@ == self@.block_message(origin@, optional_text(country)),
    {
        let mut message = "GeoIP blocked request from IP ".to_owned();
        message.append(origin);
        message.append(" (Country: ");
        match country {
            Some(code) => message.append(code),
            None => message.append("Unknown"),
        }
        message.append(", Mode: ");
        message.append(self.mode.name());
        message.append(", AllowUnknown: ");
        if self.allow_unknown {
            message.append("true");
        } else {
            message.append("false");
        }
        message.append(")");
        message
    }
}

} // verus!
