//! Country codes: the normal form of what a resolver returns, and the codes
//! that a policy may list.

use crate::error::{ConfigError, ConfigErrorKind, Fault};
use crate::text::{
    ascii_uppercase_of, optional_text, split_at_commas, split_commas, texts, to_ascii_uppercase,
    to_uppercase, trim, trimmed, uppercase_of,
};
use vstd::prelude::*;

verus! {

/// Whether the character is one of the letters `A` to `Z`.
pub open spec fn is_capital(c: char) -> bool {
    'A' <= c && c <= 'Z'
}

/// Whether the text is a country code in normal form: two letters `A` to `Z`.
pub open spec fn is_country_code(code: Seq<char>) -> bool {
    code.len() == 2 && is_capital(code[0]) && is_capital(code[1])
}

/// Tells whether `code` is a country code in normal form.
pub fn check_country_code(code: &str) -> (valid: bool)
    ensures
        valid == is_country_code(code@),
{
    if code.unicode_len() != 2 {
        return false;
    }
    let first = code.get_char(0);
    let second = code.get_char(1);
    'A' <= first && first <= 'Z' && 'A' <= second && second <= 'Z'
}

/// The normal form of a resolver's answer: its text in ASCII uppercase,
/// whatever its length, or no country where the resolver gave none.
pub open spec fn normal_country(raw: Option<Seq<char>>) -> Option<Seq<char>> {
    match raw {
        Some(code) => Some(ascii_uppercase_of(code)),
        None => None,
    }
}

/// A country as contracts see it.
pub open spec fn country_text(country: Option<String>) -> Option<Seq<char>> {
    match country {
        Some(code) => Some(code@),
        None => None,
    }
}

/// Brings a resolver's answer to its normal form.
pub fn normalize_country(raw: Option<&str>) -> (country: Option<String>)
    ensures
        country_text(country) == normal_country(optional_text(raw)),
{
    match raw {
        Some(code) => Some(to_ascii_uppercase(code)),
        None => None,
    }
}

/// Whether the character is one of the letters `a` to `z`.
pub open spec fn is_small(c: char) -> bool {
    'a' <= c && c <= 'z'
}

/// The normal form has no letter `a` to `z`, and is its own normal form.
pub proof fn law_normal_form_is_stable(raw: Seq<char>)
    ensures
        forall|i: int|
            0 <= i < raw.len() ==> !is_small(#[trigger] ascii_uppercase_of(raw)[i]),
        ascii_uppercase_of(ascii_uppercase_of(raw)) == ascii_uppercase_of(raw),
        normal_country(normal_country(Some(raw))) == normal_country(Some(raw)),
{
    assert(ascii_uppercase_of(ascii_uppercase_of(raw)) =~= ascii_uppercase_of(raw));
}

/// A resolver's answer of two ASCII letters, in either case, has a country
/// code as its normal form; and a country code is its own normal form.
pub proof fn law_two_letters_become_a_code(raw: Seq<char>)
    requires
        raw.len() == 2,
        is_small(raw[0]) || is_capital(raw[0]),
        is_small(raw[1]) || is_capital(raw[1]),
    ensures
        is_country_code(ascii_uppercase_of(raw)),
        is_country_code(raw) ==> ascii_uppercase_of(raw) == raw,
{
    if is_country_code(raw) {
        assert(ascii_uppercase_of(raw) =~= raw);
    }
}

/// The code that one piece of a list of countries stands for: the piece
/// without the whitespace around it, in uppercase.
pub open spec fn piece_code(piece: Seq<char>) -> Seq<char> {
    uppercase_of(trimmed(piece))
}

/// The codes that the pieces of a list stand for, piece by piece.
pub open spec fn piece_codes(pieces: Seq<Seq<char>>) -> Seq<Seq<char>> {
    Seq::new(pieces.len(), |i: int| piece_code(pieces[i]))
}

/// Whether a code is refused: it is not empty and not a country code.
pub open spec fn is_refused(code: Seq<char>) -> bool {
    code.len() > 0 && !is_country_code(code)
}

/// Whether place `i` holds the first refused code.
pub open spec fn first_refused_at(codes: Seq<Seq<char>>, i: int) -> bool {
    &&& 0 <= i < codes.len()
    &&& is_refused(codes[i])
    &&& forall|j: int| 0 <= j < i ==> !is_refused(#[trigger] codes[j])
}

/// Whether some code is refused.
pub open spec fn any_refused(codes: Seq<Seq<char>>) -> bool {
    exists|i: int| 0 <= i < codes.len() && is_refused(#[trigger] codes[i])
}

/// The countries that the codes name: those that are not empty.
pub open spec fn named_countries(codes: Seq<Seq<char>>) -> Set<Seq<char>> {
    Set::new(
        |code: Seq<char>|
            code.len() > 0 && exists|i: int| 0 <= i < codes.len() && #[trigger] codes[i] == code,
    )
}

/// Whether some code is not empty.
pub open spec fn names_any(codes: Seq<Seq<char>>) -> bool {
    exists|i: int| 0 <= i < codes.len() && (#[trigger] codes[i]).len() > 0
}

/// The place of the first refused code.
pub open spec fn first_refused(codes: Seq<Seq<char>>) -> int {
    choose|i: int| first_refused_at(codes, i)
}

/// What a list of codes comes to: the set of countries it names, or the
/// refusal of its first refused code, or the refusal of a list that names
/// no country.
pub open spec fn selection(codes: Seq<Seq<char>>) -> Result<Set<Seq<char>>, Fault> {
    if any_refused(codes) {
        Err(Fault { kind: ConfigErrorKind::InvalidCountryCode, subject: codes[first_refused(codes)] })
    } else if !names_any(codes) {
        Err(Fault::plain(ConfigErrorKind::EmptyCountries))
    } else {
        Ok(named_countries(codes))
    }
}

/// The first refused code stands at one place only.
pub proof fn lemma_first_refused_is_unique(codes: Seq<Seq<char>>, i: int)
    requires
        first_refused_at(codes, i),
    ensures
        any_refused(codes),
        first_refused(codes) == i,
{
    let k = first_refused(codes);
    if k < i {
        assert(!is_refused(codes[k]));
    } else if i < k {
        assert(!is_refused(codes[i]));
    }
}

/// The codes without a refused one, empty ones passed over, each once.
pub fn select_countries(codes: &Vec<String>) -> (selected: Result<Vec<String>, ConfigError>)
    ensures
        match selection(texts(codes@)) {
            Ok(named) => selected matches Ok(countries) && {
                &&& texts(countries@).to_set() == named
                &&& texts(countries@).no_duplicates()
                &&& countries@.len() > 0
                &&& forall|i: int|
                    0 <= i < countries@.len() ==> is_country_code(#[trigger] countries@[i]@)
            },
            Err(fault) => selected matches Err(error) && error@ == fault,
        },
{
    let mut countries: Vec<String> = Vec::new();
    let mut i: usize = 0;
    let ghost all = texts(codes@);
    while i < codes.len()
        invariant
            i <= codes.len(),
            all == texts(codes@),
            forall|j: int| 0 <= j < i ==> !is_refused(#[trigger] all[j]),
            texts(countries@).no_duplicates(),
            forall|j: int| 0 <= j < countries@.len() ==> is_country_code(#[trigger] countries@[j]@),
            forall|code: Seq<char>|
                texts(countries@).contains(code) <==> code.len() > 0 && exists|j: int|
                    0 <= j < i && #[trigger] all[j] == code,
        decreases codes.len() - i,
    {
        let code = &codes[i];
        assert(all[i as int] == code@);
        if code.as_str().unicode_len() > 0 {
            if !check_country_code(code.as_str()) {
                proof {
                    lemma_first_refused_is_unique(all, i as int);
                }
                return Err(ConfigError::about(ConfigErrorKind::InvalidCountryCode, code.as_str()));
            }
            let ghost before = texts(countries@);
            if !holds_text(&countries, code.as_str()) {
                countries.push(code.clone());
                assert(texts(countries@) =~= before.push(code@));
                assert forall|known: Seq<char>| texts(countries@).contains(known) implies known.len()
                    > 0 && exists|j: int| 0 <= j < i + 1 && #[trigger] all[j] == known by {
                    let at = choose|at: int|
                        0 <= at < texts(countries@).len() && texts(countries@)[at] == known;
                    if at < before.len() {
                        assert(before.contains(known));
                    }
                }
                assert forall|known: Seq<char>|
                    known.len() > 0 && (exists|j: int|
                        0 <= j < i + 1 && #[trigger] all[j] == known) implies texts(
                    countries@,
                ).contains(known) by {
                    let j = choose|j: int| 0 <= j < i + 1 && #[trigger] all[j] == known;
                    if j < i {
                        assert(before.contains(known));
                        let at = choose|at: int| 0 <= at < before.len() && before[at] == known;
                        assert(texts(countries@)[at] == known);
                    } else {
                        assert(texts(countries@)[before.len() as int] == known);
                    }
                }
            }
        }
        i = i + 1;
    }
    if countries.len() == 0 {
        assert(!names_any(all)) by {
            if names_any(all) {
                let j = choose|j: int| 0 <= j < all.len() && (#[trigger] all[j]).len() > 0;
                assert(texts(countries@).contains(all[j]));
            }
        }
        return Err(ConfigError::plain(ConfigErrorKind::EmptyCountries));
    }
    assert(names_any(all)) by {
        assert(texts(countries@).contains(texts(countries@)[0]));
    }
    Ok(countries)
}

/// Tells whether one of the strings has the text.
pub fn holds_text(strings: &Vec<String>, text: &str) -> (found: bool)
    ensures
        found == texts(strings@).contains(text@),
{
    let wanted = text.to_owned();
    let mut i: usize = 0;
    while i < strings.len()
        invariant
            i <= strings.len(),
            wanted@ == text@,
            forall|j: int| 0 <= j < i ==> (#[trigger] texts(strings@)[j]) != text@,
        decreases strings.len() - i,
    {
        if strings[i] == wanted {
            assert(texts(strings@)[i as int] == text@);
            return true;
        }
        i = i + 1;
    }
    false
}

/// Reads a list of countries: the pieces between the commas, each without
/// the whitespace around it and in uppercase; empty pieces count for
/// nothing. The list is refused where a piece is not a code of two letters,
/// and where it names no country.
pub fn parse_countries(list: &str) -> (parsed: Result<Vec<String>, ConfigError>)
    ensures
        match selection(piece_codes(split_commas(list@))) {
            Ok(named) => parsed matches Ok(countries) && {
                &&& texts(countries@).to_set() == named
                &&& texts(countries@).no_duplicates()
                &&& countries@.len() > 0
                &&& forall|i: int|
                    0 <= i < countries@.len() ==> is_country_code(#[trigger] countries@[i]@)
            },
            Err(fault) => parsed matches Err(error) && error@ == fault,
        },
{
    let pieces = split_at_commas(list);
    let mut codes: Vec<String> = Vec::new();
    let mut i: usize = 0;
    while i < pieces.len()
        invariant
            i <= pieces.len(),
            texts(pieces@) == split_commas(list@),
            codes@.len() == i,
            forall|j: int| 0 <= j < i ==> (#[trigger] codes@[j])@ == piece_code(pieces@[j]@),
        decreases pieces.len() - i,
    {
        let code = to_uppercase(trim(pieces[i].as_str()));
        codes.push(code);
        i = i + 1;
    }
    assert(texts(codes@) =~= piece_codes(split_commas(list@))) by {
        assert forall|j: int| 0 <= j < codes@.len() implies texts(codes@)[j] == piece_codes(
            split_commas(list@),
        )[j] by {
            assert(texts(pieces@)[j] == pieces@[j]@);
        }
    }
    select_countries(&codes)
}

} // verus!
