use geoip_filter::country::{
    check_country_code, holds_text, normalize_country, parse_countries, select_countries,
};
use geoip_filter::error::ConfigErrorKind;
use geoip_filter::text::{same_text, split_at_commas};

fn strings(list: &[&str]) -> Vec<String> {
    list.iter().map(|item| item.to_string()).collect()
}

#[test]
fn country_code_is_two_capital_letters() {
    assert!(check_country_code("US"));
    assert!(check_country_code("AZ"));
    assert!(check_country_code("ZA"));
    for bad in ["", "U", "USA", "us", "Us", "uS", "U1", "1U", "@A", "A[", "ÄB", "U ", " US"] {
        assert!(!check_country_code(bad), "{:?}", bad);
    }
}

#[test]
fn resolver_answer_is_uppercased_as_ascii() {
    assert_eq!(normalize_country(Some("us")), Some("US".to_string()));
    assert_eq!(normalize_country(Some("De")), Some("DE".to_string()));
    assert_eq!(normalize_country(Some("FR")), Some("FR".to_string()));
    assert_eq!(normalize_country(None), None);
}

#[test]
fn resolver_answer_keeps_what_is_no_ascii_letter() {
    assert_eq!(normalize_country(Some("")), Some(String::new()));
    assert_eq!(normalize_country(Some("x-1 é")), Some("X-1 é".to_string()));
    assert_eq!(normalize_country(Some("az{`")), Some("AZ{`".to_string()));
    assert_eq!(normalize_country(Some("usa")), Some("USA".to_string()));
}

#[test]
fn text_is_split_at_each_comma() {
    assert_eq!(split_at_commas(""), strings(&[""]));
    assert_eq!(split_at_commas("US"), strings(&["US"]));
    assert_eq!(split_at_commas("US,CA"), strings(&["US", "CA"]));
    assert_eq!(split_at_commas(",US,,CA,"), strings(&["", "US", "", "CA", ""]));
    assert_eq!(split_at_commas(" a , é,"), strings(&[" a ", " é", ""]));
    assert_eq!(split_at_commas(","), strings(&["", ""]));
}

#[test]
fn split_agrees_with_the_standard_library() {
    for text in ["", ",", "a", "a,b", ",,", "ab,,c,", "日本,語", " , "] {
        let expected: Vec<String> = text.split(',').map(|piece| piece.to_string()).collect();
        assert_eq!(split_at_commas(text), expected);
    }
}

#[test]
fn texts_are_compared_letter_for_letter() {
    assert!(same_text("", ""));
    assert!(same_text("US", "US"));
    assert!(!same_text("US", "us"));
    assert!(!same_text("US", "US "));
    assert!(holds_text(&strings(&["US", "CA"]), "CA"));
    assert!(!holds_text(&strings(&["US", "CA"]), "ca"));
    assert!(!holds_text(&Vec::new(), ""));
}

#[test]
fn codes_are_selected_once_each_in_order() {
    assert_eq!(
        select_countries(&strings(&["US", "", "CA", "US", ""])).unwrap(),
        strings(&["US", "CA"])
    );
    let error = select_countries(&strings(&["US", "ca", "x"])).unwrap_err();
    assert_eq!(error.kind, ConfigErrorKind::InvalidCountryCode);
    assert_eq!(error.subject, "ca");
    let error = select_countries(&strings(&[""])).unwrap_err();
    assert_eq!(error.kind, ConfigErrorKind::EmptyCountries);
}

#[test]
fn list_pieces_are_trimmed_and_uppercased() {
    assert_eq!(parse_countries("us").unwrap(), strings(&["US"]));
    assert_eq!(parse_countries(" us ,\tCa\n, de").unwrap(), strings(&["US", "CA", "DE"]));
    assert_eq!(parse_countries("us,US, us").unwrap(), strings(&["US"]));
    assert_eq!(parse_countries(",,gb,,").unwrap(), strings(&["GB"]));
    let error = parse_countries("us, u s").unwrap_err();
    assert_eq!(error.kind, ConfigErrorKind::InvalidCountryCode);
    assert_eq!(error.subject, "U S");
    let error = parse_countries(" ,").unwrap_err();
    assert_eq!(error.kind, ConfigErrorKind::EmptyCountries);
}

#[test]
fn list_pieces_follow_the_rules_of_unicode() {
    // a no-break space and an ideographic space are whitespace
    assert_eq!(parse_countries("\u{a0}us\u{3000},ca").unwrap(), strings(&["US", "CA"]));
    // the ligature of f and i has the uppercase form `FI`
    assert_eq!(parse_countries("\u{fb01}").unwrap(), strings(&["FI"]));
    // a letter outside of ASCII stays one
    let error = parse_countries("é,us").unwrap_err();
    assert_eq!(error.kind, ConfigErrorKind::InvalidCountryCode);
    assert_eq!(error.subject, "É");
}
