//! Tests of the field codec: encoding order, round trips, bracket
//! stripping, strictness about unknown titles, and the first-missing-field
//! order of decode errors.

use oss_bot::codec::{decode, encode, DecodeError, Field};
use oss_bot::record::Record;

fn field(title: &str, value: &str) -> Field {
    Field { title: Some(title.to_string()), value: Some(value.to_string()) }
}

fn sample_record() -> Record {
    Record {
        username: "alice".to_string(),
        hours: 5,
        country: "Germany".to_string(),
        url: "https://example.com/".to_string(),
        description: "fixed a bug".to_string(),
    }
}

fn complete_fields() -> Vec<Field> {
    vec![
        field("Author", "alice"),
        field("Time", "5"),
        field("Office", "Germany"),
        field("URL", "https://example.com/"),
        field("Description", "fixed a bug"),
    ]
}

#[test]
fn encode_emits_five_titles_in_fixed_order() {
    let fields = encode(&sample_record());
    let titles: Vec<&str> = fields.iter().map(|f| f.title.as_deref().unwrap()).collect();
    assert_eq!(titles, vec!["Author", "Time", "Office", "URL", "Description"]);
    assert_eq!(fields[1].value.as_deref(), Some("5"));
    assert_eq!(fields[3].value.as_deref(), Some("https://example.com/"));
}

#[test]
fn decode_of_encode_returns_the_record() {
    let record = sample_record();
    let decoded = decode(&encode(&record)).unwrap();
    assert_eq!(decoded, record);
}

#[test]
fn decode_of_encode_with_negative_hours() {
    let record = Record { hours: -12, ..sample_record() };
    let decoded = decode(&encode(&record)).unwrap();
    assert_eq!(decoded, record);
}

#[test]
fn round_trip_holds_on_canonical_url() {
    assert!(oss_bot::codec::round_trip_holds(&sample_record()));
}

#[test]
fn round_trip_holds_rejects_non_canonical_url() {
    let record = Record { url: "https://example.com".to_string(), ..sample_record() };
    assert!(!oss_bot::codec::round_trip_holds(&record));
}

#[test]
fn decode_strips_bracketed_url() {
    let mut fields = complete_fields();
    fields[3] = field("URL", "<https://example.com>");
    let decoded = decode(&fields).unwrap();
    assert_eq!(decoded.url, "https://example.com/");
}

#[test]
fn decode_canonicalizes_url() {
    let mut fields = complete_fields();
    fields[3] = field("URL", "https://example.com");
    let decoded = decode(&fields).unwrap();
    assert_eq!(decoded.url, "https://example.com/");
}

#[test]
fn decode_unknown_title_fails_despite_complete_fields() {
    let mut fields = complete_fields();
    fields.push(field("Bogus", "whatever"));
    assert_eq!(
        decode(&fields),
        Err(DecodeError::UnknownField("Bogus".to_string()))
    );
}

#[test]
fn decode_missing_time_names_hours() {
    let fields = vec![
        field("Author", "alice"),
        field("Office", "Germany"),
        field("URL", "https://example.com/"),
        field("Description", "fixed a bug"),
    ];
    assert_eq!(decode(&fields), Err(DecodeError::MissingHours));
}

#[test]
fn decode_reports_first_missing_in_order() {
    let fields: Vec<Field> = Vec::new();
    assert_eq!(decode(&fields), Err(DecodeError::MissingUsername));
    let fields = vec![field("Author", "alice")];
    assert_eq!(decode(&fields), Err(DecodeError::MissingHours));
    let fields = vec![field("Author", "alice"), field("Time", "5")];
    assert_eq!(decode(&fields), Err(DecodeError::MissingCountry));
    let fields = vec![
        field("Author", "alice"),
        field("Time", "5"),
        field("Office", "Germany"),
    ];
    assert_eq!(decode(&fields), Err(DecodeError::MissingUrl));
    let fields = vec![
        field("Author", "alice"),
        field("Time", "5"),
        field("Office", "Germany"),
        field("URL", "https://example.com/"),
    ];
    assert_eq!(decode(&fields), Err(DecodeError::MissingDescription));
}

#[test]
fn decode_skips_pairs_without_title_or_value() {
    let mut fields = complete_fields();
    fields.push(Field { title: None, value: Some("ignored".to_string()) });
    fields.push(Field { title: Some("Bogus".to_string()), value: None });
    let decoded = decode(&fields).unwrap();
    assert_eq!(decoded, sample_record());
}

#[test]
fn decode_invalid_hours_keeps_raw_text() {
    let mut fields = complete_fields();
    fields[1] = field("Time", "abc");
    assert_eq!(
        decode(&fields),
        Err(DecodeError::InvalidHours("abc".to_string()))
    );
}

#[test]
fn decode_invalid_url_keeps_raw_text() {
    let mut fields = complete_fields();
    fields[3] = field("URL", "not a url");
    assert_eq!(
        decode(&fields),
        Err(DecodeError::InvalidUrl("not a url".to_string()))
    );
}

#[test]
fn decode_accepts_negative_hours_from_history() {
    let mut fields = complete_fields();
    fields[1] = field("Time", "-5");
    let decoded = decode(&fields).unwrap();
    assert_eq!(decoded.hours, -5);
}

#[test]
fn decode_accepts_non_http_url_from_history() {
    let mut fields = complete_fields();
    fields[3] = field("URL", "ftp://example.com/");
    let decoded = decode(&fields).unwrap();
    assert_eq!(decoded.url, "ftp://example.com/");
}

#[test]
fn decode_later_duplicate_title_wins() {
    let mut fields = complete_fields();
    fields.push(field("Time", "9"));
    let decoded = decode(&fields).unwrap();
    assert_eq!(decoded.hours, 9);
}
