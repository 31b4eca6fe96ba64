//! Tests of the submission validator: the hour and URL rules, the exact
//! field names and messages of each rejection, and the form-state lookups.

use oss_bot::errors::AppError;
use oss_bot::submission::{input_value, select_value, validate_submission, FormEntry};

fn validation_error(r: Result<oss_bot::record::Record, AppError>) -> (String, String) {
    match r {
        Err(AppError::InputValidationError { field_name, message }) => (field_name, message),
        other => panic!("expected a validation error, got {:?}", other),
    }
}

#[test]
fn validator_accepts_positive_hours_and_https() {
    let r = validate_submission("alice", "1", "https://x.com", "desc", "Germany").unwrap();
    assert_eq!(r.username, "alice");
    assert_eq!(r.hours, 1);
    assert_eq!(r.country, "Germany");
    assert_eq!(r.url, "https://x.com/");
    assert_eq!(r.description, "desc");
}

#[test]
fn validator_accepts_http() {
    let r = validate_submission("alice", "3", "http://x.com", "", "Germany").unwrap();
    assert_eq!(r.url, "http://x.com/");
    assert_eq!(r.hours, 3);
}

#[test]
fn validator_rejects_zero_hours() {
    let (field, message) =
        validation_error(validate_submission("alice", "0", "https://x.com", "d", "Germany"));
    assert_eq!(field, "number_of_hours");
    assert_eq!(message, "Number of hours must be greater than 0");
}

#[test]
fn validator_rejects_negative_hours() {
    let (field, message) =
        validation_error(validate_submission("alice", "-4", "https://x.com", "d", "Germany"));
    assert_eq!(field, "number_of_hours");
    assert_eq!(message, "Number of hours must be greater than 0");
}

#[test]
fn validator_rejects_non_integer_hours() {
    let (field, message) =
        validation_error(validate_submission("alice", "many", "https://x.com", "d", "Germany"));
    assert_eq!(field, "number_of_hours");
    assert_eq!(message, "not a valid integer");
}

#[test]
fn validator_rejects_out_of_range_hours() {
    let (field, message) =
        validation_error(validate_submission("alice", "32768", "https://x.com", "d", "Germany"));
    assert_eq!(field, "number_of_hours");
    assert_eq!(message, "not a valid integer");
}

#[test]
fn validator_rejects_malformed_url() {
    let (field, message) =
        validation_error(validate_submission("alice", "2", "notaurl", "d", "Germany"));
    assert_eq!(field, "url");
    assert_eq!(message, "Not a valid URL");
}

#[test]
fn validator_rejects_ftp_scheme() {
    let (field, message) =
        validation_error(validate_submission("alice", "2", "ftp://x.com", "d", "Germany"));
    assert_eq!(field, "url");
    assert_eq!(message, "URL should point to an HTTP or HTTPS resource");
}

#[test]
fn validator_checks_hours_before_url() {
    let (field, _) = validation_error(validate_submission("alice", "no", "notaurl", "d", "X"));
    assert_eq!(field, "number_of_hours");
}

fn form_state() -> Vec<FormEntry> {
    vec![
        FormEntry {
            id: "number_of_hours".to_string(),
            value: Some("4".to_string()),
            selected: None,
        },
        FormEntry {
            id: "country".to_string(),
            value: None,
            selected: Some("Germany".to_string()),
        },
    ]
}

#[test]
fn input_value_finds_text_field() {
    assert_eq!(
        input_value(&form_state(), "number_of_hours"),
        Some("4".to_string())
    );
}

#[test]
fn input_value_misses_absent_field() {
    assert_eq!(input_value(&form_state(), "url"), None);
}

#[test]
fn input_value_misses_select_only_field() {
    assert_eq!(input_value(&form_state(), "country"), None);
}

#[test]
fn select_value_finds_chosen_option() {
    assert_eq!(
        select_value(&form_state(), "country"),
        Some("Germany".to_string())
    );
}

#[test]
fn input_value_prefers_the_first_matching_entry() {
    let mut entries = form_state();
    entries.push(FormEntry {
        id: "number_of_hours".to_string(),
        value: Some("9".to_string()),
        selected: None,
    });
    assert_eq!(
        input_value(&entries, "number_of_hours"),
        Some("4".to_string())
    );
}

#[test]
fn select_value_misses_text_field() {
    assert_eq!(select_value(&form_state(), "number_of_hours"), None);
}

#[test]
fn error_status_codes() {
    let internal = AppError::InternalServerError("boom".to_string());
    assert_eq!(internal.status_code(), 500);
    let validation = AppError::InputValidationError {
        field_name: "url".to_string(),
        message: "Not a valid URL".to_string(),
    };
    assert_eq!(validation.status_code(), 200);
    assert_eq!(
        oss_bot::errors::internal_error_text(),
        "Something went wrong. See logs for details."
    );
}
