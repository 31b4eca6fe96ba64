//! The submission validator: raw form values in, a validated record or a
//! field-tagged validation error out. Also the lookup of free-text and
//! selected-option values in a submitted form's state.

use vstd::prelude::*;

use crate::decimal::{i16_parse, parse_i16};
use crate::errors::{AppError, AppErrorV};
use crate::record::{Record, RecordV};
use crate::text::{starts_with, str_eq, str_starts_with};
use crate::uri::{parse_url_parts, url_parse};

verus! {

/// The state of one form field when a form is submitted: its identifier,
/// its free-text value if it is an input, and its chosen option if it is a
/// select.
#[derive(Debug, Clone, PartialEq)]
pub struct FormEntry {
    pub id: String,
    pub value: Option<String>,
    pub selected: Option<String>,
}

#[verifier::ext_equal]
pub ghost struct FormEntryV {
    pub id: Seq<char>,
    pub value: Option<Seq<char>>,
    pub selected: Option<Seq<char>>,
}

impl DeepView for FormEntry {
    type V = FormEntryV;

    open spec fn deep_view(&self) -> FormEntryV {
        FormEntryV {
            id: self.id@,
            value: self.value.deep_view(),
            selected: self.selected.deep_view(),
        }
    }
}

/// The first entry with the given identifier, if any.
pub open spec fn find_entry(entries: Seq<FormEntryV>, id: Seq<char>) -> Option<FormEntryV>
    decreases entries.len(),
{
    if entries.len() == 0 {
        None
    } else if entries[0].id == id {
        Some(entries[0])
    } else {
        find_entry(entries.drop_first(), id)
    }
}

/// The free-text value of the field with the given identifier: present
/// exactly when the field exists and carries a value.
pub open spec fn input_value_spec(entries: Seq<FormEntryV>, id: Seq<char>) -> Option<Seq<char>> {
    match find_entry(entries, id) {
        None => None,
        Some(e) => e.value,
    }
}

/// The chosen option of the select field with the given identifier.
pub open spec fn select_value_spec(entries: Seq<FormEntryV>, id: Seq<char>) -> Option<Seq<char>> {
    match find_entry(entries, id) {
        None => None,
        Some(e) => e.selected,
    }
}

/// Looks up the free-text value of a form field by identifier.
pub fn input_value(entries: &Vec<FormEntry>, id: &str) -> (r: Option<String>)
    ensures
        r.deep_view() == input_value_spec(entries.deep_view(), id@),
{
    let ghost eseq = entries.deep_view();
    proof {
        assert(eseq.skip(0) =~= eseq);
    }
    let mut i: usize = 0;
    while i < entries.len()
        invariant
            i <= entries.len(),
            eseq == entries.deep_view(),
            eseq.len() == entries.len(),
            find_entry(eseq, id@) == find_entry(eseq.skip(i as int), id@),
            forall|j: int| 0 <= j < i ==> eseq[j].id != id@,
        decreases entries.len() - i,
    {
        proof {
            assert(eseq.skip(i as int).drop_first() =~= eseq.skip(i + 1));
            assert(eseq.skip(i as int)[0] == eseq[i as int]);
        }
        if str_eq(entries[i].id.as_str(), id) {
            return match &entries[i].value {
                Some(v) => Some(v.clone()),
                None => None,
            };
        }
        i += 1;
    }
    proof {
        assert(eseq.skip(i as int).len() == 0);
    }
    None
}

/// Looks up the chosen option of a select field by identifier.
pub fn select_value(entries: &Vec<FormEntry>, id: &str) -> (r: Option<String>)
    ensures
        r.deep_view() == select_value_spec(entries.deep_view(), id@),
{
    let ghost eseq = entries.deep_view();
    proof {
        assert(eseq.skip(0) =~= eseq);
    }
    let mut i: usize = 0;
    while i < entries.len()
        invariant
            i <= entries.len(),
            eseq == entries.deep_view(),
            eseq.len() == entries.len(),
            find_entry(eseq, id@) == find_entry(eseq.skip(i as int), id@),
            forall|j: int| 0 <= j < i ==> eseq[j].id != id@,
        decreases entries.len() - i,
    {
        proof {
            assert(eseq.skip(i as int).drop_first() =~= eseq.skip(i + 1));
            assert(eseq.skip(i as int)[0] == eseq[i as int]);
        }
        if str_eq(entries[i].id.as_str(), id) {
            return match &entries[i].selected {
                Some(v) => Some(v.clone()),
                None => None,
            };
        }
        i += 1;
    }
    proof {
        assert(eseq.skip(i as int).len() == 0);
    }
    None
}

/// What validating a submission yields, checked in order: the hour text
/// must parse as a 16-bit integer, the parsed value must be strictly
/// positive, the URL text must parse, and the scheme must begin with
/// `http`. The first failure is reported against its form field; success
/// builds the record with the canonical URL serialization.
pub open spec fn validate_spec(
    username: Seq<char>,
    hours_text: Seq<char>,
    url_text: Seq<char>,
    description: Seq<char>,
    country: Seq<char>,
) -> Result<RecordV, AppErrorV> {
    match i16_parse(hours_text) {
        None => Err(
            AppErrorV::InputValidationError {
                field_name: "number_of_hours"@,
                message: "not a valid integer"@,
            },
        ),
        Some(h) => {
            if h <= 0 {
                Err(
                    AppErrorV::InputValidationError {
                        field_name: "number_of_hours"@,
                        message: "Number of hours must be greater than 0"@,
                    },
                )
            } else {
                match url_parse(url_text) {
                    None => Err(
                        AppErrorV::InputValidationError {
                            field_name: "url"@,
                            message: "Not a valid URL"@,
                        },
                    ),
                    Some(p) => {
                        if !starts_with(p.0, "http"@) {
                            Err(
                                AppErrorV::InputValidationError {
                                    field_name: "url"@,
                                    message: "URL should point to an HTTP or HTTPS resource"@,
                                },
                            )
                        } else {
                            Ok(
                                RecordV {
                                    username,
                                    hours: h,
                                    country,
                                    url: p.1,
                                    description,
                                },
                            )
                        }
                    },
                }
            }
        },
    }
}

/// The hour rule: text that is no 16-bit integer is rejected against the
/// hour field as not a valid integer; every integer at or below zero is
/// rejected against the hour field as not strictly positive; and for every
/// integer above zero the hour field is never the rejected one, and a
/// record that is built carries exactly that value.
pub proof fn lemma_validator_hour_rule(
    username: Seq<char>,
    hours_text: Seq<char>,
    url_text: Seq<char>,
    description: Seq<char>,
    country: Seq<char>,
)
    ensures
        i16_parse(hours_text) is None ==> validate_spec(
            username,
            hours_text,
            url_text,
            description,
            country,
        ) == Err::<RecordV, AppErrorV>(
            AppErrorV::InputValidationError {
                field_name: "number_of_hours"@,
                message: "not a valid integer"@,
            },
        ),
        i16_parse(hours_text) matches Some(h) ==> h <= 0 ==> validate_spec(
            username,
            hours_text,
            url_text,
            description,
            country,
        ) == Err::<RecordV, AppErrorV>(
            AppErrorV::InputValidationError {
                field_name: "number_of_hours"@,
                message: "Number of hours must be greater than 0"@,
            },
        ),
        i16_parse(hours_text) matches Some(h) ==> h > 0 ==> match validate_spec(
            username,
            hours_text,
            url_text,
            description,
            country,
        ) {
            Ok(r) => r.hours == h,
            Err(e) => e matches AppErrorV::InputValidationError { field_name, .. }
                && field_name == "url"@,
        },
{
}

/// The URL rule, once the hours are accepted: text the URL parser refuses
/// is rejected against the URL field as not a valid URL; a parsed URL
/// whose scheme does not begin with `http` is rejected against the URL
/// field as pointing elsewhere; and a parsed URL whose scheme begins with
/// `http` is accepted, the record carrying its canonical serialization.
pub proof fn lemma_validator_url_rule(
    username: Seq<char>,
    hours_text: Seq<char>,
    url_text: Seq<char>,
    description: Seq<char>,
    country: Seq<char>,
)
    requires
        i16_parse(hours_text) matches Some(h) && h > 0,
    ensures
        url_parse(url_text) is None ==> validate_spec(
            username,
            hours_text,
            url_text,
            description,
            country,
        ) == Err::<RecordV, AppErrorV>(
            AppErrorV::InputValidationError {
                field_name: "url"@,
                message: "Not a valid URL"@,
            },
        ),
        url_parse(url_text) matches Some(p) ==> !starts_with(p.0, "http"@) ==> validate_spec(
            username,
            hours_text,
            url_text,
            description,
            country,
        ) == Err::<RecordV, AppErrorV>(
            AppErrorV::InputValidationError {
                field_name: "url"@,
                message: "URL should point to an HTTP or HTTPS resource"@,
            },
        ),
        url_parse(url_text) matches Some(p) ==> starts_with(p.0, "http"@) ==> validate_spec(
            username,
            hours_text,
            url_text,
            description,
            country,
        ) == Ok::<RecordV, AppErrorV>(
            RecordV {
                username,
                hours: i16_parse(hours_text)->0,
                country,
                url: p.1,
                description,
            },
        ),
{
}

/// The validation result seen at the mathematical level.
pub open spec fn validated_view(r: Result<Record, AppError>) -> Result<RecordV, AppErrorV> {
    match r {
        Ok(rec) => Ok(rec.deep_view()),
        Err(e) => Err(e.deep_view()),
    }
}

/// Validates one submission: the raw hour, URL and description texts and
/// the selected country from the form, with the contributor name resolved
/// from the user's profile. Rejects a non-integer or non-positive hour
/// count and a malformed or non-http(s) URL, each against its form field.
pub fn validate_submission(
    username: &str,
    hours_text: &str,
    url_text: &str,
    description: &str,
    country: &str,
) -> (r: Result<Record, AppError>)
    ensures
        validated_view(r) == validate_spec(username@, hours_text@, url_text@, description@, country@),
{
    let parsed_hours = match parse_i16(hours_text) {
        None => {
            return Err(
                AppError::InputValidationError {
                    field_name: "number_of_hours".to_owned(),
                    message: "not a valid integer".to_owned(),
                },
            );
        },
        Some(h) => h,
    };
    if parsed_hours <= 0 {
        return Err(
            AppError::InputValidationError {
                field_name: "number_of_hours".to_owned(),
                message: "Number of hours must be greater than 0".to_owned(),
            },
        );
    }
    match parse_url_parts(url_text) {
        None => Err(
            AppError::InputValidationError {
                field_name: "url".to_owned(),
                message: "Not a valid URL".to_owned(),
            },
        ),
        Some(p) => {
            if !str_starts_with(p.0.as_str(), "http") {
                return Err(
                    AppError::InputValidationError {
                        field_name: "url".to_owned(),
                        message: "URL should point to an HTTP or HTTPS resource".to_owned(),
                    },
                );
            }
            Ok(
                Record {
                    username: username.to_owned(),
                    hours: parsed_hours,
                    country: country.to_owned(),
                    url: p.1,
                    description: description.to_owned(),
                },
            )
        },
    }
}

} // verus!
