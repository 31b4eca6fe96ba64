//! The field codec: a record is stored in a chat message as an ordered
//! list of (title, value) text pairs under the fixed titles `Author`,
//! `Time`, `Office`, `URL` and `Description`. Encoding is total; decoding
//! scans an arbitrary pair list, skips pairs with a missing title or value,
//! fails at once on an unrecognized title, and otherwise reports the first
//! required field left unfilled, in the fixed order contributor, hours,
//! country, URL, description.

use vstd::prelude::*;

use crate::decimal::{i16_dec, i16_parse, i16_to_string, lemma_i16_parse_dec, parse_i16};
use crate::record::{url_round_trippable, Record, RecordV};
use crate::text::{str_eq, strip_brackets, strip_url_brackets};
use crate::uri::{parse_url_parts, url_parse};

verus! {

/// One (title, value) pair of a message attachment. Either side may be
/// absent in historical data.
#[derive(Debug, Clone, PartialEq)]
pub struct Field {
    pub title: Option<String>,
    pub value: Option<String>,
}

#[verifier::ext_equal]
pub ghost struct FieldV {
    pub title: Option<Seq<char>>,
    pub value: Option<Seq<char>>,
}

impl DeepView for Field {
    type V = FieldV;

    open spec fn deep_view(&self) -> FieldV {
        FieldV { title: self.title.deep_view(), value: self.value.deep_view() }
    }
}

/// Why decoding a pair list failed: an unrecognized title, an hour or URL
/// value that does not parse (with the raw text kept for diagnostics), or
/// the first required field never filled.
#[derive(Debug, Clone, PartialEq)]
pub enum DecodeError {
    MissingUsername,
    MissingHours,
    MissingCountry,
    MissingUrl,
    MissingDescription,
    InvalidHours(String),
    InvalidUrl(String),
    UnknownField(String),
}

#[verifier::ext_equal]
pub ghost enum DecodeErrorV {
    MissingUsername,
    MissingHours,
    MissingCountry,
    MissingUrl,
    MissingDescription,
    InvalidHours(Seq<char>),
    InvalidUrl(Seq<char>),
    UnknownField(Seq<char>),
}

impl DeepView for DecodeError {
    type V = DecodeErrorV;

    open spec fn deep_view(&self) -> DecodeErrorV {
        match self {
            DecodeError::MissingUsername => DecodeErrorV::MissingUsername,
            DecodeError::MissingHours => DecodeErrorV::MissingHours,
            DecodeError::MissingCountry => DecodeErrorV::MissingCountry,
            DecodeError::MissingUrl => DecodeErrorV::MissingUrl,
            DecodeError::MissingDescription => DecodeErrorV::MissingDescription,
            DecodeError::InvalidHours(s) => DecodeErrorV::InvalidHours(s@),
            DecodeError::InvalidUrl(s) => DecodeErrorV::InvalidUrl(s@),
            DecodeError::UnknownField(s) => DecodeErrorV::UnknownField(s@),
        }
    }
}

/// State of the hour field during a scan.
#[verifier::ext_equal]
pub ghost enum HoursV {
    Missing,
    Parsed(i16),
    Invalid(Seq<char>),
}

/// State of the URL field during a scan.
#[verifier::ext_equal]
pub ghost enum UrlV {
    Missing,
    Parsed(Seq<char>),
    Invalid(Seq<char>),
}

/// What a left-to-right scan of the pair list has gathered so far.
#[verifier::ext_equal]
pub ghost struct ScanV {
    pub username: Option<Seq<char>>,
    pub hours: HoursV,
    pub country: Option<Seq<char>>,
    pub url: UrlV,
    pub description: Option<Seq<char>>,
}

pub open spec fn scan_init() -> ScanV {
    ScanV {
        username: None,
        hours: HoursV::Missing,
        country: None,
        url: UrlV::Missing,
        description: None,
    }
}

pub open spec fn recognized_title(t: Seq<char>) -> bool {
    ||| t == "Author"@
    ||| t == "Time"@
    ||| t == "Office"@
    ||| t == "URL"@
    ||| t == "Description"@
}

/// One scan step. A pair without title or value is skipped; a recognized
/// title overwrites its field; an unrecognized title aborts the scan,
/// carrying the title.
pub open spec fn scan_field(st: ScanV, f: FieldV) -> Result<ScanV, Seq<char>> {
    match f.title {
        None => Ok(st),
        Some(t) => match f.value {
            None => Ok(st),
            Some(v) => {
                if t == "Author"@ {
                    Ok(ScanV { username: Some(v), ..st })
                } else if t == "Time"@ {
                    Ok(
                        ScanV {
                            hours: match i16_parse(v) {
                                Some(n) => HoursV::Parsed(n),
                                None => HoursV::Invalid(v),
                            },
                            ..st
                        },
                    )
                } else if t == "Office"@ {
                    Ok(ScanV { country: Some(v), ..st })
                } else if t == "URL"@ {
                    Ok(
                        ScanV {
                            url: match url_parse(strip_brackets(v)) {
                                Some(p) => UrlV::Parsed(p.1),
                                None => UrlV::Invalid(v),
                            },
                            ..st
                        },
                    )
                } else if t == "Description"@ {
                    Ok(ScanV { description: Some(v), ..st })
                } else {
                    Err(t)
                }
            },
        },
    }
}

/// Left-to-right scan of the whole pair list.
pub open spec fn scan(fields: Seq<FieldV>) -> Result<ScanV, Seq<char>>
    decreases fields.len(),
{
    if fields.len() == 0 {
        Ok(scan_init())
    } else {
        match scan(fields.drop_last()) {
            Ok(st) => scan_field(st, fields.last()),
            Err(t) => Err(t),
        }
    }
}

/// After a whole scan: the record, or the first failure in the fixed order
/// contributor, hours, country, URL, description.
pub open spec fn finish(st: ScanV) -> Result<RecordV, DecodeErrorV> {
    match st.username {
        None => Err(DecodeErrorV::MissingUsername),
        Some(username) => match st.hours {
            HoursV::Missing => Err(DecodeErrorV::MissingHours),
            HoursV::Invalid(raw) => Err(DecodeErrorV::InvalidHours(raw)),
            HoursV::Parsed(hours) => match st.country {
                None => Err(DecodeErrorV::MissingCountry),
                Some(country) => match st.url {
                    UrlV::Missing => Err(DecodeErrorV::MissingUrl),
                    UrlV::Invalid(raw) => Err(DecodeErrorV::InvalidUrl(raw)),
                    UrlV::Parsed(url) => match st.description {
                        None => Err(DecodeErrorV::MissingDescription),
                        Some(description) => Ok(
                            RecordV { username, hours, country, url, description },
                        ),
                    },
                },
            },
        },
    }
}

/// What decoding a pair list yields.
pub open spec fn decode_spec(fields: Seq<FieldV>) -> Result<RecordV, DecodeErrorV> {
    match scan(fields) {
        Err(t) => Err(DecodeErrorV::UnknownField(t)),
        Ok(st) => finish(st),
    }
}

/// The five pairs of a record, in the fixed order.
pub open spec fn encode_spec(r: RecordV) -> Seq<FieldV> {
    seq![
        FieldV { title: Some("Author"@), value: Some(r.username) },
        FieldV { title: Some("Time"@), value: Some(i16_dec(r.hours as int)) },
        FieldV { title: Some("Office"@), value: Some(r.country) },
        FieldV { title: Some("URL"@), value: Some(r.url) },
        FieldV { title: Some("Description"@), value: Some(r.description) },
    ]
}

/// The decode result seen at the mathematical level.
pub open spec fn decoded_view(r: Result<Record, DecodeError>) -> Result<RecordV, DecodeErrorV> {
    match r {
        Ok(rec) => Ok(rec.deep_view()),
        Err(e) => Err(e.deep_view()),
    }
}

/// Renders a record as its five (title, value) pairs.
pub fn encode(r: &Record) -> (fields: Vec<Field>)
    ensures
        fields.deep_view() == encode_spec(r.deep_view()),
{
    let mut fields: Vec<Field> = Vec::new();
    fields.push(Field { title: Some("Author".to_owned()), value: Some(r.username.clone()) });
    fields.push(Field { title: Some("Time".to_owned()), value: Some(i16_to_string(r.hours)) });
    fields.push(Field { title: Some("Office".to_owned()), value: Some(r.country.clone()) });
    fields.push(Field { title: Some("URL".to_owned()), value: Some(r.url.clone()) });
    fields.push(
        Field { title: Some("Description".to_owned()), value: Some(r.description.clone()) },
    );
    proof {
        assert(fields.deep_view() =~= encode_spec(r.deep_view()));
    }
    fields
}

/// Round trip: decoding the encoding of a record gives the record back,
/// for every record whose URL text is its own canonical serialization and
/// carries no bracket at its ends (as every URL the submission validator
/// or the decoder stores does, unless the canonical form itself ends in a
/// bracket).
#[verifier::rlimit(60)]
pub proof fn lemma_decode_encode(r: RecordV)
    requires
        url_round_trippable(r.url),
    ensures
        decode_spec(encode_spec(r)) == Ok::<RecordV, DecodeErrorV>(r),
{
    reveal_strlit("Author");
    reveal_strlit("Time");
    reveal_strlit("Office");
    reveal_strlit("URL");
    reveal_strlit("Description");
    lemma_i16_parse_dec(r.hours as int);
    assert("Author"@.len() == 6 && "Author"@[0] == 'A');
    assert("Time"@.len() == 4 && "Time"@[0] == 'T');
    assert("Office"@.len() == 6 && "Office"@[0] == 'O');
    assert("URL"@.len() == 3 && "URL"@[0] == 'U');
    assert("Description"@.len() == 11 && "Description"@[0] == 'D');
    let fs = encode_spec(r);
    assert(fs.take(0).len() == 0);
    assert(scan(fs.take(0)) == Ok::<ScanV, Seq<char>>(scan_init()));
    assert(fs.take(1).drop_last() =~= fs.take(0));
    assert(fs.take(2).drop_last() =~= fs.take(1));
    assert(fs.take(3).drop_last() =~= fs.take(2));
    assert(fs.take(4).drop_last() =~= fs.take(3));
    assert(fs.take(5).drop_last() =~= fs.take(4));
    assert(fs.take(1).last() == fs[0]);
    assert(fs.take(2).last() == fs[1]);
    assert(fs.take(3).last() == fs[2]);
    assert(fs.take(4).last() == fs[3]);
    assert(fs.take(5).last() == fs[4]);
    assert(fs.take(5) =~= fs);
    assert(fs[0] == FieldV { title: Some("Author"@), value: Some(r.username) });
    assert(fs[1] == FieldV { title: Some("Time"@), value: Some(i16_dec(r.hours as int)) });
    assert(fs[2] == FieldV { title: Some("Office"@), value: Some(r.country) });
    assert(fs[3] == FieldV { title: Some("URL"@), value: Some(r.url) });
    assert(fs[4] == FieldV { title: Some("Description"@), value: Some(r.description) });
    let st1 = ScanV { username: Some(r.username), ..scan_init() };
    let st2 = ScanV { hours: HoursV::Parsed(r.hours), ..st1 };
    let st3 = ScanV { country: Some(r.country), ..st2 };
    let st4 = ScanV { url: UrlV::Parsed(r.url), ..st3 };
    let st = ScanV { description: Some(r.description), ..st4 };
    assert(scan(fs.take(1)) == Ok::<ScanV, Seq<char>>(st1));
    assert(scan(fs.take(2)) == Ok::<ScanV, Seq<char>>(st2));
    assert(scan(fs.take(3)) == Ok::<ScanV, Seq<char>>(st3));
    assert(scan(fs.take(4)) == Ok::<ScanV, Seq<char>>(st4));
    assert(scan(fs) == Ok::<ScanV, Seq<char>>(st));
    assert(finish(st) == Ok::<RecordV, DecodeErrorV>(
        RecordV {
            username: r.username,
            hours: r.hours,
            country: r.country,
            url: r.url,
            description: r.description,
        },
    ));
    assert(RecordV {
        username: r.username,
        hours: r.hours,
        country: r.country,
        url: r.url,
        description: r.description,
    } =~= r);
}

/// Decides at run time whether a record's URL text is its own canonical
/// serialization with no bracket to strip; where it is, the round-trip law
/// applies and the record survives encoding and decoding unchanged.
pub fn round_trip_holds(r: &Record) -> (b: bool)
    ensures
        b ==> decode_spec(encode_spec(r.deep_view())) == Ok::<RecordV, DecodeErrorV>(
            r.deep_view(),
        ),
{
    let stripped = strip_url_brackets(r.url.as_str());
    if !str_eq(stripped.as_str(), r.url.as_str()) {
        return false;
    }
    match parse_url_parts(r.url.as_str()) {
        Some(p) => {
            if str_eq(p.1.as_str(), r.url.as_str()) {
                proof {
                    assert(url_round_trippable(r.deep_view().url));
                    lemma_decode_encode(r.deep_view());
                }
                true
            } else {
                false
            }
        },
        None => false,
    }
}

/// A pair whose title is present, whose value is present, and whose title
/// is outside the recognized set makes the whole decode fail, however
/// complete the other pairs are.
pub proof fn lemma_unknown_title_fails(fields: Seq<FieldV>, i: int)
    requires
        0 <= i < fields.len(),
        fields[i].title is Some,
        fields[i].value is Some,
        !recognized_title(fields[i].title->0),
    ensures
        decode_spec(fields) is Err,
{
    if scan(fields.take(i)) is Err {
        lemma_scan_err_persists(fields, i);
    } else {
        assert(fields.take(i + 1).drop_last() =~= fields.take(i));
        assert(fields.take(i + 1).last() == fields[i]);
        assert(scan(fields.take(i + 1)) is Err);
        lemma_scan_err_persists(fields, i + 1);
    }
}

/// When the scan itself succeeds, decoding reports the first field left
/// unfilled, in the fixed order contributor, hours, country, URL,
/// description.
pub proof fn lemma_first_missing_field(fields: Seq<FieldV>, st: ScanV)
    requires
        scan(fields) == Ok::<ScanV, Seq<char>>(st),
    ensures
        st.username is None ==> decode_spec(fields) == Err::<RecordV, DecodeErrorV>(
            DecodeErrorV::MissingUsername,
        ),
        st.username is Some && st.hours is Missing ==> decode_spec(fields) == Err::<
            RecordV,
            DecodeErrorV,
        >(DecodeErrorV::MissingHours),
        st.username is Some && st.hours is Parsed && st.country is None ==> decode_spec(fields)
            == Err::<RecordV, DecodeErrorV>(DecodeErrorV::MissingCountry),
        st.username is Some && st.hours is Parsed && st.country is Some && st.url is Missing
            ==> decode_spec(fields) == Err::<RecordV, DecodeErrorV>(DecodeErrorV::MissingUrl),
        st.username is Some && st.hours is Parsed && st.country is Some && st.url is Parsed
            && st.description is None ==> decode_spec(fields) == Err::<RecordV, DecodeErrorV>(
            DecodeErrorV::MissingDescription,
        ),
{
}

/// Exec state of the hour field during decoding.
enum HoursState {
    Missing,
    Parsed(i16),
    Invalid(String),
}

/// Exec state of the URL field during decoding.
enum UrlState {
    Missing,
    Parsed(String),
    Invalid(String),
}

spec fn hours_state_view(h: &HoursState) -> HoursV {
    match h {
        HoursState::Missing => HoursV::Missing,
        HoursState::Parsed(n) => HoursV::Parsed(*n),
        HoursState::Invalid(s) => HoursV::Invalid(s@),
    }
}

spec fn url_state_view(u: &UrlState) -> UrlV {
    match u {
        UrlState::Missing => UrlV::Missing,
        UrlState::Parsed(s) => UrlV::Parsed(s@),
        UrlState::Invalid(s) => UrlV::Invalid(s@),
    }
}

/// Once a scan prefix has failed, the whole scan fails the same way.
proof fn lemma_scan_err_persists(fields: Seq<FieldV>, i: int)
    requires
        0 <= i <= fields.len(),
        scan(fields.take(i)) is Err,
    ensures
        scan(fields) == scan(fields.take(i)),
    decreases fields.len() - i,
{
    if i < fields.len() {
        assert(fields.take(i + 1).drop_last() =~= fields.take(i));
        lemma_scan_err_persists(fields, i + 1);
    } else {
        assert(fields.take(i) =~= fields);
    }
}

/// Reads a record back from a pair list, by [`decode_spec`].
pub fn decode(fields: &Vec<Field>) -> (r: Result<Record, DecodeError>)
    ensures
        decoded_view(r) == decode_spec(fields.deep_view()),
{
    let ghost fseq = fields.deep_view();
    let mut st_user: Option<String> = None;
    let mut st_hours: HoursState = HoursState::Missing;
    let mut st_country: Option<String> = None;
    let mut st_url: UrlState = UrlState::Missing;
    let mut st_desc: Option<String> = None;
    let mut i: usize = 0;
    while i < fields.len()
        invariant
            i <= fields.len(),
            fseq == fields.deep_view(),
            fseq.len() == fields.len(),
            scan(fseq.take(i as int)) == Ok::<ScanV, Seq<char>>(
                ScanV {
                    username: st_user.deep_view(),
                    hours: hours_state_view(&st_hours),
                    country: st_country.deep_view(),
                    url: url_state_view(&st_url),
                    description: st_desc.deep_view(),
                },
            ),
        decreases fields.len() - i,
    {
        proof {
            assert(fseq.take(i + 1).drop_last() =~= fseq.take(i as int));
            assert(fseq.take(i + 1).last() == fseq[i as int]);
        }
        let f = &fields[i];
        match &f.title {
            None => {},
            Some(t) => match &f.value {
                None => {},
                Some(v) => {
                    if str_eq(t.as_str(), "Author") {
                        st_user = Some(v.clone());
                    } else if str_eq(t.as_str(), "Time") {
                        st_hours = match parse_i16(v.as_str()) {
                            Some(n) => HoursState::Parsed(n),
                            None => HoursState::Invalid(v.clone()),
                        };
                    } else if str_eq(t.as_str(), "Office") {
                        st_country = Some(v.clone());
                    } else if str_eq(t.as_str(), "URL") {
                        let stripped = strip_url_brackets(v.as_str());
                        st_url = match parse_url_parts(stripped.as_str()) {
                            Some(p) => UrlState::Parsed(p.1),
                            None => UrlState::Invalid(v.clone()),
                        };
                    } else if str_eq(t.as_str(), "Description") {
                        st_desc = Some(v.clone());
                    } else {
                        proof {
                            assert(scan(fseq.take(i + 1)) == Err::<ScanV, Seq<char>>(t@));
                            lemma_scan_err_persists(fseq, i + 1);
                            assert(fseq.take(fseq.len() as int) =~= fseq);
                        }
                        return Err(DecodeError::UnknownField(t.clone()));
                    }
                },
            },
        }
        i += 1;
    }
    proof {
        assert(fseq.take(i as int) =~= fseq);
    }
    match st_user {
        None => Err(DecodeError::MissingUsername),
        Some(username) => match st_hours {
            HoursState::Missing => Err(DecodeError::MissingHours),
            HoursState::Invalid(raw) => Err(DecodeError::InvalidHours(raw)),
            HoursState::Parsed(hours) => match st_country {
                None => Err(DecodeError::MissingCountry),
                Some(country) => match st_url {
                    UrlState::Missing => Err(DecodeError::MissingUrl),
                    UrlState::Invalid(raw) => Err(DecodeError::InvalidUrl(raw)),
                    UrlState::Parsed(url) => match st_desc {
                        None => Err(DecodeError::MissingDescription),
                        Some(description) => Ok(
                            Record { username, hours, country, url, description },
                        ),
                    },
                },
            },
        },
    }
}

} // verus!
