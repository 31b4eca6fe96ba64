//! The validated contribution entry: contributor name, strictly positive
//! hour count on the submission path, country, URL in canonical text form,
//! and free description text.

use vstd::prelude::*;

use crate::text::strip_brackets;
use crate::uri::url_parse;

verus! {

/// One contribution entry. The submission validator creates it with
/// `hours > 0` and an http(s) URL; the decoder of historical messages
/// recreates it as stored, without re-checking those two rules.
#[derive(Debug, Clone, PartialEq)]
pub struct Record {
    pub username: String,
    pub hours: i16,
    pub country: String,
    pub url: String,
    pub description: String,
}

/// The mathematical shape of a record: character sequences and a bounded
/// hour count.
#[verifier::ext_equal]
pub ghost struct RecordV {
    pub username: Seq<char>,
    pub hours: i16,
    pub country: Seq<char>,
    pub url: Seq<char>,
    pub description: Seq<char>,
}

impl DeepView for Record {
    type V = RecordV;

    open spec fn deep_view(&self) -> RecordV {
        RecordV {
            username: self.username@,
            hours: self.hours,
            country: self.country@,
            url: self.url@,
            description: self.description@,
        }
    }
}

/// URL text that the codec hands back unchanged: it is its own canonical
/// serialization, and carries no bracket that the decoder would strip.
pub open spec fn url_round_trippable(u: Seq<char>) -> bool {
    &&& url_parse(u) matches Some(p) && p.1 == u
    &&& strip_brackets(u) == u
}

} // verus!
