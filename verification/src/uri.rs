//! The tie to the URL parser of the `url` crate. Parsing is named, not
//! restated: `url_parse` stands for what `url::Url::parse` makes of given
//! text, and the one trusted wrapper relates its result to that name.

use vstd::prelude::*;

verus! {

/// What the URL parser returns on given text: `None` where parsing fails,
/// else the scheme and the canonical serialization. The result is a
/// function of the text alone.
pub uninterp spec fn url_parse(s: Seq<char>) -> Option<(Seq<char>, Seq<char>)>;

/// Relies on `url::Url::parse`, `Url::scheme` and `String::from(Url)`:
/// parses absolute URL text and hands back the scheme with the canonical
/// serialization. The last clause is the crate's own re-parse invariant
/// (its `check_invariants` asserts that parsing `as_str()` reproduces the
/// serialization), so a canonical serialization parses to itself.
#[verifier::external_body]
pub(crate) fn parse_url_parts(s: &str) -> (r: Option<(String, String)>)
    ensures
        r is Some <==> url_parse(s@) is Some,
        r matches Some(p) ==> url_parse(s@) == Some((p.0@, p.1@)),
        r matches Some(p) ==> url_parse(p.1@) == Some((p.0@, p.1@)),
{
    match url::Url::parse(s) {
        Ok(u) => {
            let scheme = u.scheme().to_string();
            Some((scheme, String::from(u)))
        },
        Err(_) => None,
    }
}

} // verus!
