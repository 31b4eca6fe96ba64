//! Small verified helpers on strings: content equality, prefix tests, and
//! the stripping of the single angle-bracket pair that the chat platform
//! wraps around posted links.

use vstd::prelude::*;

verus! {

/// Content equality of two string slices.
pub fn str_eq(a: &str, b: &str) -> (r: bool)
    ensures
        r == (a@ == b@),
{
    let alen = a.unicode_len();
    let blen = b.unicode_len();
    if alen != blen {
        return false;
    }
    let mut i: usize = 0;
    while i < alen
        invariant
            alen == a@.len(),
            blen == b@.len(),
            alen == blen,
            i <= alen,
            forall|j: int| 0 <= j < i ==> a@[j] == b@[j],
        decreases alen - i,
    {
        if a.get_char(i) != b.get_char(i) {
            return false;
        }
        i += 1;
    }
    proof {
        assert(a@ =~= b@);
    }
    true
}

/// True when `s` begins with `prefix`, character for character.
pub open spec fn starts_with(s: Seq<char>, prefix: Seq<char>) -> bool {
    prefix.len() <= s.len() && s.subrange(0, prefix.len() as int) == prefix
}

/// Prefix test on string slices.
pub fn str_starts_with(s: &str, prefix: &str) -> (r: bool)
    ensures
        r == starts_with(s@, prefix@),
{
    let plen = prefix.unicode_len();
    let slen = s.unicode_len();
    if plen > slen {
        return false;
    }
    let mut i: usize = 0;
    while i < plen
        invariant
            plen == prefix@.len(),
            slen == s@.len(),
            plen <= slen,
            i <= plen,
            forall|j: int| 0 <= j < i ==> s@[j] == prefix@[j],
        decreases plen - i,
    {
        if s.get_char(i) != prefix.get_char(i) {
            proof {
                assert(s@.subrange(0, plen as int)[i as int] == s@[i as int]);
            }
            return false;
        }
        i += 1;
    }
    proof {
        assert(s@.subrange(0, plen as int) =~= prefix@);
    }
    true
}

/// Removes one leading `<` and one trailing `>` from `s`, where present.
pub open spec fn strip_brackets(s: Seq<char>) -> Seq<char> {
    let t = if s.len() > 0 && s[0] == '<' {
        s.drop_first()
    } else {
        s
    };
    if t.len() > 0 && t.last() == '>' {
        t.drop_last()
    } else {
        t
    }
}

/// Removes the single angle-bracket pair that the chat platform wraps
/// around posted links, where present.
pub fn strip_url_brackets(s: &str) -> (r: String)
    ensures
        r@ == strip_brackets(s@),
{
    let len = s.unicode_len();
    let start: usize = if len > 0 && s.get_char(0) == '<' {
        1
    } else {
        0
    };
    let end: usize = if len > start && s.get_char(len - 1) == '>' {
        len - 1
    } else {
        len
    };
    let sub = s.substring_char(start, end);
    proof {
        let t = if s@.len() > 0 && s@[0] == '<' {
            s@.drop_first()
        } else {
            s@
        };
        assert(t =~= s@.subrange(start as int, len as int));
        if t.len() > 0 && t.last() == '>' {
            assert(s@.subrange(start as int, end as int) =~= t.drop_last());
        } else {
            assert(s@.subrange(start as int, end as int) =~= t);
        }
    }
    sub.to_owned()
}

} // verus!
