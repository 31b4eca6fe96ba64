//! Decimal text form of 16-bit signed hour counts: a specification of the
//! standard decimal grammar (optional sign, one or more digits, value within
//! range), an exec renderer and parser proved against it, and the round-trip
//! law that rendering then parsing returns the original value.

use vstd::prelude::*;

verus! {

pub open spec fn is_digit(c: char) -> bool {
    48 <= c as u32 <= 57
}

pub open spec fn digit_val(c: char) -> int {
    c as u32 - 48
}

pub open spec fn digit_char(n: int) -> char {
    if n == 0 {
        '0'
    } else if n == 1 {
        '1'
    } else if n == 2 {
        '2'
    } else if n == 3 {
        '3'
    } else if n == 4 {
        '4'
    } else if n == 5 {
        '5'
    } else if n == 6 {
        '6'
    } else if n == 7 {
        '7'
    } else if n == 8 {
        '8'
    } else {
        '9'
    }
}

pub open spec fn all_digits(s: Seq<char>) -> bool {
    forall|i: int| 0 <= i < s.len() ==> is_digit(#[trigger] s[i])
}

/// Value of a digit string read most-significant first.
pub open spec fn dec_val(s: Seq<char>) -> int
    decreases s.len(),
{
    if s.len() == 0 {
        0
    } else {
        dec_val(s.drop_last()) * 10 + digit_val(s.last())
    }
}

/// Shortest digit string of a non-negative value.
pub open spec fn dec_digits(n: int) -> Seq<char>
    recommends
        n >= 0,
    decreases n,
{
    if n < 10 {
        seq![digit_char(n)]
    } else {
        dec_digits(n / 10).push(digit_char(n % 10))
    }
}

/// Decimal rendering of a 16-bit value: a minus sign for negatives, then
/// the shortest digit string of the magnitude.
pub open spec fn i16_dec(v: int) -> Seq<char>
    recommends
        i16::MIN <= v <= i16::MAX,
{
    if v < 0 {
        seq!['-'] + dec_digits(-v)
    } else {
        dec_digits(v)
    }
}

/// The decimal grammar of a 16-bit signed value: an optional `+` or `-`,
/// then one or more digits, and the signed value within the type's range.
/// `None` on any other text.
pub open spec fn i16_parse(s: Seq<char>) -> Option<i16> {
    let neg = s.len() > 0 && s[0] == '-';
    let body = if s.len() > 0 && (s[0] == '-' || s[0] == '+') {
        s.drop_first()
    } else {
        s
    };
    if body.len() == 0 || !all_digits(body) {
        None
    } else {
        let v = if neg {
            -dec_val(body)
        } else {
            dec_val(body)
        };
        if i16::MIN <= v <= i16::MAX {
            Some(v as i16)
        } else {
            None
        }
    }
}

pub proof fn lemma_dec_val_nonneg(s: Seq<char>)
    requires
        all_digits(s),
    ensures
        dec_val(s) >= 0,
    decreases s.len(),
{
    if s.len() > 0 {
        lemma_dec_val_nonneg(s.drop_last());
    }
}

/// A digit string is worth at least any of its prefixes.
pub proof fn lemma_dec_val_take_le(s: Seq<char>, i: int)
    requires
        all_digits(s),
        0 <= i <= s.len(),
    ensures
        dec_val(s.take(i)) <= dec_val(s),
    decreases s.len(),
{
    if i < s.len() {
        assert(all_digits(s.drop_last())) by {
            assert(forall|j: int|
                0 <= j < s.len() - 1 ==> s.drop_last()[j] == #[trigger] s[j]);
        }
        assert(s.take(i) =~= s.drop_last().take(i));
        lemma_dec_val_take_le(s.drop_last(), i);
        lemma_dec_val_nonneg(s.drop_last());
    } else {
        assert(s.take(i) =~= s);
    }
}

pub proof fn lemma_dec_digits_wf(n: int)
    requires
        n >= 0,
    ensures
        dec_digits(n).len() >= 1,
        all_digits(dec_digits(n)),
    decreases n,
{
    if n >= 10 {
        lemma_dec_digits_wf(n / 10);
    }
}

pub proof fn lemma_dec_val_dec_digits(n: int)
    requires
        n >= 0,
    ensures
        dec_val(dec_digits(n)) == n,
    decreases n,
{
    if n < 10 {
        assert(dec_val(Seq::<char>::empty()) == 0);
        assert(dec_digits(n).drop_last() =~= Seq::<char>::empty());
    } else {
        lemma_dec_val_dec_digits(n / 10);
        assert(dec_digits(n).drop_last() =~= dec_digits(n / 10));
    }
}

/// Rendering a 16-bit value and parsing the text back returns the value.
pub proof fn lemma_i16_parse_dec(v: int)
    requires
        i16::MIN <= v <= i16::MAX,
    ensures
        i16_parse(i16_dec(v)) == Some(v as i16),
{
    if v < 0 {
        let s = i16_dec(v);
        lemma_dec_digits_wf(-v);
        lemma_dec_val_dec_digits(-v);
        assert(s[0] == '-');
        assert(s.drop_first() =~= dec_digits(-v));
    } else {
        let s = dec_digits(v);
        lemma_dec_digits_wf(v);
        lemma_dec_val_dec_digits(v);
        assert(is_digit(s[0]));
        assert(s[0] != '-' && s[0] != '+');
    }
}

/// Appends one decimal digit character to `s`.
fn append_digit(s: &mut String, d: u32)
    requires
        d < 10,
    ensures
        final(s)@ == old(s)@ + seq![digit_char(d as int)],
{
    proof {
        reveal_strlit("0");
        reveal_strlit("1");
        reveal_strlit("2");
        reveal_strlit("3");
        reveal_strlit("4");
        reveal_strlit("5");
        reveal_strlit("6");
        reveal_strlit("7");
        reveal_strlit("8");
        reveal_strlit("9");
    }
    if d == 0 {
        s.append("0");
        proof { assert("0"@ =~= seq![digit_char(0)]); }
    } else if d == 1 {
        s.append("1");
        proof { assert("1"@ =~= seq![digit_char(1)]); }
    } else if d == 2 {
        s.append("2");
        proof { assert("2"@ =~= seq![digit_char(2)]); }
    } else if d == 3 {
        s.append("3");
        proof { assert("3"@ =~= seq![digit_char(3)]); }
    } else if d == 4 {
        s.append("4");
        proof { assert("4"@ =~= seq![digit_char(4)]); }
    } else if d == 5 {
        s.append("5");
        proof { assert("5"@ =~= seq![digit_char(5)]); }
    } else if d == 6 {
        s.append("6");
        proof { assert("6"@ =~= seq![digit_char(6)]); }
    } else if d == 7 {
        s.append("7");
        proof { assert("7"@ =~= seq![digit_char(7)]); }
    } else if d == 8 {
        s.append("8");
        proof { assert("8"@ =~= seq![digit_char(8)]); }
    } else {
        s.append("9");
        proof { assert("9"@ =~= seq![digit_char(9)]); }
    }
}

/// Appends the shortest digit string of `n`.
fn append_dec(s: &mut String, n: u32)
    requires
        n <= 0x8000,
    ensures
        final(s)@ == old(s)@ + dec_digits(n as int),
    decreases n,
{
    if n >= 10 {
        append_dec(s, n / 10);
    }
    append_digit(s, n % 10);
    proof {
        if n >= 10 {
            assert(old(s)@ + dec_digits((n / 10) as int) + seq![digit_char((n % 10) as int)]
                =~= old(s)@ + dec_digits(n as int));
        } else {
            assert(old(s)@ + seq![digit_char(n as int)] =~= old(s)@ + dec_digits(n as int));
        }
    }
}

/// Decimal text of a 16-bit signed value.
pub fn i16_to_string(v: i16) -> (s: String)
    ensures
        s@ == i16_dec(v as int),
{
    let mut s = String::new();
    if v < 0 {
        s.append("-");
        let mag: u32 = (-(v as i32)) as u32;
        append_dec(&mut s, mag);
        proof {
            reveal_strlit("-");
            assert(Seq::<char>::empty() + "-"@ + dec_digits(mag as int)
                =~= seq!['-'] + dec_digits(-(v as int)));
        }
    } else {
        append_dec(&mut s, v as u32);
        proof {
            assert(Seq::<char>::empty() + dec_digits(v as int) =~= dec_digits(v as int));
        }
    }
    s
}

/// Parses decimal text as a 16-bit signed value, by the grammar of
/// [`i16_parse`]: optional sign, one or more digits, value in range.
pub fn parse_i16(s: &str) -> (r: Option<i16>)
    ensures
        r == i16_parse(s@),
{
    let len = s.unicode_len();
    if len == 0 {
        return None;
    }
    let first = s.get_char(0);
    let neg = first == '-';
    let has_sign = neg || first == '+';
    let start: usize = if has_sign {
        1
    } else {
        0
    };
    let ghost body = if has_sign {
        s@.drop_first()
    } else {
        s@
    };
    proof {
        assert(body =~= s@.subrange(start as int, len as int));
    }
    if start == len {
        return None;
    }
    let mut i: usize = start;
    let mut acc: u32 = 0;
    while i < len
        invariant
            len == s@.len(),
            start <= i <= len,
            start < len,
            start <= 1,
            (start == 1) == (s@[0] == '-' || s@[0] == '+'),
            neg == (s@[0] == '-'),
            body == s@.subrange(start as int, len as int),
            all_digits(s@.subrange(start as int, i as int)),
            acc == dec_val(s@.subrange(start as int, i as int)),
            acc <= 0x8000,
        decreases len - i,
    {
        let c = s.get_char(i);
        let u = c as u32;
        if u < 48 || u > 57 {
            proof {
                assert(body[i - start] == s@[i as int]);
                assert(!is_digit(body[i - start]));
                assert(!all_digits(body));
                assert(i16_parse(s@) is None);
            }
            return None;
        }
        proof {
            let pre = s@.subrange(start as int, i as int);
            let ext = s@.subrange(start as int, i + 1);
            assert(ext.drop_last() =~= pre);
            assert(ext.last() == s@[i as int]);
        }
        acc = acc * 10 + (u - 48);
        if acc > 0x8000 {
            proof {
                let ext = s@.subrange(start as int, i + 1);
                if start == 0 {
                    assert(s@.subrange(0, len as int) =~= s@);
                }
                if all_digits(body) {
                    assert(ext =~= body.take(i + 1 - start));
                    lemma_dec_val_take_le(body, i + 1 - start);
                    lemma_dec_val_nonneg(body);
                    assert(dec_val(body) > 0x8000);
                }
                assert(i16_parse(s@) is None);
            }
            return None;
        }
        i += 1;
    }
    proof {
        assert(s@.subrange(start as int, i as int) =~= body);
    }
    if neg {
        let signed: i32 = -(acc as i32);
        Some(signed as i16)
    } else {
        if acc > 0x7fff {
            return None;
        }
        Some(acc as i16)
    }
}

} // verus!
