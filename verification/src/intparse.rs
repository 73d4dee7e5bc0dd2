//! Parsing a signed decimal integer from element text, exactly as the
//! statement's declared sequence number demands it: an optional `+` or `-`
//! sign followed by one or more ASCII digits, the value within `i64` range.
//! Anything else is malformed.

use vstd::prelude::*;

verus! {

/// An ASCII decimal digit.
pub open spec fn is_dec_digit(c: char) -> bool {
    '0' as u32 <= c as u32 && c as u32 <= '9' as u32
}

/// The numeric value of one digit character.
pub open spec fn digit_val(c: char) -> int {
    c as u32 - '0' as u32
}

/// Every character of `s` is a decimal digit.
pub open spec fn all_dec_digits(s: Seq<char>) -> bool {
    forall|i: int| 0 <= i < s.len() ==> is_dec_digit(s[i])
}

/// The value of a digit string read most-significant first.
pub open spec fn dec_value(s: Seq<char>) -> int
    decreases s.len(),
{
    if s.len() == 0 {
        0
    } else {
        dec_value(s.drop_last()) * 10 + digit_val(s.last())
    }
}

/// A digit string never has a negative value.
pub proof fn lemma_dec_value_nonneg(s: Seq<char>)
    requires
        all_dec_digits(s),
    ensures
        dec_value(s) >= 0,
    decreases s.len(),
{
    if s.len() > 0 {
        lemma_dec_value_nonneg(s.drop_last());
    }
}

/// Whether `s` starts with an explicit sign character.
pub open spec fn has_sign(s: Seq<char>) -> bool {
    s.len() > 0 && (s[0] == '+' || s[0] == '-')
}

/// The digit portion of `s`: everything past the sign, if there is one.
pub open spec fn spec_digits(s: Seq<char>) -> Seq<char> {
    if has_sign(s) {
        s.drop_first()
    } else {
        s
    }
}

/// Whether `s` denotes a negative number.
pub open spec fn spec_neg(s: Seq<char>) -> bool {
    s.len() > 0 && s[0] == '-'
}

/// What parsing `s` as an `i64` yields: `None` on an empty digit string, a
/// non-digit character, or a value outside the `i64` range.
pub open spec fn spec_parse_i64(s: Seq<char>) -> Option<i64> {
    let ds = spec_digits(s);
    if ds.len() == 0 || !all_dec_digits(ds) {
        None
    } else {
        let v = if spec_neg(s) {
            -dec_value(ds)
        } else {
            dec_value(ds)
        };
        if i64::MIN <= v && v <= i64::MAX {
            Some(v as i64)
        } else {
            None
        }
    }
}

/// Parses `s` as a signed decimal `i64`, as `spec_parse_i64` describes.
pub fn parse_i64(s: &str) -> (r: Option<i64>)
    ensures
        r == spec_parse_i64(s@),
{
    let len = s.unicode_len();
    if len == 0 {
        return None;
    }
    let c0 = s.get_char(0);
    let neg = c0 == '-';
    let start: usize = if c0 == '-' || c0 == '+' {
        1
    } else {
        0
    };
    proof {
        assert(spec_digits(s@) =~= s@.skip(start as int));
    }
    if start == len {
        return None;
    }
    let ghost ds = s@.skip(start as int);
    let mut mag: u128 = 0;
    let mut over = false;
    let mut i: usize = start;
    while i < len
        invariant
            start <= i <= len,
            len == s@.len(),
            start <= 1,
            ds == s@.skip(start as int),
            spec_digits(s@) == ds,
            spec_neg(s@) == neg,
            ds.len() > 0,
            all_dec_digits(ds.take(i - start)),
            !over ==> mag == dec_value(ds.take(i - start)) && mag <= 9223372036854775808u128,
            over ==> dec_value(ds.take(i - start)) > 9223372036854775808,
        decreases len - i,
    {
        let c = s.get_char(i);
        let u = c as u32;
        if u < 48 || u > 57 {
            proof {
                assert(ds[i - start] == s@[i as int]);
                assert(!is_dec_digit(ds[i - start]));
                assert(!all_dec_digits(ds));
            }
            return None;
        }
        let d = (u - 48) as u128;
        proof {
            assert(ds.take(i + 1 - start).drop_last() =~= ds.take(i - start));
            assert(ds.take(i + 1 - start).last() == s@[i as int]);
            lemma_dec_value_nonneg(ds.take(i - start));
        }
        if !over {
            mag = mag * 10 + d;
            if mag > 9223372036854775808u128 {
                over = true;
            }
        }
        i = i + 1;
    }
    proof {
        assert(ds.take(len - start) =~= ds);
    }
    if over {
        proof {
            lemma_dec_value_nonneg(ds);
        }
        return None;
    }
    if neg {
        if mag == 9223372036854775808u128 {
            Some(i64::MIN)
        } else {
            Some(-(mag as i64))
        }
    } else {
        if mag >= 9223372036854775808u128 {
            None
        } else {
            Some(mag as i64)
        }
    }
}

} // verus!
