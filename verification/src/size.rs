//! Sizes written as a number and a unit, such as `20KB` or `1MB`.

use vstd::prelude::*;
use crate::text::{chars_of, has_suffix};

verus! {

/// Upper-case ASCII letters.
pub open spec fn is_upper(c: char) -> bool {
    'A' <= c <= 'Z'
}

/// Decimal digits.
pub open spec fn is_digit(c: char) -> bool {
    '0' <= c <= '9'
}

/// `s` without its trailing upper-case letters.
pub open spec fn skip_trailing_upper(s: Seq<char>) -> Seq<char>
    decreases s.len(),
{
    if s.len() > 0 && is_upper(s.last()) {
        skip_trailing_upper(s.drop_last())
    } else {
        s
    }
}

/// The number a sequence of digits stands for.
pub open spec fn digits_value(s: Seq<char>) -> nat
    decreases s.len(),
{
    if s.len() == 0 {
        0
    } else {
        digits_value(s.drop_last()) * 10 + (s.last() as nat - '0' as nat) as nat
    }
}

/// Tells whether every character is a digit.
pub open spec fn all_digits(s: Seq<char>) -> bool {
    forall|i: int| 0 <= i < s.len() ==> is_digit(#[trigger] s[i])
}

/// The digits of a number: the text itself, or what follows a leading `+`.
pub open spec fn unsigned_part(s: Seq<char>) -> Seq<char> {
    if s.len() > 0 && s[0] == '+' {
        s.drop_first()
    } else {
        s
    }
}

/// The number a text stands for: an optional `+` and at least one digit,
/// of a value that fits the machine word.
pub open spec fn parsed_number(s: Seq<char>) -> Option<nat> {
    let digits = unsigned_part(s);
    if digits.len() > 0 && all_digits(digits) && digits_value(digits) <= usize::MAX {
        Some(digits_value(digits))
    } else {
        None
    }
}

/// The number of bytes in one unit: by the ending of the text, a mebibyte,
/// a kibibyte, or a byte.
pub open spec fn unit_bytes(s: Seq<char>) -> nat {
    if "MB"@.is_suffix_of(s) {
        1048576
    } else if "KB"@.is_suffix_of(s) {
        1024
    } else {
        1
    }
}

/// The size a text stands for, in bytes; zero where its number does not
/// parse.
pub open spec fn size_bytes(s: Seq<char>) -> nat {
    match parsed_number(skip_trailing_upper(s)) {
        Some(n) => unit_bytes(s) * n,
        None => 0,
    }
}

/// The value of a prefix of digits is at most the value of all of them.
pub proof fn lemma_digits_value_grows(s: Seq<char>, n: int)
    requires
        0 <= n <= s.len(),
        all_digits(s),
    ensures
        digits_value(s.subrange(0, n)) <= digits_value(s),
    decreases s.len() - n,
{
    if n == s.len() {
        assert(s.subrange(0, n) =~= s);
    } else {
        lemma_digits_value_grows(s, n + 1);
        assert(s.subrange(0, n + 1).drop_last() =~= s.subrange(0, n));
        assert(is_digit(s[n]));
        assert(s.subrange(0, n + 1).last() == s[n]);
    }
}

/// One past the index of the last character of `v` that is not an
/// upper-case letter.
fn trailing_upper_start(v: &Vec<char>) -> (end: usize)
    ensures
        end <= v.len(),
        skip_trailing_upper(v@) == v@.subrange(0, end as int),
{
    let mut end: usize = v.len();
    assert(v@.subrange(0, v.len() as int) =~= v@);
    while end > 0 && 'A' <= v[end - 1] && v[end - 1] <= 'Z'
        invariant
            end <= v.len(),
            skip_trailing_upper(v@) == skip_trailing_upper(v@.subrange(0, end as int)),
        decreases end,
    {
        assert(v@.subrange(0, end as int).drop_last() =~= v@.subrange(0, end - 1));
        end = end - 1;
    }
    end
}

/// The number that the characters of `v` before index `end` stand for.
fn parse_number(v: &Vec<char>, end: usize) -> (r: Option<usize>)
    requires
        end <= v.len(),
    ensures
        match parsed_number(v@.subrange(0, end as int)) {
            Some(n) => r == Some(n as usize),
            None => r is None,
        },
{
    let ghost text = v@.subrange(0, end as int);
    let start: usize = if end > 0 && v[0] == '+' {
        1
    } else {
        0
    };
    let ghost digits = unsigned_part(text);
    assert(digits =~= v@.subrange(start as int, end as int));
    if start == end {
        return None;
    }
    let mut value: usize = 0;
    let mut i: usize = start;
    assert(digits.subrange(0, 0) =~= Seq::<char>::empty());
    while i < end
        invariant
            start <= i <= end <= v.len(),
            digits == v@.subrange(start as int, end as int),
            text == v@.subrange(0, end as int),
            digits == unsigned_part(text),
            all_digits(digits.subrange(0, i - start)),
            value == digits_value(digits.subrange(0, i - start)),
        decreases end - i,
    {
        let c = v[i];
        if !('0' <= c && c <= '9') {
            assert(!is_digit(digits[i - start]));
            return None;
        }
        let d: usize = (c as u32 - '0' as u32) as usize;
        proof {
            assert(digits.subrange(0, i + 1 - start).drop_last() =~= digits.subrange(
                0,
                i - start,
            ));
            assert(digits.subrange(0, i + 1 - start).last() == c);
            assert forall|k: int| 0 <= k < i + 1 - start implies is_digit(
                #[trigger] digits.subrange(0, i + 1 - start)[k],
            ) by {
                if k < i - start {
                    assert(digits.subrange(0, i - start)[k] == digits[k]);
                }
            }
        }
        if value > (usize::MAX - d) / 10 {
            proof {
                if all_digits(digits) {
                    lemma_digits_value_grows(digits, i + 1 - start);
                }
            }
            return None;
        }
        value = value * 10 + d;
        i = i + 1;
    }
    assert(digits.subrange(0, end - start) =~= digits);
    Some(value)
}

/// The size that `text` stands for, in bytes: its number times its unit,
/// zero where the number does not parse, and the largest machine word where
/// the product exceeds it.
pub fn parse_size(text: &str) -> (bytes: usize)
    ensures
        bytes == if size_bytes(text@) <= usize::MAX {
            size_bytes(text@)
        } else {
            usize::MAX as nat
        },
{
    let v = chars_of(text);
    let unit: usize = if has_suffix(&v, &chars_of("MB")) {
        1048576
    } else if has_suffix(&v, &chars_of("KB")) {
        1024
    } else {
        1
    };
    let end = trailing_upper_start(&v);
    match parse_number(&v, end) {
        Some(n) => {
            if n > usize::MAX / unit {
                assert(unit * n > usize::MAX) by (nonlinear_arith)
                    requires
                        n > usize::MAX / unit,
                        unit > 0,
                ;
                usize::MAX
            } else {
                assert(unit * n <= usize::MAX) by (nonlinear_arith)
                    requires
                        n <= usize::MAX / unit,
                        unit > 0,
                ;
                unit * n
            }
        },
        None => 0,
    }
}

} // verus!
