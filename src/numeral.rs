//! Reading the id field: an optionally signed decimal numeral.

use vstd::prelude::*;

verus! {

/// Whether `c` is an ASCII decimal digit.
pub open spec fn is_digit(c: char) -> bool {
    '0' <= c <= '9'
}

/// Whether `s` is one or more ASCII decimal digits.
pub open spec fn all_digits(s: Seq<char>) -> bool {
    s.len() > 0 && forall|i: int| 0 <= i < s.len() ==> is_digit(#[trigger] s[i])
}

/// The number that a sequence of decimal digits denotes.
pub open spec fn digits_value(s: Seq<char>) -> int
    decreases s.len(),
{
    if s.len() == 0 {
        0
    } else {
        digits_value(s.drop_last()) * 10 + (s.last() as int - '0' as int)
    }
}

/// The value of an optionally signed decimal numeral (a `+` or `-` followed by
/// digits, or digits alone), of any size; `None` for any other text.
pub open spec fn numeral_value(s: Seq<char>) -> Option<int> {
    if s.len() > 0 && (s[0] == '+' || s[0] == '-') && all_digits(s.drop_first()) {
        if s[0] == '-' {
            Some(-digits_value(s.drop_first()))
        } else {
            Some(digits_value(s.drop_first()))
        }
    } else if all_digits(s) {
        Some(digits_value(s))
    } else {
        None
    }
}

/// What the id field of an insert reads as.
#[derive(Debug, Clone, Copy, PartialEq, Eq, Structural)]
pub enum IdField {
    /// A numeral whose value is a valid id.
    Valid(u32),
    /// A numeral whose value is below zero and fits in `i64`.
    Negative,
    /// Not a numeral, or one whose value is outside `i64`, or a value above
    /// `u32::MAX`.
    Malformed,
}

/// How the id field `s` reads: numerals are taken as `i64` values, as the
/// standard library's `i64::from_str` takes them; a value outside `i64` is
/// malformed, and so is one that is too large for an id.
pub open spec fn id_field(s: Seq<char>) -> IdField {
    match numeral_value(s) {
        None => IdField::Malformed,
        Some(v) => if v < i64::MIN || v > i64::MAX {
            IdField::Malformed
        } else if v < 0 {
            IdField::Negative
        } else if v > u32::MAX {
            IdField::Malformed
        } else {
            IdField::Valid(v as u32)
        },
    }
}

/// One past the largest magnitude of a negative `i64`, `2^63`.
const I64_NEG_LIMIT: u128 = 0x8000_0000_0000_0000;

/// Adding a digit never makes a digit string's value smaller.
proof fn lemma_digits_value_push(s: Seq<char>, c: char)
    requires
        is_digit(c),
    ensures
        digits_value(s.push(c)) == digits_value(s) * 10 + (c as int - '0' as int),
{
    assert(s.push(c).drop_last() =~= s);
}

/// Reads the id field of an insert.
pub fn parse_id(s: &str) -> (r: IdField)
    ensures
        r == id_field(s@),
{
    let n = s.unicode_len();
    if n == 0 {
        return IdField::Malformed;
    }
    let first = s.get_char(0);
    let negative = first == '-';
    let start: usize = if first == '-' || first == '+' { 1 } else { 0 };
    if start == n {
        return IdField::Malformed;
    }
    let ghost body = s@.subrange(start as int, n as int);
    // `acc` holds the value of the digits read so far until it passes 2^63;
    // from then on only `big` records that it has.
    let mut acc: u128 = 0;
    let mut big = false;
    let mut i: usize = start;
    while i < n
        invariant
            n == s@.len(),
            n > 0,
            first == s@[0],
            negative == (first == '-'),
            start == (if first == '-' || first == '+' { 1usize } else { 0usize }),
            start <= i <= n,
            body == s@.subrange(start as int, n as int),
            forall|j: int| start <= j < i ==> is_digit(#[trigger] s@[j]),
            big ==> digits_value(s@.subrange(start as int, i as int)) > I64_NEG_LIMIT,
            !big ==> acc == digits_value(s@.subrange(start as int, i as int)) && acc
                <= I64_NEG_LIMIT,
        decreases n - i,
    {
        let c = s.get_char(i);
        if !(c >= '0' && c <= '9') {
            proof {
                assert(body[i - start] == c);
                assert(!all_digits(body));
                if start == 1 {
                    assert(s@.drop_first() =~= body);
                    assert(!is_digit(s@[0]));
                } else {
                    assert(s@ =~= body);
                    assert(s@[0] != '+' && s@[0] != '-');
                }
            }
            return IdField::Malformed;
        }
        proof {
            let pre = s@.subrange(start as int, i as int);
            assert(s@.subrange(start as int, i + 1) =~= pre.push(c));
            lemma_digits_value_push(pre, c);
        }
        if !big {
            acc = acc * 10 + (c as u128 - '0' as u128);
            if acc > I64_NEG_LIMIT {
                big = true;
            }
        }
        i = i + 1;
    }
    proof {
        assert(s@.subrange(start as int, n as int) == body);
        assert(all_digits(body));
        if start == 1 {
            assert(s@.drop_first() =~= body);
        } else {
            assert(s@ =~= body);
            assert(s@[0] != '+' && s@[0] != '-');
        }
    }
    if big {
        return IdField::Malformed;
    }
    if negative {
        if acc == 0 {
            IdField::Valid(0)
        } else {
            IdField::Negative
        }
    } else if acc > u32::MAX as u128 {
        IdField::Malformed
    } else {
        IdField::Valid(acc as u32)
    }
}

} // verus!
