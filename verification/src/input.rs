//! What the menus read from a line of input: a number, an entry's position,
//! a yes or no.

use vstd::prelude::*;
use vstd::string::*;
use crate::text::{chars_of, str_eq, trim, trimmed};

verus! {

/// Why a line of input names no entry of a list.
#[derive(Debug, Clone, Copy, PartialEq, Eq, Structural)]
pub enum IndexError {
    /// The input is no number.
    NotANumber,
    /// The number is zero or greater than the list is long.
    OutOfRange,
}

/// Whether `c` is a decimal digit.
pub open spec fn is_digit(c: char) -> bool {
    '0' <= c <= '9'
}

/// Whether `s` is made of decimal digits only.
pub open spec fn all_digits(s: Seq<char>) -> bool {
    forall|i: int| 0 <= i < s.len() ==> is_digit(#[trigger] s[i])
}

/// The number that decimal digits write.
pub open spec fn decimal_value(digits: Seq<char>) -> nat
    decreases digits.len(),
{
    if digits.len() == 0 {
        0
    } else {
        (decimal_value(digits.drop_last()) * 10 + (digits.last() as u32 - '0' as u32)) as nat
    }
}

/// `s` without a leading plus sign.
pub open spec fn unsigned_part(s: Seq<char>) -> Seq<char> {
    if s.len() > 0 && s[0] == '+' {
        s.skip(1)
    } else {
        s
    }
}

/// The number that `s` writes: decimal digits, at least one, with at most one
/// plus sign before them, and a value that a `usize` holds.
pub open spec fn parsed_usize(s: Seq<char>) -> Option<usize> {
    let digits = unsigned_part(s);
    if digits.len() > 0 && all_digits(digits) && decimal_value(digits) <= usize::MAX {
        Some(decimal_value(digits) as usize)
    } else {
        None
    }
}

/// The number that `s` writes, as [`parsed_usize`], where a `u32` holds it.
pub open spec fn parsed_u32(s: Seq<char>) -> Option<u32> {
    let digits = unsigned_part(s);
    if digits.len() > 0 && all_digits(digits) && decimal_value(digits) <= u32::MAX {
        Some(decimal_value(digits) as u32)
    } else {
        None
    }
}

/// The number that `s` writes: decimal digits, at least one, with at most one
/// sign before them, and a value that an `i32` holds.
pub open spec fn parsed_i32(s: Seq<char>) -> Option<i32> {
    let negative = s.len() > 0 && s[0] == '-';
    let digits = if s.len() > 0 && (s[0] == '+' || s[0] == '-') {
        s.skip(1)
    } else {
        s
    };
    let value = if negative {
        -decimal_value(digits)
    } else {
        decimal_value(digits) as int
    };
    if digits.len() > 0 && all_digits(digits) && i32::MIN <= value <= i32::MAX {
        Some(value as i32)
    } else {
        None
    }
}

/// The position that a line of input names in a list of `len` entries, which
/// the user counts from one.
pub open spec fn named_index(input: Seq<char>, len: nat) -> Result<usize, IndexError> {
    match parsed_usize(trimmed(input)) {
        None => Err(IndexError::NotANumber),
        Some(n) => if n == 0 || n > len {
            Err(IndexError::OutOfRange)
        } else {
            Ok((n - 1) as usize)
        },
    }
}

/// Whether an answer is one of `y`, `yes`, `Y` and `Yes`, trimmed.
pub open spec fn is_yes(answer: Seq<char>) -> bool {
    let t = trimmed(answer);
    t == "y"@ || t == "yes"@ || t == "Y"@ || t == "Yes"@
}

/// More digits never write a smaller number.
pub proof fn lemma_decimal_value_grows(digits: Seq<char>, n: int)
    requires
        0 <= n <= digits.len(),
        all_digits(digits),
    ensures
        decimal_value(digits.take(n)) <= decimal_value(digits),
    decreases digits.len() - n,
{
    if n < digits.len() {
        lemma_decimal_value_grows(digits, n + 1);
        assert(digits.take(n + 1).drop_last() == digits.take(n));
    } else {
        assert(digits.take(n) == digits);
    }
}

/// The number that the digits from `start` on write, where they are digits,
/// at least one, and a `u64` holds their value.
fn digits_value(chars: &Vec<char>, start: usize) -> (n: Option<u64>)
    requires
        start <= chars.len(),
    ensures
        ({
            let digits = chars@.skip(start as int);
            n == if digits.len() > 0 && all_digits(digits) && decimal_value(digits) <= u64::MAX {
                Some(decimal_value(digits) as u64)
            } else {
                None
            }
        }),
{
    let ghost digits = chars@.skip(start as int);
    if start == chars.len() {
        return None;
    }
    let mut value: u64 = 0;
    let mut i: usize = start;
    assert(digits.take(0) == Seq::<char>::empty());
    while i < chars.len()
        invariant
            start <= i <= chars.len(),
            digits == chars@.skip(start as int),
            all_digits(digits.take(i - start)),
            value == decimal_value(digits.take(i - start)),
        decreases chars.len() - i,
    {
        let c: char = chars[i];
        let ghost seen = digits.take(i - start);
        let ghost next = digits.take(i - start + 1);
        proof {
            assert(digits[i - start] == c);
            assert(next.drop_last() == seen);
            assert(next.last() == c);
        }
        if !('0' <= c && c <= '9') {
            assert(!is_digit(digits[i - start]));
            return None;
        }
        let d: u64 = (c as u32 - '0' as u32) as u64;
        let grown = match value.checked_mul(10) {
            Some(tens) => tens.checked_add(d),
            None => None,
        };
        match grown {
            Some(v) => {
                value = v;
            },
            None => {
                proof {
                    assert(decimal_value(next) > u64::MAX);
                    if all_digits(digits) {
                        lemma_decimal_value_grows(digits, i - start + 1);
                    }
                }
                return None;
            },
        }
        proof {
            assert forall|k: int| 0 <= k < next.len() implies is_digit(#[trigger] next[k]) by {
                if k < seen.len() {
                    assert(next[k] == seen[k]);
                }
            }
        }
        i += 1;
    }
    assert(digits.take(digits.len() as int) == digits);
    Some(value)
}

/// Reads a number as `str::parse::<usize>` does.
pub fn parse_usize(s: &str) -> (n: Option<usize>)
    ensures
        n == parsed_usize(s@),
{
    let chars = chars_of(s);
    let start: usize = if chars.len() > 0 && chars[0] == '+' {
        1
    } else {
        0
    };
    assert(chars@.skip(0) == chars@);
    assert(chars@.skip(start as int) == unsigned_part(s@));
    match digits_value(&chars, start) {
        Some(v) => if v <= usize::MAX as u64 {
            Some(v as usize)
        } else {
            None
        },
        None => None,
    }
}

/// Reads a number as `str::parse::<u32>` does.
pub fn parse_u32(s: &str) -> (n: Option<u32>)
    ensures
        n == parsed_u32(s@),
{
    let chars = chars_of(s);
    let start: usize = if chars.len() > 0 && chars[0] == '+' {
        1
    } else {
        0
    };
    assert(chars@.skip(0) == chars@);
    assert(chars@.skip(start as int) == unsigned_part(s@));
    match digits_value(&chars, start) {
        Some(v) => if v <= u32::MAX as u64 {
            Some(v as u32)
        } else {
            None
        },
        None => None,
    }
}

/// Reads a number as `str::parse::<i32>` does.
pub fn parse_i32(s: &str) -> (n: Option<i32>)
    ensures
        n == parsed_i32(s@),
{
    let chars = chars_of(s);
    let negative = chars.len() > 0 && chars[0] == '-';
    let start: usize = if chars.len() > 0 && (chars[0] == '+' || chars[0] == '-') {
        1
    } else {
        0
    };
    assert(chars@.skip(0) == chars@);
    match digits_value(&chars, start) {
        Some(v) => {
            if negative {
                if v <= 2_147_483_648 {
                    Some((0 - v as i64) as i32)
                } else {
                    None
                }
            } else if v <= 2_147_483_647 {
                Some(v as i32)
            } else {
                None
            }
        },
        None => None,
    }
}

/// Reads the position that a line of input names in a list of `len` entries.
/// The line is trimmed; the user counts from one.
pub fn parse_index(input: &str, len: usize) -> (index: Result<usize, IndexError>)
    ensures
        index == named_index(input@, len as nat),
        index matches Ok(i) ==> i < len,
{
    match parse_usize(trim(input).as_str()) {
        None => Err(IndexError::NotANumber),
        Some(n) => {
            if n == 0 || n > len {
                Err(IndexError::OutOfRange)
            } else {
                Ok(n - 1)
            }
        },
    }
}

/// Whether an answer says yes.
pub fn confirms(answer: &str) -> (yes: bool)
    ensures
        yes == is_yes(answer@),
{
    let t = trim(answer);
    let word = t.as_str();
    str_eq(word, "y") || str_eq(word, "yes") || str_eq(word, "Y") || str_eq(word, "Yes")
}

} // verus!
