use crate::text::to_chars;
use vstd::prelude::*;

verus! {

/// Whether `c` is one of the ten decimal digits.
pub open spec fn is_digit(c: char) -> bool {
    '0' <= c && c <= '9'
}

/// The number that a decimal digit stands for.
pub open spec fn digit_value(c: char) -> int {
    c as int - '0' as int
}

/// Whether every character of `s` is a decimal digit.
pub open spec fn all_digits(s: Seq<char>) -> bool {
    forall|i: int| 0 <= i < s.len() ==> is_digit(#[trigger] s[i])
}

/// The number that a run of decimal digits denotes; leading zeros count for
/// nothing.
pub open spec fn decimal_value(s: Seq<char>) -> int
    decreases s.len(),
{
    if s.len() == 0 {
        0
    } else {
        decimal_value(s.drop_last()) * 10 + digit_value(s.last())
    }
}

/// The integer that a literal with an optional sign denotes: an optional `+`
/// or `-`, then at least one digit and nothing else. With `signed` false a
/// `-` is no sign.
pub open spec fn literal_value(s: Seq<char>, signed: bool) -> Option<int> {
    if s.len() == 0 {
        None
    } else {
        let negative = signed && s[0] == '-';
        let digits = if negative || s[0] == '+' {
            s.skip(1)
        } else {
            s
        };
        if digits.len() == 0 || !all_digits(digits) {
            None
        } else if negative {
            Some(-decimal_value(digits))
        } else {
            Some(decimal_value(digits))
        }
    }
}

/// The sixteen-bit value of a literal, if it is well formed and fits.
pub open spec fn word_literal(s: Seq<char>) -> Option<i16> {
    match literal_value(s, true) {
        Some(v) => if i16::MIN <= v <= i16::MAX {
            Some(v as i16)
        } else {
            None
        },
        None => None,
    }
}

/// The element count that a literal denotes, if it is well formed and fits.
pub open spec fn count_literal(s: Seq<char>) -> Option<usize> {
    match literal_value(s, false) {
        Some(v) => if v <= usize::MAX {
            Some(v as usize)
        } else {
            None
        },
        None => None,
    }
}

/// A run of digits denotes no negative number.
pub proof fn lemma_decimal_value_bounds(s: Seq<char>)
    requires
        all_digits(s),
    ensures
        decimal_value(s) >= 0,
    decreases s.len(),
{
    if s.len() > 0 {
        assert(is_digit(s[s.len() - 1]));
        assert forall|i: int| 0 <= i < s.drop_last().len() implies is_digit(
            #[trigger] s.drop_last()[i],
        ) by {
            assert(is_digit(s[i]));
        }
        lemma_decimal_value_bounds(s.drop_last());
    }
}

/// Reads the digits of `text` from position `start` on. Gives the number
/// they denote if all of them are digits and the number is at most `limit`.
fn read_digits(text: &Vec<char>, start: usize, limit: u64) -> (out: Option<u64>)
    requires
        start <= text.len(),
    ensures
        out matches Some(v) ==> v <= limit,
        out == (if all_digits(text@.skip(start as int)) && decimal_value(text@.skip(start as int))
            <= limit {
            Some(decimal_value(text@.skip(start as int)) as u64)
        } else {
            None::<u64>
        }),
{
    let ghost digits = text@.skip(start as int);
    let mut value: u128 = 0;
    let mut valid = true;
    let mut i: usize = start;
    while i < text.len()
        invariant
            start <= i <= text.len(),
            digits == text@.skip(start as int),
            valid == all_digits(digits.take(i - start)),
            valid ==> decimal_value(digits.take(i - start)) >= 0,
            valid ==> value <= limit + 1,
            valid && value <= limit ==> value == decimal_value(digits.take(i - start)),
            valid && value > limit ==> decimal_value(digits.take(i - start)) > limit,
        decreases text.len() - i,
    {
        let c = text[i];
        let ghost before = digits.take(i - start);
        let ghost after = digits.take(i - start + 1);
        proof {
            assert(after.drop_last() == before);
            assert(after.last() == c);
            assert(after[after.len() - 1] == c);
        }
        if valid && '0' <= c && c <= '9' {
            let digit: u128 = (c as u32 - '0' as u32) as u128;
            assert(digit == digit_value(c));
            if value <= limit as u128 {
                let next: u128 = value * 10 + digit;
                value = if next > limit as u128 {
                    limit as u128 + 1
                } else {
                    next
                };
            }
            proof {
                assert forall|k: int| 0 <= k < after.len() implies is_digit(#[trigger] after[k]) by {
                    if k < after.len() - 1 {
                        assert(before[k] == after[k]);
                    }
                }
            }
        } else {
            proof {
                if valid {
                    assert(!is_digit(after[after.len() - 1]));
                } else {
                    let k = choose|k: int| 0 <= k < before.len() && !is_digit(#[trigger] before[k]);
                    assert(after[k] == before[k]);
                }
            }
            valid = false;
        }
        i += 1;
    }
    proof {
        assert(digits.take(text.len() - start) == digits);
    }
    if valid && value <= limit as u128 {
        Some(value as u64)
    } else {
        None
    }
}

/// Reads a signed sixteen-bit literal: an optional sign, then digits.
pub fn parse_word(s: &str) -> (out: Option<i16>)
    ensures
        out == word_literal(s@),
{
    let text = to_chars(s);
    if text.len() == 0 {
        return None;
    }
    let negative = text[0] == '-';
    let start: usize = if negative || text[0] == '+' {
        1
    } else {
        0
    };
    proof {
        assert(text@.skip(0) == text@);
    }
    if text.len() == start {
        return None;
    }
    proof {
        if all_digits(text@.skip(start as int)) {
            lemma_decimal_value_bounds(text@.skip(start as int));
        }
    }
    match read_digits(&text, start, 0x8000) {
        None => None,
        Some(magnitude) => {
            if negative {
                Some((0 - magnitude as i32) as i16)
            } else if magnitude <= 0x7fff {
                Some(magnitude as i16)
            } else {
                None
            }
        },
    }
}

/// Reads an element count: an optional `+`, then digits.
pub fn parse_count(s: &str) -> (out: Option<usize>)
    ensures
        out == count_literal(s@),
{
    let text = to_chars(s);
    if text.len() == 0 {
        return None;
    }
    let start: usize = if text[0] == '+' {
        1
    } else {
        0
    };
    proof {
        assert(text@.skip(0) == text@);
    }
    if text.len() == start {
        return None;
    }
    proof {
        if all_digits(text@.skip(start as int)) {
            lemma_decimal_value_bounds(text@.skip(start as int));
        }
    }
    match read_digits(&text, start, usize::MAX as u64) {
        None => None,
        Some(count) => Some(count as usize),
    }
}

} // verus!
