//! Signed decimal integers written as text.

use crate::text::chars_of;
use vstd::prelude::*;

verus! {

/// Why a text is not a signed 64-bit decimal integer.
#[derive(Clone, Copy, Debug, PartialEq, Eq, Structural)]
pub enum NumberError {
    /// The text is empty.
    Empty,
    /// A character is not a decimal digit, or a sign stands alone.
    InvalidDigit,
    /// The digits denote a number above `i64::MAX`.
    PosOverflow,
    /// The digits denote a number below `i64::MIN`.
    NegOverflow,
}

/// Whether `c` is one of the ten ASCII digits.
pub open spec fn is_digit(c: char) -> bool {
    48 <= c as u32 <= 57
}

/// The number that the digit `c` stands for.
pub open spec fn digit_value(c: char) -> int {
    c as u32 - 48
}

/// The number that the digits `s` denote in base ten; 0 for no digits.
pub open spec fn digits_value(s: Seq<char>) -> int
    decreases s.len(),
{
    if s.len() == 0 {
        0
    } else {
        digits_value(s.drop_last()) * 10 + digit_value(s.last())
    }
}

/// How many digits `s` starts with.
pub open spec fn digit_run(s: Seq<char>) -> nat
    decreases s.len(),
{
    if s.len() > 0 && is_digit(s[0]) {
        1 + digit_run(s.drop_first())
    } else {
        0
    }
}

/// Whether `s` starts with a sign.
pub open spec fn has_sign(s: Seq<char>) -> bool {
    s.len() > 0 && (s[0] == '+' || s[0] == '-')
}

/// What `s` says as a signed 64-bit decimal integer: an optional `+` or `-`,
/// then digits and nothing else.
///
/// The digits are read from the left. A number that leaves the range of `i64`
/// while digits are read is reported as an overflow, even if a character that
/// is no digit follows later.
pub open spec fn decimal_reading(s: Seq<char>) -> Result<int, NumberError> {
    if s.len() == 0 {
        Err(NumberError::Empty)
    } else if s.len() == 1 && has_sign(s) {
        Err(NumberError::InvalidDigit)
    } else {
        let digits = if has_sign(s) {
            s.drop_first()
        } else {
            s
        };
        let run = digit_run(digits);
        let magnitude = digits_value(digits.take(run as int));
        let value = if s[0] == '-' {
            -magnitude
        } else {
            magnitude
        };
        if value > i64::MAX {
            Err(NumberError::PosOverflow)
        } else if value < i64::MIN {
            Err(NumberError::NegOverflow)
        } else if run < digits.len() {
            Err(NumberError::InvalidDigit)
        } else {
            Ok(value)
        }
    }
}

/// The digit that stands for `d`, for `d` from 0 to 9.
pub open spec fn digit_char(d: int) -> char {
    ((48 + d) as u32) as char
}

/// The digits of `n` in base ten, without leading zeros; `0` for zero.
pub open spec fn digits_text(n: nat) -> Seq<char>
    decreases n,
{
    if n < 10 {
        seq![digit_char(n as int)]
    } else {
        digits_text(n / 10).push(digit_char(n as int % 10))
    }
}

/// The integer `n` written in base ten, with `-` before a negative one.
pub open spec fn decimal_text(n: int) -> Seq<char> {
    if n < 0 {
        seq!['-'] + digits_text((-n) as nat)
    } else {
        digits_text(n as nat)
    }
}

/// The first `k` characters of `s` are digits and the next one, if there is
/// one, is not: then `s` starts with exactly `k` digits.
pub proof fn lemma_digit_run(s: Seq<char>, k: int)
    requires
        0 <= k <= s.len(),
        forall|i: int| 0 <= i < k ==> is_digit(#[trigger] s[i]),
        k < s.len() ==> !is_digit(s[k]),
    ensures
        digit_run(s) == k,
    decreases k,
{
    if k > 0 {
        let rest = s.drop_first();
        assert forall|i: int| 0 <= i < k - 1 implies is_digit(#[trigger] rest[i]) by {
            assert(rest[i] == s[i + 1]);
        }
        lemma_digit_run(rest, k - 1);
    }
}

/// `s` starts with at least `k` digits when its first `k` characters are digits.
pub proof fn lemma_digit_run_at_least(s: Seq<char>, k: int)
    requires
        0 <= k <= s.len(),
        forall|i: int| 0 <= i < k ==> is_digit(#[trigger] s[i]),
    ensures
        k <= digit_run(s) <= s.len(),
        forall|i: int| 0 <= i < digit_run(s) ==> is_digit(#[trigger] s[i]),
    decreases s.len(),
{
    if s.len() > 0 && is_digit(s[0]) {
        let rest = s.drop_first();
        let shorter = if k > 0 {
            k - 1
        } else {
            0
        };
        assert forall|i: int| 0 <= i < shorter implies is_digit(#[trigger] rest[i]) by {
            assert(rest[i] == s[i + 1]);
        }
        lemma_digit_run_at_least(rest, shorter);
        assert forall|i: int| 0 <= i < digit_run(s) implies is_digit(#[trigger] s[i]) by {
            if i > 0 {
                assert(s[i] == rest[i - 1]);
            }
        }
    }
}

/// Reading more digits never gives a smaller number.
pub proof fn lemma_digits_value_grows(s: Seq<char>, j: int, k: int)
    requires
        0 <= j <= k <= s.len(),
        forall|i: int| 0 <= i < k ==> is_digit(#[trigger] s[i]),
    ensures
        0 <= digits_value(s.take(j)) <= digits_value(s.take(k)),
    decreases k,
{
    if k == 0 {
        assert(s.take(0).len() == 0);
    } else {
        let head = s.take(k);
        assert(head.drop_last() == s.take(k - 1));
        assert(head.last() == s[k - 1]);
        if j < k {
            lemma_digits_value_grows(s, j, k - 1);
        } else {
            lemma_digits_value_grows(s, k - 1, k - 1);
        }
    }
}

/// A text that reads as an integer is made of digits, after at most one sign,
/// and ends with a digit.
pub proof fn lemma_decimal_shape(s: Seq<char>)
    requires
        decimal_reading(s) is Ok,
    ensures
        s.len() > 0,
        is_digit(s.last()),
        forall|i: int| 0 <= i < s.len() ==> is_digit(#[trigger] s[i]) || (i == 0 && has_sign(s)),
{
    let digits = if has_sign(s) {
        s.drop_first()
    } else {
        s
    };
    lemma_digit_run_at_least(digits, 0);
    assert forall|i: int| 0 <= i < s.len() implies is_digit(#[trigger] s[i]) || (i == 0
        && has_sign(s)) by {
        if has_sign(s) {
            if i > 0 {
                assert(s[i] == digits[i - 1]);
            }
        }
    }
    assert(s.last() == digits.last());
}

/// The digits of a number are digits, and denote that number.
pub proof fn lemma_digits_text(n: nat)
    ensures
        digits_text(n).len() > 0,
        forall|i: int| 0 <= i < digits_text(n).len() ==> is_digit(#[trigger] digits_text(n)[i]),
        digits_value(digits_text(n)) == n,
    decreases n,
{
    if n < 10 {
        let s = digits_text(n);
        assert(digits_value(s.drop_last()) == 0);
        assert(digit_value(s.last()) == n);
    } else {
        let head = digits_text(n / 10);
        lemma_digits_text(n / 10);
        assert(digits_text(n).drop_last() == head);
        assert(digit_value(digits_text(n).last()) == n % 10);
    }
}

/// An integer of 64 bits, written in base ten, reads as itself.
pub proof fn lemma_decimal_text_reads_back(n: int)
    requires
        i64::MIN <= n <= i64::MAX,
    ensures
        decimal_reading(decimal_text(n)) == Ok::<int, NumberError>(n),
{
    let s = decimal_text(n);
    let magnitude = if n < 0 {
        (-n) as nat
    } else {
        n as nat
    };
    let digits = digits_text(magnitude);
    lemma_digits_text(magnitude);
    lemma_digit_run(digits, digits.len() as int);
    assert(digits.take(digits.len() as int) == digits);
    if n < 0 {
        assert(s.drop_first() == digits);
    } else {
        assert(is_digit(s[0]));
    }
}

/// Tells whether `c` is one of the ten ASCII digits.
pub fn is_decimal_digit(c: char) -> (b: bool)
    ensures
        b == is_digit(c),
{
    let u: u32 = c as u32;
    48 <= u && u <= 57
}

/// Reads `text` as a signed 64-bit decimal integer.
#[verifier::loop_isolation(false)]
pub fn parse_i64(text: &str) -> (r: Result<i64, NumberError>)
    ensures
        match r {
            Ok(v) => decimal_reading(text@) == Ok::<int, NumberError>(v as int),
            Err(e) => decimal_reading(text@) == Err::<int, NumberError>(e),
        },
{
    let chars = chars_of(text);
    let n = chars.len();
    if n == 0 {
        return Err(NumberError::Empty);
    }
    let first = chars[0];
    let signed = first == '+' || first == '-';
    if n == 1 && signed {
        return Err(NumberError::InvalidDigit);
    }
    let negative = first == '-';
    let start: usize = if signed {
        1
    } else {
        0
    };
    let ghost digits = if signed {
        chars@.drop_first()
    } else {
        chars@
    };
    let mut value: i64 = 0;
    let mut i: usize = start;
    proof {
        assert(digits.take(0).len() == 0);
    }
    while i < n
        invariant
            start <= i <= n,
            forall|j: int| 0 <= j < i - start ==> is_digit(#[trigger] digits[j]),
            value == if negative {
                -digits_value(digits.take(i - start))
            } else {
                digits_value(digits.take(i - start))
            },
        decreases n - i,
    {
        let c = chars[i];
        let ghost k = i - start;
        if !is_decimal_digit(c) {
            proof {
                lemma_digit_run(digits, k);
            }
            return Err(NumberError::InvalidDigit);
        }
        let digit: i64 = (c as u32 - 48) as i64;
        let next = match value.checked_mul(10) {
            Some(tens) => if negative {
                tens.checked_sub(digit)
            } else {
                tens.checked_add(digit)
            },
            None => None,
        };
        proof {
            let longer = digits.take(k + 1);
            assert(longer.drop_last() == digits.take(k));
            assert(longer.last() == digits[k]);
            lemma_digits_value_grows(digits, k, k);
        }
        match next {
            Some(v) => {
                value = v;
            },
            None => {
                proof {
                    lemma_digit_run_at_least(digits, k + 1);
                    lemma_digits_value_grows(digits, k + 1, digit_run(digits) as int);
                }
                return Err(
                    if negative {
                        NumberError::NegOverflow
                    } else {
                        NumberError::PosOverflow
                    },
                );
            },
        }
        i += 1;
    }
    proof {
        lemma_digit_run(digits, n - start);
        assert(digits.take(n - start) == digits);
    }
    Ok(value)
}

} // verus!
