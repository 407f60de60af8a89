//! Integers as decimal text: how a user's id is written into a token's
//! subject, and how it is read back.

use vstd::prelude::*;
use vstd::string::{StrSliceExecFns, StringExecFns};

verus! {

/// Whether a character is one of `0` to `9`.
pub open spec fn is_digit(c: char) -> bool {
    '0' <= c <= '9'
}

/// The number that a digit stands for.
pub open spec fn digit_value(c: char) -> int {
    c as int - '0' as int
}

/// The character for a number below ten.
pub open spec fn digit_char(d: int) -> char {
    (d + '0' as int) as char
}

/// Whether a text holds digits only.
pub open spec fn all_digits(text: Seq<char>) -> bool {
    forall|i: int| 0 <= i < text.len() ==> is_digit(#[trigger] text[i])
}

/// The number that a run of digits denotes, read in base ten.
pub open spec fn digits_value(text: Seq<char>) -> int
    decreases text.len(),
{
    if text.len() == 0 {
        0
    } else {
        digits_value(text.drop_last()) * 10 + digit_value(text.last())
    }
}

/// Whether a text begins with a sign.
pub open spec fn signed(text: Seq<char>) -> bool {
    text.len() > 0 && (text[0] == '-' || text[0] == '+')
}

/// The text behind the sign, if there is one.
pub open spec fn magnitude(text: Seq<char>) -> Seq<char> {
    if signed(text) {
        text.skip(1)
    } else {
        text
    }
}

/// The integer that a text denotes: an optional `+` or `-`, then one digit
/// or more and nothing else, for a number that an `i32` can hold. No text
/// of another form denotes one: not the empty text, not a lone sign, not
/// digits among spaces.
pub open spec fn parsed(text: Seq<char>) -> Option<i32> {
    let digits = magnitude(text);
    let value = if signed(text) && text[0] == '-' {
        -digits_value(digits)
    } else {
        digits_value(digits)
    };
    if digits.len() > 0 && all_digits(digits) && i32::MIN <= value <= i32::MAX {
        Some(value as i32)
    } else {
        None
    }
}

/// The digits of a number that is not negative, without leading zeros.
pub open spec fn digits_of(n: int) -> Seq<char>
    decreases n,
{
    if n < 10 {
        seq![digit_char(n)]
    } else {
        digits_of(n / 10).push(digit_char(n % 10))
    }
}

/// An integer in decimal: a `-` if it is negative, then its digits.
pub open spec fn decimal_of(n: int) -> Seq<char> {
    if n < 0 {
        seq!['-'] + digits_of(-n)
    } else {
        digits_of(n)
    }
}

/// More digits never make a smaller number.
pub proof fn lemma_digits_grow(text: Seq<char>, i: int)
    requires
        all_digits(text),
        0 <= i <= text.len(),
    ensures
        0 <= digits_value(text.take(i)) <= digits_value(text),
    decreases text.len() - i,
{
    if i == text.len() {
        assert(text.take(i) =~= text);
        lemma_digits_not_negative(text);
    } else {
        lemma_digits_grow(text, i + 1);
        assert(text.take(i + 1).drop_last() =~= text.take(i));
        assert(is_digit(text[i]));
        lemma_digits_not_negative(text.take(i));
    }
}

/// A run of digits denotes no negative number.
pub proof fn lemma_digits_not_negative(text: Seq<char>)
    requires
        all_digits(text),
    ensures
        0 <= digits_value(text),
    decreases text.len(),
{
    if text.len() > 0 {
        assert(is_digit(text.last()));
        lemma_digits_not_negative(text.drop_last());
    }
}

/// The digits of a number are digits, and denote that number.
pub proof fn lemma_digits_of(n: int)
    requires
        0 <= n,
    ensures
        digits_of(n).len() > 0,
        all_digits(digits_of(n)),
        digits_value(digits_of(n)) == n,
        !signed(digits_of(n)),
    decreases n,
{
    if n < 10 {
        let text = digits_of(n);
        assert(text.drop_last() =~= Seq::<char>::empty());
        assert(digits_value(text.drop_last()) == 0);
    } else {
        lemma_digits_of(n / 10);
        let front = digits_of(n / 10);
        let text = front.push(digit_char(n % 10));
        assert(text.drop_last() =~= front);
        assert(text[0] == front[0]);
    }
}

/// What is written is what is read: the decimal text of an integer denotes
/// that integer.
pub proof fn law_decimal_round_trip(n: i32)
    ensures
        parsed(decimal_of(n as int)) == Some(n),
{
    if n < 0 {
        lemma_digits_of(-n);
        let text = decimal_of(n as int);
        assert(text.skip(1) =~= digits_of(-n));
    } else {
        lemma_digits_of(n as int);
    }
}

/// Reads an integer from its decimal text. Gives `None` for every text that
/// denotes none; see [`parsed`].
pub fn parse_i32(text: &str) -> (value: Option<i32>)
    ensures
        value == parsed(text@),
{
    if !text.is_ascii() {
        proof {
            let i = choose|i: int| 0 <= i < text@.len() && !('\0' <= #[trigger] text@[i] <= '\u{7f}');
            if signed(text@) {
                assert(magnitude(text@)[i - 1] == text@[i]);
            }
        }
        return None;
    }
    let n = text.unicode_len();
    if n == 0 {
        return None;
    }
    let first = text.get_ascii(0);
    let negative = first == 45;
    let start: usize = if first == 45 || first == 43 {
        1
    } else {
        0
    };
    let ghost digits = magnitude(text@);
    assert(digits =~= text@.subrange(start as int, n as int));
    if start == n {
        return None;
    }
    let mut total: i64 = 0;
    let mut i: usize = start;
    assert(digits.take(0) =~= Seq::<char>::empty());
    while i < n
        invariant
            start <= i <= n,
            n == text@.len(),
            text.is_ascii(),
            digits == text@.subrange(start as int, n as int),
            digits == magnitude(text@),
            all_digits(digits.take(i - start)),
            total == digits_value(digits.take(i - start)),
            0 <= total <= 2147483648,
        decreases n - i,
    {
        let byte = text.get_ascii(i);
        assert(digits[i - start] == text@[i as int]);
        if byte < 48 || byte > 57 {
            assert(!is_digit(digits[i - start]));
            return None;
        }
        assert(digits.take(i - start + 1).drop_last() =~= digits.take(i - start));
        total = total * 10 + (byte - 48) as i64;
        i += 1;
        if total > 2147483648 {
            proof {
                if all_digits(digits) {
                    lemma_digits_grow(digits, i - start);
                }
            }
            return None;
        }
    }
    assert(digits.take(i - start) =~= digits);
    let value: i64 = if negative {
        -total
    } else {
        total
    };
    if value < -2147483648 || value > 2147483647 {
        None
    } else {
        Some(value as i32)
    }
}

/// The text of one digit.
fn digit_text(d: u32) -> (text: &'static str)
    requires
        d < 10,
    ensures
        text@ == seq![digit_char(d as int)],
{
    proof {
        reveal_strlit("0");
        reveal_strlit("1");
        reveal_strlit("2");
        reveal_strlit("3");
        reveal_strlit("4");
        reveal_strlit("5");
        reveal_strlit("6");
        reveal_strlit("7");
        reveal_strlit("8");
        reveal_strlit("9");
    }
    let text = match d {
        0 => "0",
        1 => "1",
        2 => "2",
        3 => "3",
        4 => "4",
        5 => "5",
        6 => "6",
        7 => "7",
        8 => "8",
        _ => "9",
    };
    assert(text@ =~= seq![digit_char(d as int)]);
    text
}

/// Writes the digits of `n` behind what `out` holds.
fn push_digits(n: u32, out: &mut String)
    ensures
        final(out)@ == old(out)@ + digits_of(n as int),
    decreases n,
{
    if n >= 10 {
        push_digits(n / 10, out);
    }
    out.append(digit_text(n % 10));
    proof {
        if n >= 10 {
            assert(final(out)@ =~= old(out)@ + digits_of(n as int));
        }
    }
}

/// Writes an integer in decimal: a `-` if it is negative, then its digits
/// without leading zeros. [`parse_i32`] reads the text back as the same
/// integer.
pub fn decimal(n: i32) -> (text: String)
    ensures
        text@ == decimal_of(n as int),
        parsed(text@) == Some(n),
{
    proof {
        law_decimal_round_trip(n);
        reveal_strlit("-");
    }
    let mut text = String::new();
    if n < 0 {
        text.append("-");
        push_digits((-(n as i64)) as u32, &mut text);
        assert(text@ =~= decimal_of(n as int));
    } else {
        push_digits(n as u32, &mut text);
        assert(text@ =~= decimal_of(n as int));
    }
    text
}

} // verus!
