//! Decimal notation: writing an integer as text, and reading a port number
//! from text.

use vstd::prelude::*;
use crate::text::chars_of;

verus! {

/// `c` is one of the ten ASCII digits.
pub open spec fn is_digit(c: char) -> bool {
    '0' <= c <= '9'
}

/// The number that the digit `c` stands for.
pub open spec fn digit_value(c: char) -> int {
    c as int - '0' as int
}

/// The digit that stands for `d`, a number below ten.
pub open spec fn digit_char(d: int) -> char {
    (d + '0' as int) as char
}

/// Every character of `s` is a digit.
pub open spec fn all_digits(s: Seq<char>) -> bool {
    forall|i: int| 0 <= i < s.len() ==> is_digit(#[trigger] s[i])
}

/// The number that a run of digits denotes, the empty run denoting zero.
pub open spec fn decimal_value(digits: Seq<char>) -> nat
    decreases digits.len(),
{
    if digits.len() == 0 {
        0
    } else {
        (decimal_value(digits.drop_last()) * 10 + digit_value(digits.last())) as nat
    }
}

/// The digits of `n`, most significant first, without leading zeros.
pub open spec fn decimal_digits(n: nat) -> Seq<char>
    decreases n,
{
    if n < 10 {
        seq![digit_char(n as int)]
    } else {
        decimal_digits(n / 10).push(digit_char((n % 10) as int))
    }
}

/// The decimal notation of `n`, with a minus sign before a negative number.
pub open spec fn decimal_text(n: int) -> Seq<char> {
    if n < 0 {
        seq!['-'] + decimal_digits((-n) as nat)
    } else {
        decimal_digits(n as nat)
    }
}

/// The port that `text` denotes, if it denotes one: an optional plus sign,
/// then at least one digit and nothing but digits, with a value from 1 to
/// 65535. Leading zeros are accepted.
pub open spec fn port_number(text: Seq<char>) -> Option<i32> {
    let digits = if text.len() > 0 && text[0] == '+' {
        text.skip(1)
    } else {
        text
    };
    if digits.len() > 0 && all_digits(digits) && 1 <= decimal_value(digits) <= 65535 {
        Some(decimal_value(digits) as i32)
    } else {
        None
    }
}

/// Appending a digit to a run multiplies its value by ten and adds the digit.
pub proof fn lemma_decimal_value_push(digits: Seq<char>, c: char)
    requires
        is_digit(c),
    ensures
        decimal_value(digits.push(c)) == decimal_value(digits) * 10 + digit_value(c),
{
    assert(digits.push(c).drop_last() =~= digits);
}

/// The digits of a number are digits, and denote the number.
pub proof fn lemma_decimal_digits_value(n: nat)
    ensures
        decimal_digits(n).len() > 0,
        all_digits(decimal_digits(n)),
        decimal_value(decimal_digits(n)) == n,
    decreases n,
{
    if n < 10 {
        let digits = decimal_digits(n);
        assert(digits.drop_last() =~= Seq::<char>::empty());
        assert(decimal_value(digits.drop_last()) == 0);
    } else {
        let c = digit_char((n % 10) as int);
        lemma_decimal_digits_value(n / 10);
        lemma_decimal_value_push(decimal_digits(n / 10), c);
    }
}

/// A port that is written in decimal and read again is the same port.
pub proof fn lemma_port_written_and_read(port: i32)
    requires
        1 <= port <= 65535,
    ensures
        port_number(decimal_text(port as int)) == Some(port),
{
    lemma_decimal_digits_value(port as nat);
}

fn digit_text(d: u32) -> (s: &'static str)
    requires
        d < 10,
    ensures
        s@ == seq![digit_char(d as int)],
{
    proof {
        reveal_strlit("0");
        reveal_strlit("1");
        reveal_strlit("2");
        reveal_strlit("3");
        reveal_strlit("4");
        reveal_strlit("5");
        reveal_strlit("6");
        reveal_strlit("7");
        reveal_strlit("8");
        reveal_strlit("9");
    }
    let s = match d {
        0 => "0",
        1 => "1",
        2 => "2",
        3 => "3",
        4 => "4",
        5 => "5",
        6 => "6",
        7 => "7",
        8 => "8",
        _ => "9",
    };
    s
}

/// Appends the digits of `n` to `out`.
pub fn append_decimal(out: &mut String, n: u32)
    ensures
        final(out)@ == old(out)@ + decimal_digits(n as nat),
    decreases n,
{
    if n >= 10 {
        append_decimal(out, n / 10);
    }
    out.append(digit_text(n % 10));
}

/// The decimal notation of `n`.
pub fn decimal_string(n: i32) -> (s: String)
    ensures
        s@ == decimal_text(n as int),
{
    let mut s = String::new();
    if n < 0 {
        proof {
            reveal_strlit("-");
        }
        s.append("-");
        let magnitude: u32 = (-(n as i64)) as u32;
        append_decimal(&mut s, magnitude);
    } else {
        append_decimal(&mut s, n as u32);
    }
    s
}

/// Reads a port number from `text`.
pub fn parse_port(text: &str) -> (port: Option<i32>)
    ensures
        port == port_number(text@),
{
    let chars = chars_of(text);
    let start: usize = if chars.len() > 0 && chars[0] == '+' {
        1
    } else {
        0
    };
    let ghost digits = chars@.skip(start as int);
    if start == chars.len() {
        return None;
    }
    let mut value: u32 = 0;
    let mut too_big = false;
    let mut i: usize = start;
    while i < chars.len()
        invariant
            start <= i <= chars.len(),
            start < chars.len(),
            chars@ == text@,
            start == if chars@.len() > 0 && chars@[0] == '+' { 1usize } else { 0usize },
            digits == chars@.skip(start as int),
            all_digits(chars@.subrange(start as int, i as int)),
            !too_big ==> value == decimal_value(chars@.subrange(start as int, i as int)),
            !too_big ==> value <= 65535,
            too_big ==> decimal_value(chars@.subrange(start as int, i as int)) > 65535,
        decreases chars.len() - i,
    {
        let c = chars[i];
        let ghost prefix = chars@.subrange(start as int, i as int);
        if !(c >= '0' && c <= '9') {
            assert(digits[i - start] == c);
            return None;
        }
        proof {
            assert(chars@.subrange(start as int, i + 1) =~= prefix.push(c));
            lemma_decimal_value_push(prefix, c);
        }
        if !too_big {
            let d: u32 = (c as u32) - ('0' as u32);
            value = value * 10 + d;
            if value > 65535 {
                too_big = true;
            }
        }
        i += 1;
    }
    assert(text@.skip(0) =~= text@);
    if too_big || value == 0 {
        None
    } else {
        Some(value as i32)
    }
}

} // verus!
