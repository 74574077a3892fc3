//! Conversion between the native value of a leaf field and its text: the
//! decimal form of integers and the two words of booleans.

use vstd::prelude::*;
use vstd::string::StringExecFns;
use crate::text::{chars_of, same_text};

verus! {

/// Whether `c` is one of the decimal digits `0` to `9`.
pub open spec fn is_digit(c: char) -> bool {
    48 <= c as u32 <= 57
}

/// The number that the digit `c` stands for.
pub open spec fn digit_value(c: char) -> nat {
    (c as u32 - 48) as nat
}

/// The digit that stands for `d`, for `d` below ten.
pub open spec fn digit_char(d: nat) -> char {
    if d == 0 {
        '0'
    } else if d == 1 {
        '1'
    } else if d == 2 {
        '2'
    } else if d == 3 {
        '3'
    } else if d == 4 {
        '4'
    } else if d == 5 {
        '5'
    } else if d == 6 {
        '6'
    } else if d == 7 {
        '7'
    } else if d == 8 {
        '8'
    } else {
        '9'
    }
}

/// Whether every character of `s` is a decimal digit.
pub open spec fn all_digits(s: Seq<char>) -> bool {
    forall|i: int| 0 <= i < s.len() ==> is_digit(#[trigger] s[i])
}

/// The number that a sequence of digits denotes in base ten.
pub open spec fn digits_value(s: Seq<char>) -> nat
    decreases s.len(),
{
    if s.len() == 0 {
        0
    } else {
        digits_value(s.drop_last()) * 10 + digit_value(s.last())
    }
}

/// Whether `s` starts with a sign.
pub open spec fn has_sign(s: Seq<char>) -> bool {
    s.len() > 0 && (s[0] == '-' || s[0] == '+')
}

/// The part of `s` after its sign, if it has one.
pub open spec fn unsigned_part(s: Seq<char>) -> Seq<char> {
    if has_sign(s) {
        s.skip(1)
    } else {
        s
    }
}

/// The integer that `s` denotes: an optional `+` or `-` followed by one or
/// more decimal digits, and nothing else. Leading zeros are allowed.
pub open spec fn parse_int_spec(s: Seq<char>) -> Option<int> {
    let body = unsigned_part(s);
    if body.len() == 0 || !all_digits(body) {
        None
    } else if s[0] == '-' {
        Some(-(digits_value(body) as int))
    } else {
        Some(digits_value(body) as int)
    }
}

/// The 64-bit integer that `s` denotes, if it denotes an integer in range.
pub open spec fn parse_i64_spec(s: Seq<char>) -> Option<i64> {
    match parse_int_spec(s) {
        Some(v) => if i64::MIN <= v <= i64::MAX {
            Some(v as i64)
        } else {
            None
        },
        None => None,
    }
}

/// The canonical text of a natural number: its decimal digits, without
/// leading zeros.
pub open spec fn format_nat_spec(n: nat) -> Seq<char>
    decreases n,
{
    if n < 10 {
        seq![digit_char(n)]
    } else {
        format_nat_spec(n / 10).push(digit_char(n % 10))
    }
}

/// The canonical text of an integer: a `-` for a negative one, then the
/// digits of its magnitude.
pub open spec fn format_int_spec(v: int) -> Seq<char> {
    if v < 0 {
        seq!['-'] + format_nat_spec((-v) as nat)
    } else {
        format_nat_spec(v as nat)
    }
}

/// The boolean that `s` denotes: exactly `true` or `false`.
pub open spec fn parse_bool_spec(s: Seq<char>) -> Option<bool> {
    if s == "true"@ {
        Some(true)
    } else if s == "false"@ {
        Some(false)
    } else {
        None
    }
}

/// The canonical text of a boolean.
pub open spec fn format_bool_spec(b: bool) -> Seq<char> {
    if b {
        "true"@
    } else {
        "false"@
    }
}

/// The canonical digits of a number are digits, at least one of them, and
/// denote the number.
pub proof fn lemma_format_nat(n: nat)
    ensures
        format_nat_spec(n).len() > 0,
        all_digits(format_nat_spec(n)),
        digits_value(format_nat_spec(n)) == n,
    decreases n,
{
    let text = format_nat_spec(n);
    if n < 10 {
        assert(text.drop_last() =~= Seq::<char>::empty());
        assert(digits_value(text.drop_last()) == 0);
    } else {
        lemma_format_nat(n / 10);
        assert(text.drop_last() =~= format_nat_spec(n / 10));
        assert(text.last() == digit_char(n % 10));
        assert forall|i: int| 0 <= i < text.len() implies is_digit(#[trigger] text[i]) by {
            if i < text.len() - 1 {
                assert(text[i] == format_nat_spec(n / 10)[i]);
            }
        }
    }
}

/// A longer run of digits denotes at least what its beginning denotes.
pub proof fn lemma_digits_value_grows(s: Seq<char>, k: int)
    requires
        0 <= k <= s.len(),
    ensures
        digits_value(s.take(k)) <= digits_value(s),
    decreases s.len() - k,
{
    if k == s.len() {
        assert(s.take(k) =~= s);
    } else {
        lemma_digits_value_grows(s.drop_last(), k);
        assert(s.drop_last().take(k) =~= s.take(k));
    }
}

/// Round trip of integers: the canonical text of an integer parses back to
/// that integer.
pub proof fn law_int_round_trip(v: int)
    ensures
        parse_int_spec(format_int_spec(v)) == Some(v),
{
    let text = format_int_spec(v);
    if v < 0 {
        let digits = format_nat_spec((-v) as nat);
        lemma_format_nat((-v) as nat);
        assert(text[0] == '-');
        assert(text.skip(1) =~= digits);
    } else {
        lemma_format_nat(v as nat);
        assert(is_digit(text[0]));
    }
}

/// Round trip of 64-bit integers: the canonical text of a value parses back
/// to that value.
pub proof fn law_i64_round_trip(v: i64)
    ensures
        parse_i64_spec(format_int_spec(v as int)) == Some(v),
{
    law_int_round_trip(v as int);
}

/// Round trip of booleans: the canonical text of a value parses back to that
/// value.
pub proof fn law_bool_round_trip(b: bool)
    ensures
        parse_bool_spec(format_bool_spec(b)) == Some(b),
{
    reveal_strlit("true");
    reveal_strlit("false");
    assert("true"@.len() != "false"@.len());
}

fn digit_text(d: u64) -> (text: &'static str)
    requires
        d < 10,
    ensures
        text@ == seq![digit_char(d as nat)],
{
    proof {
        reveal_strlit("0");
        reveal_strlit("1");
        reveal_strlit("2");
        reveal_strlit("3");
        reveal_strlit("4");
        reveal_strlit("5");
        reveal_strlit("6");
        reveal_strlit("7");
        reveal_strlit("8");
        reveal_strlit("9");
    }
    let text = if d == 0 {
        "0"
    } else if d == 1 {
        "1"
    } else if d == 2 {
        "2"
    } else if d == 3 {
        "3"
    } else if d == 4 {
        "4"
    } else if d == 5 {
        "5"
    } else if d == 6 {
        "6"
    } else if d == 7 {
        "7"
    } else if d == 8 {
        "8"
    } else {
        "9"
    };
    assert(text@ =~= seq![digit_char(d as nat)]);
    text
}

/// The decimal digits of `n`, without leading zeros.
pub fn format_u64(n: u64) -> (text: String)
    ensures
        text@ == format_nat_spec(n as nat),
    decreases n,
{
    if n < 10 {
        String::from_str(digit_text(n))
    } else {
        let mut text = format_u64(n / 10);
        text.append(digit_text(n % 10));
        assert(text@ =~= format_nat_spec((n / 10) as nat).push(digit_char((n % 10) as nat)));
        text
    }
}

/// The canonical text of `v`. It parses back to `v`.
pub fn format_i64(v: i64) -> (text: String)
    ensures
        text@ == format_int_spec(v as int),
        parse_i64_spec(text@) == Some(v),
{
    proof {
        law_i64_round_trip(v);
    }
    if v < 0 {
        let magnitude: u64 = (-(v as i128)) as u64;
        let mut text = String::from_str("-");
        let digits = format_u64(magnitude);
        text.append(digits.as_str());
        proof {
            reveal_strlit("-");
            assert(text@ =~= seq!['-'] + format_nat_spec((-(v as int)) as nat));
        }
        text
    } else {
        format_u64(v as u64)
    }
}

/// Parses a 64-bit integer: an optional sign, then decimal digits. Anything
/// else, and a number out of range, gives `None`.
pub fn parse_i64(text: &str) -> (parsed: Option<i64>)
    ensures
        parsed == parse_i64_spec(text@),
{
    let chars = chars_of(text);
    let n = chars.len();
    if n == 0 {
        return None;
    }
    let negative = chars[0] == '-';
    let start: usize = if chars[0] == '-' || chars[0] == '+' {
        1
    } else {
        0
    };
    let ghost body = unsigned_part(text@);
    assert(body =~= chars@.skip(start as int));
    if start == n {
        return None;
    }
    let limit: u128 = if negative {
        9223372036854775808
    } else {
        9223372036854775807
    };
    let mut total: u128 = 0;
    let mut i: usize = start;
    assert(body.take(0) =~= Seq::<char>::empty());
    while i < n
        invariant
            start <= i <= n,
            n == chars@.len(),
            chars@ == text@,
            body == unsigned_part(text@),
            body == chars@.skip(start as int),
            negative == (chars@[0] == '-'),
            limit == if negative {
                9223372036854775808u128
            } else {
                9223372036854775807u128
            },
            all_digits(body.take(i - start)),
            total == digits_value(body.take(i - start)),
            total <= limit,
        decreases n - i,
    {
        let code = chars[i] as u32;
        if code < 48 || code > 57 {
            assert(!is_digit(body[i - start]));
            return None;
        }
        let next: u128 = total * 10 + (code - 48) as u128;
        proof {
            let longer = body.take(i - start + 1);
            assert(longer.drop_last() =~= body.take(i - start));
            assert(longer.last() == chars@[i as int]);
            assert(next == digits_value(longer));
            assert forall|j: int| 0 <= j < longer.len() implies is_digit(#[trigger] longer[j]) by {
                if j < longer.len() - 1 {
                    assert(longer[j] == body.take(i - start)[j]);
                }
            }
        }
        if next > limit {
            proof {
                lemma_digits_value_grows(body, i - start + 1);
            }
            return None;
        }
        total = next;
        i = i + 1;
    }
    assert(body.take(i - start) =~= body);
    if negative {
        if total == 9223372036854775808 {
            Some(i64::MIN)
        } else {
            Some(-(total as i64))
        }
    } else {
        Some(total as i64)
    }
}

/// The canonical text of `b`: `true` or `false`. It parses back to `b`.
pub fn format_bool(b: bool) -> (text: String)
    ensures
        text@ == format_bool_spec(b),
        parse_bool_spec(text@) == Some(b),
{
    proof {
        law_bool_round_trip(b);
    }
    if b {
        String::from_str("true")
    } else {
        String::from_str("false")
    }
}

/// Parses a boolean: exactly `true` or `false`.
pub fn parse_bool(text: &str) -> (parsed: Option<bool>)
    ensures
        parsed == parse_bool_spec(text@),
{
    if same_text(text, "true") {
        Some(true)
    } else if same_text(text, "false") {
        Some(false)
    } else {
        None
    }
}

} // verus!
