//! Amounts as decimal text: reading a whole number of minor currency units
//! from the text in which requests and stored rows carry it.

use vstd::prelude::*;
use vstd::string::*;
use vstd::utf8::is_ascii_chars;
use crate::error::PaymentError;

verus! {

/// `c` is one of the ten decimal digits.
pub open spec fn is_digit(c: char) -> bool {
    '0' <= c <= '9'
}

/// The number that the digit `c` stands for.
pub open spec fn digit_value(c: char) -> nat {
    (c as int - '0' as int) as nat
}

/// Every character of `s` is a decimal digit, and there is at least one.
pub open spec fn is_decimal(s: Seq<char>) -> bool {
    &&& s.len() > 0
    &&& forall|i: int| 0 <= i < s.len() ==> is_digit(#[trigger] s[i])
}

/// The number that the digits `s` write down, most significant first.
pub open spec fn decimal_value(s: Seq<char>) -> nat
    decreases s.len(),
{
    if s.len() == 0 {
        0
    } else {
        decimal_value(s.drop_last()) * 10 + digit_value(s.last())
    }
}

/// The digits of `s`: all of it but a leading plus sign.
pub open spec fn unsigned_part(s: Seq<char>) -> Seq<char> {
    if s.len() > 0 && s[0] == '+' {
        s.subrange(1, s.len() as int)
    } else {
        s
    }
}

/// The minor units that `s` writes down: digits, after at most one plus
/// sign, whose value a `u64` can hold. `None` for any other text.
pub open spec fn minor_units_of(s: Seq<char>) -> Option<nat> {
    let digits = unsigned_part(s);
    if is_decimal(digits) && decimal_value(digits) <= u64::MAX {
        Some(decimal_value(digits))
    } else {
        None
    }
}

/// The amount that `s` asks to charge: its minor units where they are
/// positive, else `None`.
pub open spec fn amount_of(s: Seq<char>) -> Option<nat> {
    match minor_units_of(s) {
        Some(v) => if v > 0 {
            Some(v)
        } else {
            None
        },
        None => None,
    }
}

/// A longer run of digits writes no smaller a number than its beginning.
pub proof fn lemma_decimal_value_grows(s: Seq<char>, k: int)
    requires
        0 <= k <= s.len(),
    ensures
        decimal_value(s.subrange(0, k)) <= decimal_value(s),
    decreases s.len(),
{
    if k == s.len() {
        assert(s.subrange(0, k) =~= s);
    } else {
        lemma_decimal_value_grows(s.drop_last(), k);
        assert(s.drop_last().subrange(0, k) =~= s.subrange(0, k));
    }
}

/// Reads a whole number of minor units from decimal text.
pub fn parse_minor_units(text: &str) -> (r: Option<u64>)
    ensures
        match minor_units_of(text@) {
            Some(v) => r == Some(v as u64),
            None => r is None,
        },
{
    broadcast use is_ascii_spec_bytes;

    let ghost digits = unsigned_part(text@);
    if !text.is_ascii() {
        proof {
            if is_decimal(digits) {
                assert forall|i: int| 0 <= i < text@.len() implies '\0' <= #[trigger] text@[i]
                    <= '\u{7f}' by {
                    if text@[0] == '+' {
                        if i >= 1 {
                            assert(digits[i - 1] == text@[i]);
                        }
                    } else {
                        assert(digits[i] == text@[i]);
                    }
                }
                assert(is_ascii_chars(text@));
            }
        }
        return None;
    }
    let bytes = text.as_bytes();
    let n: usize = bytes.len();
    assert(n == text@.len());
    assert(forall|j: int| 0 <= j < n ==> bytes@[j] == text@[j] as u8);
    let start: usize = if n > 0 && bytes[0] == 43u8 {
        1
    } else {
        0
    };
    assert(digits =~= text@.subrange(start as int, n as int));
    if start == n {
        return None;
    }
    let mut acc: u64 = 0;
    let mut i: usize = start;
    while i < n
        invariant
            is_ascii_chars(text@),
            n == text@.len(),
            n == bytes@.len(),
            forall|j: int| 0 <= j < n ==> bytes@[j] == text@[j] as u8,
            start <= i <= n,
            digits == text@.subrange(start as int, n as int),
            digits == unsigned_part(text@),
            forall|j: int| 0 <= j < i - start ==> is_digit(#[trigger] digits[j]),
            acc == decimal_value(digits.subrange(0, i - start)),
        decreases n - i,
    {
        let b: u8 = bytes[i];
        let ghost c = text@[i as int];
        assert(digits[i - start] == c);
        assert('\0' <= c <= '\u{7f}');
        assert(c as int == b as int);
        if b < 48u8 || b > 57u8 {
            assert(!is_digit(c));
            return None;
        }
        let d: u64 = (b - 48u8) as u64;
        assert(d == digit_value(c));
        let ghost longer = digits.subrange(0, i - start + 1);
        assert(longer.drop_last() =~= digits.subrange(0, i - start));
        assert(longer.last() == c);
        assert(decimal_value(longer) == acc * 10 + d);
        if acc > (u64::MAX - d) / 10 {
            proof {
                lemma_decimal_value_grows(digits, i - start + 1);
            }
            return None;
        }
        acc = acc * 10 + d;
        i = i + 1;
    }
    assert(digits.subrange(0, i - start) =~= digits);
    Some(acc)
}

/// Reads the amount of a payment request: a positive whole number of minor
/// units. Any other text is an invalid amount.
pub fn parse_amount(text: &str) -> (r: Result<u64, PaymentError>)
    ensures
        match amount_of(text@) {
            Some(v) => r == Ok::<u64, PaymentError>(v as u64),
            None => r == Err::<u64, PaymentError>(PaymentError::InvalidAmount),
        },
{
    match parse_minor_units(text) {
        Some(v) => if v > 0 {
            Ok(v)
        } else {
            Err(PaymentError::InvalidAmount)
        },
        None => Err(PaymentError::InvalidAmount),
    }
}

/// The digit that stands for `d`, a number below ten.
pub open spec fn digit_char(d: nat) -> char {
    ((d + 48) as u8) as char
}

/// The digits that write down `v`, most significant first, without
/// leading zeros.
pub open spec fn decimal_text(v: nat) -> Seq<char>
    decreases v,
{
    if v < 10 {
        seq![digit_char(v)]
    } else {
        decimal_text(v / 10).push(digit_char(v % 10))
    }
}

/// The text of a number reads back as that number: nothing is lost between
/// an amount and the text in which it is stored.
pub proof fn lemma_text_reads_back(v: nat)
    ensures
        is_decimal(decimal_text(v)),
        decimal_value(decimal_text(v)) == v,
        unsigned_part(decimal_text(v)) == decimal_text(v),
        v <= u64::MAX ==> minor_units_of(decimal_text(v)) == Some(v),
    decreases v,
{
    let text = decimal_text(v);
    if v < 10 {
        assert(text.drop_last() =~= Seq::<char>::empty());
        assert(decimal_value(text.drop_last()) == 0);
        assert(text.last() == digit_char(v));
        assert(digit_value(digit_char(v)) == v);
    } else {
        lemma_text_reads_back(v / 10);
        let shorter = decimal_text(v / 10);
        assert(text.drop_last() =~= shorter);
        assert(text.last() == digit_char(v % 10));
        assert(digit_value(digit_char(v % 10)) == v % 10);
        assert forall|i: int| 0 <= i < text.len() implies is_digit(#[trigger] text[i]) by {
            if i < shorter.len() {
                assert(text[i] == shorter[i]);
            }
        }
        assert(text[0] == shorter[0]);
    }
    assert(is_digit(text[0]));
}

/// The text of one digit.
fn digit_text(d: u64) -> (r: &'static str)
    requires
        d < 10,
    ensures
        r@ == seq![digit_char(d as nat)],
{
    proof {
        reveal_strlit("0");
        reveal_strlit("1");
        reveal_strlit("2");
        reveal_strlit("3");
        reveal_strlit("4");
        reveal_strlit("5");
        reveal_strlit("6");
        reveal_strlit("7");
        reveal_strlit("8");
        reveal_strlit("9");
    }
    let r = if d == 0 {
        "0"
    } else if d == 1 {
        "1"
    } else if d == 2 {
        "2"
    } else if d == 3 {
        "3"
    } else if d == 4 {
        "4"
    } else if d == 5 {
        "5"
    } else if d == 6 {
        "6"
    } else if d == 7 {
        "7"
    } else if d == 8 {
        "8"
    } else {
        "9"
    };
    assert(r@ =~= seq![digit_char(d as nat)]);
    r
}

/// Appends the digits of `v` to `text`.
fn append_decimal(text: &mut String, v: u64)
    ensures
        final(text)@ == old(text)@ + decimal_text(v as nat),
    decreases v,
{
    if v >= 10 {
        append_decimal(text, v / 10);
    }
    text.append(digit_text(v % 10));
    assert(final(text)@ =~= old(text)@ + decimal_text(v as nat)) by {
        if v >= 10 {
            assert(decimal_text(v as nat) == decimal_text((v / 10) as nat).push(
                digit_char((v % 10) as nat),
            ));
        }
    }
}

/// Writes a whole number of minor units as decimal text, the form in which
/// [`parse_minor_units`] reads it back.
pub fn format_minor_units(v: u64) -> (text: String)
    ensures
        text@ == decimal_text(v as nat),
        minor_units_of(text@) == Some(v as nat),
{
    let mut text = String::new();
    append_decimal(&mut text, v);
    proof {
        lemma_text_reads_back(v as nat);
        assert(text@ =~= decimal_text(v as nat));
    }
    text
}

} // verus!
