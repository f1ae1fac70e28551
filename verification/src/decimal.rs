//! Decimal numerals of port numbers: reading one from text and writing one
//! out, with the proof that the two agree.

use vstd::prelude::*;

verus! {

/// The byte of the plus sign.
const PLUS_SIGN: u8 = 43;

/// The byte of the digit zero.
const DIGIT_ZERO: u8 = 48;

/// The byte of the digit nine.
const DIGIT_NINE: u8 = 57;

/// One of the ten decimal digits.
pub open spec fn is_digit(c: char) -> bool {
    '0' <= c <= '9'
}

/// The number a digit stands for; zero for any other character.
pub open spec fn digit_value(c: char) -> nat {
    if is_digit(c) {
        (c as int - '0' as int) as nat
    } else {
        0
    }
}

/// The digit that stands for `d`, for `d` below ten.
pub open spec fn digit_char(d: nat) -> char {
    (d + '0' as nat) as char
}

/// Every character of `text` is a decimal digit.
pub open spec fn all_digits(text: Seq<char>) -> bool {
    forall|i: int| 0 <= i < text.len() ==> is_digit(#[trigger] text[i])
}

/// The number that a run of digits denotes, most significant digit first.
pub open spec fn decimal_value(digits: Seq<char>) -> nat
    decreases digits.len(),
{
    if digits.len() == 0 {
        0
    } else {
        decimal_value(digits.drop_last()) * 10 + digit_value(digits.last())
    }
}

/// `text` without the one plus sign that may lead it.
pub open spec fn unsigned_part(text: Seq<char>) -> Seq<char> {
    if text.len() > 0 && text[0] == '+' {
        text.skip(1)
    } else {
        text
    }
}

/// The port that `text` denotes: an optional plus sign, then one or more
/// decimal digits whose value is at most 65535. Leading zeros are accepted;
/// any other character, a minus sign and white space included, is not.
pub open spec fn port_number(text: Seq<char>) -> Option<u16> {
    let digits = unsigned_part(text);
    if digits.len() > 0 && all_digits(digits) && decimal_value(digits) <= u16::MAX {
        Some(decimal_value(digits) as u16)
    } else {
        None
    }
}

/// The shortest decimal numeral of `n`.
pub open spec fn decimal(n: nat) -> Seq<char>
    decreases n,
{
    if n < 10 {
        seq![digit_char(n)]
    } else {
        decimal(n / 10).push(digit_char(n % 10))
    }
}

/// A longer run of digits denotes no smaller a number than its beginning.
pub proof fn lemma_value_of_prefix(digits: Seq<char>, k: int)
    requires
        0 <= k <= digits.len(),
    ensures
        decimal_value(digits.take(k)) <= decimal_value(digits),
    decreases digits.len(),
{
    if k == digits.len() {
        assert(digits.take(k) =~= digits);
    } else {
        assert(digits.drop_last().take(k) =~= digits.take(k));
        lemma_value_of_prefix(digits.drop_last(), k);
    }
}

/// The numeral of `n` is a non-empty run of digits that denotes `n`.
pub proof fn lemma_decimal_denotes(n: nat)
    ensures
        decimal(n).len() > 0,
        all_digits(decimal(n)),
        decimal_value(decimal(n)) == n,
    decreases n,
{
    if n < 10 {
        let numeral = decimal(n);
        assert(numeral.drop_last() =~= Seq::<char>::empty());
        assert(decimal_value(numeral.drop_last()) == 0);
        assert(numeral.last() == digit_char(n));
    } else {
        lemma_decimal_denotes(n / 10);
        let front = decimal(n / 10);
        let numeral = front.push(digit_char(n % 10));
        assert(numeral.drop_last() =~= front);
        assert(numeral.last() == digit_char(n % 10));
        assert forall|i: int| 0 <= i < numeral.len() implies is_digit(#[trigger] numeral[i]) by {
            if i < front.len() {
                assert(numeral[i] == front[i]);
            }
        }
    }
}

/// Reading back the numeral of a port gives that port.
pub proof fn lemma_decimal_round_trip(port: u16)
    ensures
        port_number(decimal(port as nat)) == Some(port),
{
    lemma_decimal_denotes(port as nat);
    let numeral = decimal(port as nat);
    assert(is_digit(numeral[0]));
}

/// An ASCII character and its one byte are the same number.
proof fn lemma_ascii_byte(c: char)
    requires
        c <= '\u{7f}',
    ensures
        c as u8 == c as int,
{
    let code = c as u32;
    assert(code as u8 == code) by (bit_vector)
        requires
            code <= 0x7f,
    ;
}

/// Reads a port number from `text`.
pub fn parse_port(text: &str) -> (port: Option<u16>)
    ensures
        port == port_number(text@),
{
    if !text.is_ascii() {
        proof {
            let i = choose|i: int| 0 <= i < text@.len() && !('\0' <= #[trigger] text@[i] <= '\u{7f}');
            let digits = unsigned_part(text@);
            if i == 0 {
                assert(digits[0] == text@[0]);
            } else if text@[0] == '+' {
                assert(digits[i - 1] == text@[i]);
            } else {
                assert(digits[i] == text@[i]);
            }
        }
        return None;
    }
    let bytes = text.as_bytes();
    proof {
        vstd::string::is_ascii_spec_bytes(text);
    }
    let n: usize = bytes.len();
    let start: usize = if n > 0 && bytes[0] == PLUS_SIGN {
        1
    } else {
        0
    };
    let ghost digits = unsigned_part(text@);
    assert(digits =~= text@.skip(start as int));
    if start == n {
        return None;
    }
    let mut value: u32 = 0;
    let mut i: usize = start;
    assert(digits.take(0) =~= Seq::<char>::empty());
    while i < n
        invariant
            start <= i <= n,
            n == text@.len(),
            n == bytes@.len(),
            digits == unsigned_part(text@),
            digits == text@.skip(start as int),
            forall|j: int|
                0 <= j < n ==> text@[j] <= '\u{7f}' && #[trigger] bytes@[j] == text@[j] as u8,
            forall|j: int| 0 <= j < i - start ==> is_digit(#[trigger] digits[j]),
            value == decimal_value(digits.take(i - start)),
            value <= u16::MAX,
        decreases n - i,
    {
        let b: u8 = bytes[i];
        let ghost c = text@[i as int];
        assert(digits[i - start] == c);
        proof {
            lemma_ascii_byte(c);
        }
        if b < DIGIT_ZERO || b > DIGIT_NINE {
            assert(!is_digit(c));
            return None;
        }
        assert(is_digit(c));
        assert(digits.take(i - start + 1).drop_last() =~= digits.take(i - start));
        assert(digits.take(i - start + 1).last() == c);
        value = value * 10 + (b - DIGIT_ZERO) as u32;
        if value > u16::MAX as u32 {
            proof {
                lemma_value_of_prefix(digits, i - start + 1);
            }
            return None;
        }
        i += 1;
    }
    assert(digits.take(n - start) =~= digits);
    Some(value as u16)
}

/// The text of one decimal digit.
fn digit_text(d: u16) -> (text: &'static str)
    requires
        d < 10,
    ensures
        text@ == seq![digit_char(d as nat)],
{
    let digits = "0123456789";
    proof {
        reveal_strlit("0123456789");
    }
    let text = digits.substring_ascii(d as usize, d as usize + 1);
    assert(text@ =~= seq![digit_char(d as nat)]);
    text
}

/// Writes the numeral of `n` at the end of `out`.
fn push_decimal(out: &mut String, n: u16)
    ensures
        final(out)@ == old(out)@ + decimal(n as nat),
    decreases n,
{
    if n >= 10 {
        push_decimal(out, n / 10);
    }
    out.append(digit_text(n % 10));
    proof {
        if n < 10 {
            assert(decimal(n as nat) =~= seq![digit_char(n as nat)]);
        } else {
            assert(decimal(n as nat) =~= decimal((n / 10) as nat) + seq![
                digit_char((n % 10) as nat),
            ]);
        }
        assert(final(out)@ =~= old(out)@ + decimal(n as nat));
    }
}

/// The decimal numeral of `port`.
pub fn port_text(port: u16) -> (text: String)
    ensures
        text@ == decimal(port as nat),
{
    let mut text = String::new();
    push_decimal(&mut text, port);
    assert(text@ =~= decimal(port as nat));
    text
}

} // verus!
