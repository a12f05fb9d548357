//! Decimal numbers as text.
use vstd::prelude::*;
use vstd::string::{StrSliceExecFns, StringExecFns};

verus! {

/// The character of a digit from zero to nine.
pub open spec fn digit(value: nat) -> char {
    if value == 0 {
        '0'
    } else if value == 1 {
        '1'
    } else if value == 2 {
        '2'
    } else if value == 3 {
        '3'
    } else if value == 4 {
        '4'
    } else if value == 5 {
        '5'
    } else if value == 6 {
        '6'
    } else if value == 7 {
        '7'
    } else if value == 8 {
        '8'
    } else {
        '9'
    }
}

/// Whether a character is one of the ten digits.
pub open spec fn is_digit(c: char) -> bool {
    '0' <= c <= '9'
}

/// The value of a digit.
pub open spec fn digit_value(c: char) -> nat {
    (c as u32 - '0' as u32) as nat
}

/// A natural number in decimal, without leading zeros.
pub open spec fn decimal(value: nat) -> Seq<char>
    decreases value,
{
    if value < 10 {
        seq![digit(value)]
    } else {
        decimal(value / 10).push(digit(value % 10))
    }
}

/// An integer in decimal, with a minus sign where it is negative.
pub open spec fn decimal_int(value: int) -> Seq<char> {
    if value < 0 {
        seq!['-'] + decimal((-value) as nat)
    } else {
        decimal(value as nat)
    }
}

/// The value of a run of digits.
pub open spec fn digits_value(digits: Seq<char>) -> nat
    decreases digits.len(),
{
    if digits.len() == 0 {
        0
    } else {
        10 * digits_value(digits.drop_last()) + digit_value(digits.last())
    }
}

/// A decimal number consists of digits, at least one, and its value is the number.
pub proof fn lemma_decimal_digits(value: nat)
    ensures
        decimal(value).len() >= 1,
        forall|i: int| 0 <= i < decimal(value).len() ==> is_digit(#[trigger] decimal(value)[i]),
        digits_value(decimal(value)) == value,
    decreases value,
{
    if value < 10 {
        assert(decimal(value).drop_last() =~= Seq::<char>::empty());
        assert(digits_value(decimal(value).drop_last()) == 0);
        assert(decimal(value).last() == digit(value));
    } else {
        lemma_decimal_digits(value / 10);
        assert(decimal(value).drop_last() =~= decimal(value / 10));
    }
}

/// Two integers with the same decimal text are equal.
pub proof fn lemma_decimal_int_injective(left: int, right: int)
    requires
        decimal_int(left) == decimal_int(right),
    ensures
        left == right,
{
    lemma_decimal_digits(if left < 0 { (-left) as nat } else { left as nat });
    lemma_decimal_digits(if right < 0 { (-right) as nat } else { right as nat });
    if left < 0 {
        assert(decimal_int(left)[0] == '-');
    }
    if right < 0 {
        assert(decimal_int(right)[0] == '-');
    }
    if left < 0 && right < 0 {
        assert(decimal_int(left).drop_first() =~= decimal((-left) as nat));
        assert(decimal_int(right).drop_first() =~= decimal((-right) as nat));
    }
}

/// No decimal text holds a character that is neither a digit nor the minus sign.
pub proof fn lemma_decimal_int_chars(value: int, c: char)
    requires
        !is_digit(c),
        c != '-',
    ensures
        !decimal_int(value).contains(c),
{
    lemma_decimal_digits(if value < 0 { (-value) as nat } else { value as nat });
}

fn digit_text(value: u64) -> (text: &'static str)
    requires
        value < 10,
    ensures
        text@ == seq![digit(value as nat)],
{
    proof {
        reveal_strlit("0");
        reveal_strlit("1");
        reveal_strlit("2");
        reveal_strlit("3");
        reveal_strlit("4");
        reveal_strlit("5");
        reveal_strlit("6");
        reveal_strlit("7");
        reveal_strlit("8");
        reveal_strlit("9");
    }
    let text = match value {
        0 => "0",
        1 => "1",
        2 => "2",
        3 => "3",
        4 => "4",
        5 => "5",
        6 => "6",
        7 => "7",
        8 => "8",
        _ => "9",
    };
    assert(text@ =~= seq![digit(value as nat)]);
    text
}

/// Appends a number in decimal.
pub fn append_decimal(out: &mut String, value: u64)
    ensures
        final(out)@ == old(out)@ + decimal(value as nat),
    decreases value,
{
    let ghost before = out@;
    if value >= 10 {
        append_decimal(out, value / 10);
    }
    out.append(digit_text(value % 10));
    assert(out@ =~= before + decimal(value as nat));
}

/// Appends a signed number in decimal.
pub fn append_signed(out: &mut String, value: i64)
    ensures
        final(out)@ == old(out)@ + decimal_int(value as int),
{
    let ghost before = out@;
    if value < 0 {
        proof {
            reveal_strlit("-");
        }
        out.append("-");
        let magnitude: u64 = (-(value + 1)) as u64 + 1;
        append_decimal(out, magnitude);
        assert(out@ =~= before + decimal_int(value as int));
    } else {
        append_decimal(out, value as u64);
    }
}

/// A number in decimal.
pub fn decimal_string(value: u64) -> (text: String)
    ensures
        text@ == decimal(value as nat),
{
    let mut text = String::new();
    append_decimal(&mut text, value);
    assert(text@ =~= decimal(value as nat));
    text
}

/// Whether a text consists of digits alone.
pub open spec fn all_digits(text: Seq<char>) -> bool {
    forall|i: int| 0 <= i < text.len() ==> is_digit(#[trigger] text[i])
}

/// A text without its sign.
pub open spec fn unsigned_part(text: Seq<char>) -> Seq<char> {
    if text.len() > 0 && (text[0] == '-' || text[0] == '+') {
        text.drop_first()
    } else {
        text
    }
}

/// The integer that an optional sign and digits spell.
pub open spec fn signed_value(text: Seq<char>) -> int {
    if text[0] == '-' {
        -(digits_value(unsigned_part(text)) as int)
    } else {
        digits_value(unsigned_part(text)) as int
    }
}

/// The `i32` that a text spells: an optional sign, then digits and nothing else, with a
/// value in range.
pub open spec fn parsed_i32(text: Seq<char>) -> Option<i32> {
    let digits = unsigned_part(text);
    if digits.len() > 0 && all_digits(digits) && i32::MIN <= signed_value(text) <= i32::MAX {
        Some(signed_value(text) as i32)
    } else {
        None
    }
}

/// Reads a text as an `i32`.
pub fn parse_i32(text: &str) -> (parsed: Option<i32>)
    ensures
        parsed == parsed_i32(text@),
{
    let length: usize = text.unicode_len();
    if length == 0 {
        return None;
    }
    let first = text.get_char(0);
    let negative: bool = first == '-';
    let start: usize = if negative || first == '+' {
        1
    } else {
        0
    };
    let ghost digits = unsigned_part(text@);
    if start == length {
        return None;
    }
    let limit: u64 = 0x8000_0000;
    let mut value: u64 = 0;
    let mut index: usize = start;
    assert(digits.take(0) =~= Seq::<char>::empty());
    while index < length
        invariant
            length == text@.len(),
            start <= 1,
            start <= index <= length,
            digits.len() == length - start,
            forall|i: int| 0 <= i < digits.len() ==> digits[i] == text@[i + start],
            forall|i: int| 0 <= i < index - start ==> is_digit(digits[i]),
            limit == 0x8000_0000,
            value <= limit ==> value == digits_value(digits.take(index - start)),
            value > limit ==> digits_value(digits.take(index - start)) > limit,
            value <= 11 * limit,
            digits == unsigned_part(text@),
        decreases length - index,
    {
        let c = text.get_char(index);
        assert(c == digits[index - start]);
        if !('0' <= c && c <= '9') {
            assert(!is_digit(digits[index - start]));
            return None;
        }
        proof {
            assert(digits.take(index - start + 1).drop_last() =~= digits.take(index - start));
            assert(digits.take(index - start + 1).last() == c);
        }
        if value <= limit {
            value = value * 10 + (c as u64 - '0' as u64);
        }
        index = index + 1;
    }
    assert(digits.take(length - start) =~= digits);
    if negative {
        if value > limit {
            None
        } else if value == limit {
            Some(i32::MIN)
        } else {
            Some(-(value as i32))
        }
    } else if value >= limit {
        None
    } else {
        Some(value as i32)
    }
}

/// The digits are the ten characters from `0` on, each with its value.
pub proof fn digits_are_the_ten_characters(value: nat, c: char)
    ensures
        value < 10 ==> digit(value) as int == 48 + value,
        is_digit(c) <==> 48 <= c as int <= 57,
        is_digit(c) ==> digit_value(c) == c as int - 48,
{
}

/// The last digit of a number is its remainder by ten, and the others spell what is left; only
/// zero begins with a zero.
pub proof fn decimals_have_no_leading_zero(value: nat)
    ensures
        decimal(value).last() as int == 48 + value % 10,
        value >= 10 ==> decimal(value).drop_last() == decimal(value / 10),
        value < 10 ==> decimal(value).len() == 1,
        value > 0 ==> decimal(value)[0] as int != 48,
    decreases value,
{
    if value >= 10 {
        decimals_have_no_leading_zero(value / 10);
        lemma_decimal_digits(value / 10);
        assert(decimal(value).drop_last() =~= decimal(value / 10));
        assert(decimal(value)[0] == decimal(value / 10)[0]);
    }
}

/// A number written down can be read back, with or without a plus sign before it; only numbers
/// that fit can be read.
pub proof fn numbers_are_read_back(value: int)
    ensures
        i32::MIN <= value <= i32::MAX ==> parsed_i32(decimal_int(value)) == Some(value as i32),
        0 <= value <= i32::MAX ==> parsed_i32(seq!['+'] + decimal_int(value)) == Some(
            value as i32,
        ),
        !(i32::MIN <= value <= i32::MAX) ==> parsed_i32(decimal_int(value)) is None,
{
    let size = if value < 0 {
        (-value) as nat
    } else {
        value as nat
    };
    lemma_decimal_digits(size);
    let text = decimal_int(value);
    if value < 0 {
        assert(text[0] == '-');
        assert(unsigned_part(text) =~= decimal(size));
    } else {
        assert(is_digit(text[0]));
        assert(unsigned_part(text) == decimal(size));
        let signed = seq!['+'] + text;
        assert(signed[0] == '+');
        assert(unsigned_part(signed) =~= decimal(size));
    }
}

/// Text that holds anything but digits behind its sign, or no digit at all, is no number.
pub proof fn other_texts_are_no_numbers(text: Seq<char>, i: int)
    ensures
        text.len() == 0 ==> parsed_i32(text) is None,
        0 < i < text.len() && !(48 <= text[i] as int <= 57) ==> parsed_i32(text) is None,
        text.len() > 0 && !(48 <= text[0] as int <= 57) && text[0] != '-' && text[0] != '+'
            ==> parsed_i32(text) is None,
        text.len() == 1 && !(48 <= text[0] as int <= 57) ==> parsed_i32(text) is None,
{
    let digits = unsigned_part(text);
    if 0 < i < text.len() && !(48 <= text[i] as int <= 57) {
        if text[0] == '-' || text[0] == '+' {
            assert(digits[i - 1] == text[i]);
            assert(!is_digit(digits[i - 1]));
        } else {
            assert(!is_digit(digits[i]));
        }
    }
    if text.len() > 0 && !(48 <= text[0] as int <= 57) && text[0] != '-' && text[0] != '+' {
        assert(!is_digit(digits[0]));
    }
}

} // verus!
