//! The text form of a snowflake, as the Postgres types read and write it:
//! decimal digits, optionally after a `+` sign, for any 64-bit value.
use vstd::prelude::*;

verus! {

pub open spec fn is_digit(byte: u8) -> bool {
    0x30 <= byte <= 0x39
}

/// The value of a sequence of decimal digits, most significant first.
pub open spec fn digits_value(digits: Seq<u8>) -> nat
    decreases digits.len(),
{
    if digits.len() == 0 {
        0
    } else {
        digits_value(digits.drop_last()) * 10 + (digits.last() - 0x30) as nat
    }
}

/// The text with one leading `+` sign, if any, taken off.
pub open spec fn unsigned_part(text: Seq<u8>) -> Seq<u8> {
    if text.len() > 0 && text[0] == 0x2b {
        text.drop_first()
    } else {
        text
    }
}

/// Whether the text is an optional `+` sign followed by one or more decimal
/// digits and nothing else.
pub open spec fn is_number_text(text: Seq<u8>) -> bool {
    let digits = unsigned_part(text);
    &&& digits.len() > 0
    &&& forall|i: int| 0 <= i < digits.len() ==> is_digit(#[trigger] digits[i])
}

/// The shortest decimal digits of a value, most significant first.
pub open spec fn decimal_text(value: nat) -> Seq<u8>
    decreases value,
{
    if value < 10 {
        seq![(0x30 + value) as u8]
    } else {
        decimal_text(value / 10).push((0x30 + value % 10) as u8)
    }
}

proof fn lemma_digits_value_prefix_le(digits: Seq<u8>, k: int)
    requires
        0 <= k <= digits.len(),
        forall|i: int| 0 <= i < digits.len() ==> is_digit(#[trigger] digits[i]),
    ensures
        digits_value(digits.take(k)) <= digits_value(digits),
    decreases digits.len() - k,
{
    if k < digits.len() {
        lemma_digits_value_prefix_le(digits, k + 1);
        assert(digits.take(k + 1).drop_last() =~= digits.take(k));
    } else {
        assert(digits.take(k) =~= digits);
    }
}

/// Whether the text is one the Postgres types accept: an optional `+` sign
/// followed by decimal digits whose value fits in 64 bits.
pub open spec fn is_snowflake_text(text: Seq<u8>) -> bool {
    is_number_text(text) && digits_value(unsigned_part(text)) <= u64::MAX
}

/// Tells whether a text is one the Postgres types accept.
pub fn snowflake_text_is_valid(text: &[u8]) -> (valid: bool)
    ensures
        valid == is_snowflake_text(text@),
{
    let start: usize = if text.len() > 0 && text[0] == 0x2b { 1 } else { 0 };
    let ghost digits = unsigned_part(text@);
    assert(digits =~= text@.subrange(start as int, text@.len() as int));
    if start == text.len() {
        assert(digits.len() == 0);
        return false;
    }
    let mut i: usize = start;
    while i < text.len()
        invariant
            start <= i <= text.len(),
            digits == unsigned_part(text@),
            digits =~= text@.subrange(start as int, text@.len() as int),
            forall|j: int| 0 <= j < i - start ==> is_digit(#[trigger] digits[j]),
        decreases text.len() - i,
    {
        if text[i] < 0x30 || text[i] > 0x39 {
            assert(!is_digit(digits[i - start]));
            return false;
        }
        i = i + 1;
    }
    let mut value: u64 = 0;
    let mut i: usize = start;
    while i < text.len()
        invariant
            start <= i <= text.len(),
            digits == unsigned_part(text@),
            digits =~= text@.subrange(start as int, text@.len() as int),
            forall|j: int| 0 <= j < digits.len() ==> is_digit(#[trigger] digits[j]),
            value == digits_value(digits.take(i - start)),
        decreases text.len() - i,
    {
        let ghost k = i - start;
        assert(digits.take(k + 1).drop_last() =~= digits.take(k));
        assert(digits.take(k + 1).last() == text[i as int]);
        let digit = (text[i] - 0x30) as u64;
        match value.checked_mul(10) {
            None => {
                proof {
                    lemma_digits_value_prefix_le(digits, k + 1);
                    assert(digits_value(digits.take(k + 1)) == value * 10 + digit);
                }
                return false;
            },
            Some(tens) => match tens.checked_add(digit) {
                None => {
                    proof {
                        lemma_digits_value_prefix_le(digits, k + 1);
                        assert(digits_value(digits.take(k + 1)) == value * 10 + digit);
                    }
                    return false;
                },
                Some(next) => {
                    value = next;
                },
            },
        }
        i = i + 1;
    }
    assert(digits.take(digits.len() as int) =~= digits);
    true
}

/// Reads the value of a text the Postgres types accept.
pub fn read_snowflake_text(text: &[u8]) -> (value: u64)
    requires
        is_snowflake_text(text@),
    ensures
        value == digits_value(unsigned_part(text@)),
{
    let start: usize = if text.len() > 0 && text[0] == 0x2b { 1 } else { 0 };
    let ghost digits = unsigned_part(text@);
    assert(digits =~= text@.subrange(start as int, text@.len() as int));
    let mut value: u64 = 0;
    let mut i: usize = start;
    while i < text.len()
        invariant
            start <= i <= text.len(),
            digits == unsigned_part(text@),
            digits =~= text@.subrange(start as int, text@.len() as int),
            forall|j: int| 0 <= j < digits.len() ==> is_digit(#[trigger] digits[j]),
            digits_value(digits) <= u64::MAX,
            value == digits_value(digits.take(i - start)),
        decreases text.len() - i,
    {
        let ghost k = i - start;
        assert(digits.take(k + 1).drop_last() =~= digits.take(k));
        assert(digits.take(k + 1).last() == text[i as int]);
        proof {
            lemma_digits_value_prefix_le(digits, k + 1);
        }
        value = value * 10 + (text[i] - 0x30) as u64;
        i = i + 1;
    }
    assert(digits.take(digits.len() as int) =~= digits);
    value
}

/// Reads a snowflake from its text: an optional `+` sign followed by decimal
/// digits whose value fits in 64 bits. Anything else is refused.
pub fn parse_snowflake_text(text: &[u8]) -> (value: Option<u64>)
    ensures
        value is Some <==> is_snowflake_text(text@),
        value matches Some(v) ==> v == digits_value(unsigned_part(text@)),
{
    if snowflake_text_is_valid(text) {
        Some(read_snowflake_text(text))
    } else {
        None
    }
}

/// Writes a snowflake as its shortest decimal digits.
pub fn format_snowflake_text(value: u64) -> (text: Vec<u8>)
    ensures
        text@ == decimal_text(value as nat),
    decreases value,
{
    if value < 10 {
        let mut text = Vec::new();
        text.push(0x30 + value as u8);
        proof {
            assert(text@ =~= decimal_text(value as nat));
        }
        text
    } else {
        let mut text = format_snowflake_text(value / 10);
        text.push(0x30 + (value % 10) as u8);
        text
    }
}

/// Reading the text a snowflake is written as gives the snowflake back.
pub proof fn lemma_text_roundtrip(value: u64)
    ensures
        is_number_text(decimal_text(value as nat)),
        digits_value(unsigned_part(decimal_text(value as nat))) == value,
{
    lemma_decimal_text_digits(value as nat);
}

proof fn lemma_decimal_text_digits(value: nat)
    ensures
        decimal_text(value).len() > 0,
        decimal_text(value)[0] != 0x2b,
        forall|i: int| 0 <= i < decimal_text(value).len() ==> is_digit(#[trigger] decimal_text(value)[i]),
        digits_value(decimal_text(value)) == value,
    decreases value,
{
    if value < 10 {
        let text = decimal_text(value);
        assert(text.drop_last() =~= Seq::<u8>::empty());
        assert(digits_value(Seq::<u8>::empty()) == 0);
        assert(text.last() == (0x30 + value) as u8);
    } else {
        lemma_decimal_text_digits(value / 10);
        let text = decimal_text(value);
        assert(text.drop_last() =~= decimal_text(value / 10));
        assert(text.last() == (0x30 + value % 10) as u8);
        assert((text.last() - 0x30) as nat == value % 10);
        assert(value == (value / 10) * 10 + value % 10);
        assert forall|i: int| 0 <= i < text.len() implies is_digit(#[trigger] text[i]) by {
            if i < text.len() - 1 {
                assert(text[i] == decimal_text(value / 10)[i]);
            }
        }
    }
}

} // verus!
