//! Decimal notation of unsigned integers.

use vstd::prelude::*;

verus! {

/// Decimal digit with the specified value.
pub open spec fn digit_char(digit: nat) -> char {
    ('0' as u32 + digit) as char
}

/// Decimal notation of `value` without leading zeros.
pub open spec fn decimal(value: nat) -> Seq<char>
    decreases value,
{
    if value < 10 {
        seq![digit_char(value)]
    } else {
        decimal(value / 10).push(digit_char(value % 10))
    }
}

/// Returns the text of a single decimal digit.
fn digit_str(digit: u64) -> (res: &'static str)
    requires
        digit < 10,
    ensures
        res@ == seq![digit_char(digit as nat)],
{
    proof {
        reveal_strlit("0");
        reveal_strlit("1");
        reveal_strlit("2");
        reveal_strlit("3");
        reveal_strlit("4");
        reveal_strlit("5");
        reveal_strlit("6");
        reveal_strlit("7");
        reveal_strlit("8");
        reveal_strlit("9");
    }
    match digit {
        0 => "0",
        1 => "1",
        2 => "2",
        3 => "3",
        4 => "4",
        5 => "5",
        6 => "6",
        7 => "7",
        8 => "8",
        _ => "9",
    }
}

/// Appends the decimal notation of `value` to `text`.
pub fn append_decimal(text: &mut String, value: u64)
    ensures
        final(text)@ == old(text)@ + decimal(value as nat),
    decreases value,
{
    if value >= 10 {
        append_decimal(text, value / 10);
    }
    text.append(digit_str(value % 10));
}

/// Number that a text of decimal digits stands for.
pub open spec fn digits_value(text: Seq<char>) -> int
    decreases text.len(),
{
    if text.len() == 0 {
        0
    } else {
        10 * digits_value(text.drop_last()) + (text.last() as int - 48)
    }
}

/// Whether a text is the decimal notation of a number: it consists of decimal digits, has no leading
/// zeros, and stands for the number.
pub open spec fn is_decimal_of(text: Seq<char>, value: int) -> bool {
    &&& text.len() > 0
    &&& forall|i: int| 0 <= i < text.len() ==> 48 <= #[trigger] text[i] as int <= 57
    &&& text[0] as int == 48 ==> text.len() == 1
    &&& digits_value(text) == value
}

/// The decimal notation of a number can be read back.
pub proof fn law_decimal_notation_is_read_back(value: nat)
    ensures
        is_decimal_of(decimal(value), value as int),
    decreases value,
{
    if value < 10 {
        let text = seq![digit_char(value)];
        assert(text.drop_last() =~= Seq::empty());
        assert(digits_value(text.drop_last()) == 0);
    } else {
        let rest = decimal(value / 10);
        let text = rest.push(digit_char(value % 10));
        law_decimal_notation_is_read_back(value / 10);
        assert(text.drop_last() =~= rest);
        assert(text[0] == rest[0]);
        if rest[0] as int == 48 {
            assert(digits_value(rest.drop_last()) == 0) by {
                assert(rest.drop_last() =~= Seq::empty());
            }
            assert(value / 10 == 0);
        }
        assert forall|i: int| 0 <= i < text.len() implies 48 <= #[trigger] text[i] as int <= 57 by {
            if i < rest.len() {
                assert(text[i] == rest[i]);
            }
        }
    }
}

/// Appending a number to a text keeps the text and adds the decimal notation of the number.
pub proof fn law_appended_number_is_read_back(text: &mut String, value: u64)
    requires
        call_ensures(append_decimal, (text, value), ()),
    ensures
        final(text)@.len() > old(text)@.len(),
        final(text)@.take(old(text)@.len() as int) == old(text)@,
        is_decimal_of(final(text)@.skip(old(text)@.len() as int), value as int),
{
    law_decimal_notation_is_read_back(value as nat);
    assert(final(text)@.take(old(text)@.len() as int) =~= old(text)@);
    assert(final(text)@.skip(old(text)@.len() as int) =~= decimal(value as nat));
}

} // verus!
