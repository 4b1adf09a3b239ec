//! Numbers as text.

use vstd::prelude::*;

verus! {

/// The decimal digit of a number below ten.
pub open spec fn digit(d: nat) -> char {
    (48 + d) as char
}

/// A number in decimal notation, without leading zeros.
pub open spec fn decimal(n: nat) -> Seq<char>
    decreases n,
{
    if n < 10 {
        seq![digit(n)]
    } else {
        decimal(n / 10).push(digit(n % 10))
    }
}

/// The decimal digit of a number below ten, as text.
fn digit_text(d: u64) -> (text: &'static str)
    requires
        d < 10,
    ensures
        text@ == seq![digit(d as nat)],
{
    proof {
        reveal_strlit("0");
        reveal_strlit("1");
        reveal_strlit("2");
        reveal_strlit("3");
        reveal_strlit("4");
        reveal_strlit("5");
        reveal_strlit("6");
        reveal_strlit("7");
        reveal_strlit("8");
        reveal_strlit("9");
    }
    match d {
        0 => "0",
        1 => "1",
        2 => "2",
        3 => "3",
        4 => "4",
        5 => "5",
        6 => "6",
        7 => "7",
        8 => "8",
        _ => "9",
    }
}

/// Appends a number to a text, in decimal notation.
pub fn append_decimal(text: &mut String, n: u64)
    ensures
        final(text)@ == old(text)@ + decimal(n as nat),
    decreases n,
{
    if n >= 10 {
        append_decimal(text, n / 10);
    }
    text.append(digit_text(n % 10));
}

/// A number in decimal notation.
pub fn decimal_text(n: u64) -> (text: String)
    ensures
        text@ == decimal(n as nat),
{
    let mut text = String::new();
    append_decimal(&mut text, n);
    assert(text@ == decimal(n as nat));
    text
}

/// The decimal notation of a number is never empty, and ends in the digit of
/// its remainder by ten.
proof fn lemma_decimal_last(n: nat)
    ensures
        decimal(n).len() > 0,
        decimal(n).last() == digit(n % 10),
        decimal(n).drop_last() == (if n < 10 {
            Seq::<char>::empty()
        } else {
            decimal(n / 10)
        }),
        n >= 10 ==> decimal(n / 10).len() > 0,
    decreases n,
{
    if n < 10 {
        assert(decimal(n).drop_last() =~= Seq::<char>::empty());
    } else {
        lemma_decimal_last(n / 10);
        assert(decimal(n).drop_last() =~= decimal(n / 10));
    }
}

/// The decimal notation tells numbers apart: a number can be read back from the
/// text that it was written as.
pub proof fn law_decimal_tells_numbers_apart(a: nat, b: nat)
    requires
        decimal(a) == decimal(b),
    ensures
        a == b,
    decreases a,
{
    lemma_decimal_last(a);
    lemma_decimal_last(b);
    assert((48 + a % 10) as char as int == (48 + b % 10) as char as int);
    assert(a % 10 == b % 10);
    if a >= 10 && b >= 10 {
        law_decimal_tells_numbers_apart(a / 10, b / 10);
    }
}

/// A number is written digit by digit: a digit alone is the character that many
/// places after `0`, and one more digit behind a number makes ten times as much,
/// and the digit.
pub proof fn law_decimal_digit_by_digit(n: nat, d: nat)
    requires
        d < 10,
    ensures
        decimal(d).len() == 1,
        decimal(d)[0] as int - '0' as int == d,
        n > 0 ==> decimal(10 * n + d) == decimal(n) + decimal(d),
{
    if n > 0 {
        assert((10 * n + d) / 10 == n && (10 * n + d) % 10 == d);
        assert(decimal(n).push(digit(d)) =~= decimal(n) + decimal(d));
    }
}

/// A number of three digits is written with three characters, which read as that
/// number.
pub proof fn law_three_digits_read_back(n: nat)
    requires
        100 <= n <= 999,
    ensures
        decimal(n).len() == 3,
        100 * (decimal(n)[0] as int - '0' as int) + 10 * (decimal(n)[1] as int - '0' as int) + (
        decimal(n)[2] as int - '0' as int) == n,
{
    let tens = n / 10;
    let hundreds = tens / 10;
    law_decimal_digit_by_digit(0, hundreds);
    law_decimal_digit_by_digit(hundreds, tens % 10);
    law_decimal_digit_by_digit(0, tens % 10);
    law_decimal_digit_by_digit(tens, n % 10);
    law_decimal_digit_by_digit(0, n % 10);
    assert(tens == 10 * hundreds + tens % 10 && n == 10 * tens + n % 10);
}

/// The lower-case hexadecimal digit of a number below sixteen.
pub open spec fn hex_digit(d: nat) -> char {
    if d < 10 {
        (48 + d) as char
    } else {
        (87 + d) as char
    }
}

/// The last `width` digits of a number in lower-case hexadecimal notation, with
/// leading zeros.
pub open spec fn hex(n: nat, width: nat) -> Seq<char>
    decreases width,
{
    if width == 0 {
        Seq::empty()
    } else {
        hex(n / 16, (width - 1) as nat).push(hex_digit(n % 16))
    }
}

} // verus!
