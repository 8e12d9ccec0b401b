//! Decimal and hexadecimal rendering of integers, as `format!` renders them
//! with `{}` and `{:02x}`.

use vstd::prelude::*;

verus! {

/// The character of digit `d` (0 to 15): `0`-`9`, then lower-case `a`-`f`.
pub open spec fn digit_char(d: int) -> char {
    if d < 10 {
        (d + 48) as char
    } else {
        (d + 87) as char
    }
}

/// Decimal digits of `n`, without leading zeros.
pub open spec fn decimal(n: nat) -> Seq<char>
    decreases n,
{
    if n < 10 {
        seq![digit_char(n as int)]
    } else {
        decimal(n / 10).push(digit_char((n % 10) as int))
    }
}

/// Decimal text of `i`, with a leading `-` when it is negative.
pub open spec fn signed_decimal(i: int) -> Seq<char> {
    if i < 0 {
        seq!['-'] + decimal((-i) as nat)
    } else {
        decimal(i as nat)
    }
}

/// The two lower-case hexadecimal digits of a byte.
pub open spec fn hex_byte(b: u8) -> Seq<char> {
    seq![digit_char((b / 16) as int), digit_char((b % 16) as int)]
}

/// The text of digit `d`.
pub fn digit_str(d: u8) -> (s: &'static str)
    requires
        d < 16,
    ensures
        s@ == seq![digit_char(d as int)],
{
    proof {
        reveal_strlit("0");
        reveal_strlit("1");
        reveal_strlit("2");
        reveal_strlit("3");
        reveal_strlit("4");
        reveal_strlit("5");
        reveal_strlit("6");
        reveal_strlit("7");
        reveal_strlit("8");
        reveal_strlit("9");
        reveal_strlit("a");
        reveal_strlit("b");
        reveal_strlit("c");
        reveal_strlit("d");
        reveal_strlit("e");
        reveal_strlit("f");
    }
    match d {
        0 => "0",
        1 => "1",
        2 => "2",
        3 => "3",
        4 => "4",
        5 => "5",
        6 => "6",
        7 => "7",
        8 => "8",
        9 => "9",
        10 => "a",
        11 => "b",
        12 => "c",
        13 => "d",
        14 => "e",
        _ => "f",
    }
}

/// Appends the decimal digits of `n` to `out`.
pub fn push_decimal(out: &mut String, n: u64)
    ensures
        final(out)@ == old(out)@ + decimal(n as nat),
    decreases n,
{
    if n >= 10 {
        push_decimal(out, n / 10);
    }
    let d = (n % 10) as u8;
    out.append(digit_str(d));
    proof {
        if n >= 10 {
            assert(decimal(n as nat) == decimal((n / 10) as nat).push(digit_char((n % 10) as int)));
        }
    }
    assert(out@ =~= old(out)@ + decimal(n as nat));
}

/// Appends the decimal text of `i` to `out`, with a leading `-` when it is
/// negative.
pub fn push_signed_decimal(out: &mut String, i: i64)
    ensures
        final(out)@ == old(out)@ + signed_decimal(i as int),
{
    proof {
        reveal_strlit("-");
    }
    if i < 0 {
        out.append("-");
        let magnitude: u64 = (-(i as i128)) as u64;
        push_decimal(out, magnitude);
        assert(out@ =~= old(out)@ + signed_decimal(i as int));
    } else {
        push_decimal(out, i as u64);
    }
}

/// Lower-case hexadecimal text of `bytes`, two digits per byte.
pub open spec fn hex_text(bytes: Seq<u8>) -> Seq<char>
    decreases bytes.len(),
{
    if bytes.len() == 0 {
        Seq::empty()
    } else {
        hex_text(bytes.drop_last()) + hex_byte(bytes.last())
    }
}

/// Appends the two lower-case hexadecimal digits of `b` to `out`.
pub fn push_hex_byte(out: &mut String, b: u8)
    ensures
        final(out)@ == old(out)@ + hex_byte(b),
{
    out.append(digit_str(b / 16));
    out.append(digit_str(b % 16));
    assert(out@ =~= old(out)@ + hex_byte(b));
}

/// The value of a run of decimal digits.
pub open spec fn digits_value(s: Seq<char>) -> int
    decreases s.len(),
{
    if s.len() == 0 {
        0
    } else {
        digits_value(s.drop_last()) * 10 + ((s.last() as int) - 48)
    }
}

/// The value that a decimal text, with an optional leading `-`, reads as.
pub open spec fn signed_text_value(s: Seq<char>) -> int {
    if s.len() > 0 && s[0] == '-' {
        -digits_value(s.drop_first())
    } else {
        digits_value(s)
    }
}

/// The character is a decimal digit.
pub open spec fn is_digit(c: char) -> bool {
    '0' <= c && c <= '9'
}

/// The decimal text of `n` is a non-empty run of digits that reads back as
/// `n`, and it starts with `0` only when it is `0`.
pub proof fn lemma_decimal_reads_back(n: nat)
    ensures
        decimal(n).len() > 0,
        forall|i: int| 0 <= i < decimal(n).len() ==> is_digit(#[trigger] decimal(n)[i]),
        digits_value(decimal(n)) == n,
        decimal(n)[0] == '0' ==> n == 0,
    decreases n,
{
    if n >= 10 {
        lemma_decimal_reads_back(n / 10);
        let d = decimal(n / 10);
        let s = decimal(n);
        assert(s == d.push(digit_char((n % 10) as int)));
        assert(s.drop_last() =~= d);
        assert forall|i: int| 0 <= i < s.len() implies is_digit(#[trigger] s[i]) by {
            if i < d.len() {
                assert(s[i] == d[i]);
            }
        }
        assert(s[0] == d[0]);
        assert((digit_char((n % 10) as int) as int) == (n % 10) + 48);
        assert(digits_value(s) == digits_value(d) * 10 + ((n % 10) as int));
        assert((n / 10) * 10 + n % 10 == n);
    } else {
        let s = decimal(n);
        assert(s.drop_last() =~= Seq::<char>::empty());
        assert(digits_value(s.drop_last()) == 0);
        assert((digit_char(n as int) as int) == n + 48);
        assert(digits_value(s) == ((s.last() as int) - 48));
    }
}

/// The text of a signed integer reads back as that integer, and starts with
/// `-` exactly when it is negative.
pub proof fn lemma_signed_decimal_reads_back(i: int)
    ensures
        signed_text_value(signed_decimal(i)) == i,
        (signed_decimal(i)[0] == '-') <==> i < 0,
{
    if i < 0 {
        lemma_decimal_reads_back((-i) as nat);
        assert((seq!['-'] + decimal((-i) as nat)).drop_first() =~= decimal((-i) as nat));
    } else {
        lemma_decimal_reads_back(i as nat);
        assert(is_digit(decimal(i as nat)[0]));
    }
}

} // verus!
