//! Small verified text-formatting helpers: hexadecimal and decimal
//! renderings of the integers that appear in page diagnostics.

use vstd::prelude::*;
use vstd::string::StringExecFns;

verus! {

/// The character for one digit in bases up to sixteen.
pub open spec fn spec_digit_char(n: int) -> char
    recommends
        0 <= n < 16,
{
    if n == 0 {
        '0'
    } else if n == 1 {
        '1'
    } else if n == 2 {
        '2'
    } else if n == 3 {
        '3'
    } else if n == 4 {
        '4'
    } else if n == 5 {
        '5'
    } else if n == 6 {
        '6'
    } else if n == 7 {
        '7'
    } else if n == 8 {
        '8'
    } else if n == 9 {
        '9'
    } else if n == 10 {
        'a'
    } else if n == 11 {
        'b'
    } else if n == 12 {
        'c'
    } else if n == 13 {
        'd'
    } else if n == 14 {
        'e'
    } else {
        'f'
    }
}

/// One digit as a borrowed one-character string.
pub fn digit_str(n: u8) -> (r: &'static str)
    requires
        n < 16,
    ensures
        r@ == seq![spec_digit_char(n as int)],
{
    let r: &'static str = if n == 0 {
        "0"
    } else if n == 1 {
        "1"
    } else if n == 2 {
        "2"
    } else if n == 3 {
        "3"
    } else if n == 4 {
        "4"
    } else if n == 5 {
        "5"
    } else if n == 6 {
        "6"
    } else if n == 7 {
        "7"
    } else if n == 8 {
        "8"
    } else if n == 9 {
        "9"
    } else if n == 10 {
        "a"
    } else if n == 11 {
        "b"
    } else if n == 12 {
        "c"
    } else if n == 13 {
        "d"
    } else if n == 14 {
        "e"
    } else {
        "f"
    };
    proof {
        reveal_strlit("0");
        reveal_strlit("1");
        reveal_strlit("2");
        reveal_strlit("3");
        reveal_strlit("4");
        reveal_strlit("5");
        reveal_strlit("6");
        reveal_strlit("7");
        reveal_strlit("8");
        reveal_strlit("9");
        reveal_strlit("a");
        reveal_strlit("b");
        reveal_strlit("c");
        reveal_strlit("d");
        reveal_strlit("e");
        reveal_strlit("f");
        assert(r@ =~= seq![spec_digit_char(n as int)]);
    }
    r
}

/// Two-digit hexadecimal rendering of one byte.
pub open spec fn spec_hex_byte(b: u8) -> Seq<char> {
    seq![spec_digit_char(b as int / 16), spec_digit_char(b as int % 16)]
}

/// Appends the two hexadecimal digits of `b` to `s`.
pub fn push_hex_byte(s: &mut String, b: u8)
    ensures
        final(s)@ == old(s)@ + spec_hex_byte(b),
{
    let ghost s0 = s@;
    s.append(digit_str(b / 16));
    s.append(digit_str(b % 16));
    proof {
        assert(s@ =~= s0 + spec_hex_byte(b));
    }
}

/// Hexadecimal rendering of a sixteen-bit value: lowercase, at least two
/// digits, and no leading zeros beyond that (0x4e20 renders as "4e20",
/// 0x3 as "03").
pub open spec fn spec_hex_u16(f: u16) -> Seq<char> {
    let n = f as int;
    if n >= 0x1000 {
        seq![
            spec_digit_char(n / 0x1000),
            spec_digit_char(n / 0x100 % 16),
            spec_digit_char(n / 16 % 16),
            spec_digit_char(n % 16),
        ]
    } else if n >= 0x100 {
        seq![spec_digit_char(n / 0x100), spec_digit_char(n / 16 % 16), spec_digit_char(n % 16)]
    } else {
        seq![spec_digit_char(n / 16), spec_digit_char(n % 16)]
    }
}

/// Appends the hexadecimal rendering of `f` to `s`.
pub fn push_hex_u16(s: &mut String, f: u16)
    ensures
        final(s)@ == old(s)@ + spec_hex_u16(f),
{
    let ghost s0 = s@;
    if f >= 0x1000 {
        s.append(digit_str((f / 0x1000) as u8));
        s.append(digit_str((f / 0x100 % 16) as u8));
        s.append(digit_str((f / 16 % 16) as u8));
        s.append(digit_str((f % 16) as u8));
    } else if f >= 0x100 {
        s.append(digit_str((f / 0x100) as u8));
        s.append(digit_str((f / 16 % 16) as u8));
        s.append(digit_str((f % 16) as u8));
    } else {
        s.append(digit_str((f / 16) as u8));
        s.append(digit_str((f % 16) as u8));
    }
    proof {
        assert(s@ =~= s0 + spec_hex_u16(f));
    }
}

/// Decimal rendering of a non-negative integer, most significant digit
/// first, with no leading zeros.
pub open spec fn spec_dec(n: int) -> Seq<char>
    recommends
        n >= 0,
    decreases n,
{
    if n < 10 {
        seq![spec_digit_char(n)]
    } else {
        spec_dec(n / 10) + seq![spec_digit_char(n % 10)]
    }
}

/// Appends the decimal rendering of `n` to `s`.
pub fn push_dec_u64(s: &mut String, n: u64)
    ensures
        final(s)@ == old(s)@ + spec_dec(n as int),
    decreases n,
{
    let ghost s0 = s@;
    if n >= 10 {
        push_dec_u64(s, n / 10);
        s.append(digit_str((n % 10) as u8));
        proof {
            assert(s@ =~= s0 + spec_dec(n as int));
        }
    } else {
        s.append(digit_str(n as u8));
        proof {
            assert(s@ =~= s0 + spec_dec(n as int));
        }
    }
}

} // verus!
