//! Rendering of numbers as text: decimal, signed decimal and hexadecimal.

use vstd::prelude::*;

verus! {

/// The character that writes the digit `d` (`0`-`9`, then lowercase `a`-`f`).
pub open spec fn digit_char(d: nat) -> char {
    if d == 0 {
        '0'
    } else if d == 1 {
        '1'
    } else if d == 2 {
        '2'
    } else if d == 3 {
        '3'
    } else if d == 4 {
        '4'
    } else if d == 5 {
        '5'
    } else if d == 6 {
        '6'
    } else if d == 7 {
        '7'
    } else if d == 8 {
        '8'
    } else if d == 9 {
        '9'
    } else if d == 10 {
        'a'
    } else if d == 11 {
        'b'
    } else if d == 12 {
        'c'
    } else if d == 13 {
        'd'
    } else if d == 14 {
        'e'
    } else {
        'f'
    }
}

/// The decimal digits of `n`, most significant first, without leading zeros.
pub open spec fn decimal_text(n: nat) -> Seq<char>
    decreases n,
{
    if n < 10 {
        seq![digit_char(n)]
    } else {
        decimal_text(n / 10) + seq![digit_char(n % 10)]
    }
}

/// `i` in decimal, with a leading `-` when it is negative.
pub open spec fn signed_text(i: int) -> Seq<char> {
    if i < 0 {
        seq!['-'] + decimal_text((-i) as nat)
    } else {
        decimal_text(i as nat)
    }
}

/// `i` in decimal with its sign always written (`+0`, `+5`, `-3`).
pub open spec fn plus_signed_text(i: int) -> Seq<char> {
    if i < 0 {
        seq!['-'] + decimal_text((-i) as nat)
    } else {
        seq!['+'] + decimal_text(i as nat)
    }
}

/// The hexadecimal digits of `n`, most significant first, without leading zeros.
pub open spec fn hex_text(n: nat) -> Seq<char>
    decreases n,
{
    if n < 16 {
        seq![digit_char(n)]
    } else {
        hex_text(n / 16) + seq![digit_char(n % 16)]
    }
}

/// The lowest `width` hexadecimal digits of `n`, most significant first, zero-padded.
pub open spec fn hex_fixed_text(n: nat, width: nat) -> Seq<char>
    decreases width,
{
    if width == 0 {
        seq![]
    } else {
        hex_fixed_text(n / 16, (width - 1) as nat) + seq![digit_char(n % 16)]
    }
}

fn digit_str(d: u64) -> (s: &'static str)
    requires
        d < 16,
    ensures
        s@ == seq![digit_char(d as nat)],
{
    if d == 0 {
        proof { reveal_strlit("0"); }
        "0"
    } else if d == 1 {
        proof { reveal_strlit("1"); }
        "1"
    } else if d == 2 {
        proof { reveal_strlit("2"); }
        "2"
    } else if d == 3 {
        proof { reveal_strlit("3"); }
        "3"
    } else if d == 4 {
        proof { reveal_strlit("4"); }
        "4"
    } else if d == 5 {
        proof { reveal_strlit("5"); }
        "5"
    } else if d == 6 {
        proof { reveal_strlit("6"); }
        "6"
    } else if d == 7 {
        proof { reveal_strlit("7"); }
        "7"
    } else if d == 8 {
        proof { reveal_strlit("8"); }
        "8"
    } else if d == 9 {
        proof { reveal_strlit("9"); }
        "9"
    } else if d == 10 {
        proof { reveal_strlit("a"); }
        "a"
    } else if d == 11 {
        proof { reveal_strlit("b"); }
        "b"
    } else if d == 12 {
        proof { reveal_strlit("c"); }
        "c"
    } else if d == 13 {
        proof { reveal_strlit("d"); }
        "d"
    } else if d == 14 {
        proof { reveal_strlit("e"); }
        "e"
    } else {
        proof { reveal_strlit("f"); }
        "f"
    }
}

/// Appends `n` in decimal.
pub fn push_decimal(s: &mut String, n: u64)
    ensures
        final(s)@ == old(s)@ + decimal_text(n as nat),
    decreases n,
{
    if n < 10 {
        s.append(digit_str(n));
    } else {
        push_decimal(s, n / 10);
        s.append(digit_str(n % 10));
        assert(final(s)@ =~= old(s)@ + decimal_text(n as nat));
    }
}

/// Appends `i` in decimal, with a `-` in front when it is negative.
pub fn push_signed(s: &mut String, i: i64)
    ensures
        final(s)@ == old(s)@ + signed_text(i as int),
{
    if i < 0 {
        proof { reveal_strlit("-"); }
        s.append("-");
        let magnitude: u64 = (-(i + 1)) as u64 + 1;
        push_decimal(s, magnitude);
        assert(final(s)@ =~= old(s)@ + signed_text(i as int));
    } else {
        push_decimal(s, i as u64);
    }
}

/// Appends `i` in decimal with its sign always written.
pub fn push_plus_signed(s: &mut String, i: i64)
    ensures
        final(s)@ == old(s)@ + plus_signed_text(i as int),
{
    if i < 0 {
        push_signed(s, i);
    } else {
        proof { reveal_strlit("+"); }
        s.append("+");
        push_decimal(s, i as u64);
        assert(final(s)@ =~= old(s)@ + plus_signed_text(i as int));
    }
}

/// Appends the hexadecimal digits of `n`, without leading zeros.
pub fn push_hex(s: &mut String, n: u64)
    ensures
        final(s)@ == old(s)@ + hex_text(n as nat),
    decreases n,
{
    if n < 16 {
        s.append(digit_str(n));
    } else {
        push_hex(s, n / 16);
        s.append(digit_str(n % 16));
        assert(final(s)@ =~= old(s)@ + hex_text(n as nat));
    }
}

/// Appends the lowest `width` hexadecimal digits of `n`, zero-padded.
pub fn push_hex_fixed(s: &mut String, n: u64, width: u32)
    ensures
        final(s)@ == old(s)@ + hex_fixed_text(n as nat, width as nat),
    decreases width,
{
    if width > 0 {
        push_hex_fixed(s, n / 16, width - 1);
        s.append(digit_str(n % 16));
        assert(final(s)@ =~= old(s)@ + hex_fixed_text(n as nat, width as nat));
    } else {
        assert(final(s)@ =~= old(s)@ + hex_fixed_text(n as nat, width as nat));
    }
}

} // verus!
