//! Verified rendering of 16-bit words as decimal, hexadecimal, octal and
//! binary text, used by the disassembler and by register displays.

use vstd::prelude::*;

verus! {

/// The character for the digit value `d`, with the values 10..15 as the
/// upper-case letters A..F.
pub open spec fn spec_digit(d: u16) -> char {
    if d == 0 {
        '0'
    } else if d == 1 {
        '1'
    } else if d == 2 {
        '2'
    } else if d == 3 {
        '3'
    } else if d == 4 {
        '4'
    } else if d == 5 {
        '5'
    } else if d == 6 {
        '6'
    } else if d == 7 {
        '7'
    } else if d == 8 {
        '8'
    } else if d == 9 {
        '9'
    } else if d == 10 {
        'A'
    } else if d == 11 {
        'B'
    } else if d == 12 {
        'C'
    } else if d == 13 {
        'D'
    } else if d == 14 {
        'E'
    } else {
        'F'
    }
}

fn digit_str(d: u16) -> (r: &'static str)
    requires
        d < 16,
    ensures
        r@ == seq![spec_digit(d)],
{
    proof {
        reveal_strlit("0");
        reveal_strlit("1");
        reveal_strlit("2");
        reveal_strlit("3");
        reveal_strlit("4");
        reveal_strlit("5");
        reveal_strlit("6");
        reveal_strlit("7");
        reveal_strlit("8");
        reveal_strlit("9");
        reveal_strlit("A");
        reveal_strlit("B");
        reveal_strlit("C");
        reveal_strlit("D");
        reveal_strlit("E");
        reveal_strlit("F");
    }
    let r = match d {
        0 => "0",
        1 => "1",
        2 => "2",
        3 => "3",
        4 => "4",
        5 => "5",
        6 => "6",
        7 => "7",
        8 => "8",
        9 => "9",
        10 => "A",
        11 => "B",
        12 => "C",
        13 => "D",
        14 => "E",
        _ => "F",
    };
    proof {
        assert(r@ =~= seq![spec_digit(d)]);
    }
    r
}

/// The digits of `n` in the given base, most significant first, with no
/// padding; a lone zero digit for `n == 0`.
pub open spec fn spec_radix(n: u16, base: u16) -> Seq<char>
    recommends
        2 <= base <= 16,
    decreases n,
    via spec_radix_decreases
{
    if base < 2 || n < base {
        seq![spec_digit(if base < 2 { 0 } else { n })]
    } else {
        spec_radix(n / base, base) + seq![spec_digit(n % base)]
    }
}

#[via_fn]
proof fn spec_radix_decreases(n: u16, base: u16) {
    if !(base < 2 || n < base) {
        vstd::arithmetic::div_mod::lemma_div_is_strictly_smaller(n as int, base as int);
    }
}

/// Renders `n` in the given base, most significant digit first.
pub fn radix_string(n: u16, base: u16) -> (r: String)
    requires
        2 <= base <= 16,
    ensures
        r@ == spec_radix(n, base),
    decreases n,
{
    if n < base {
        String::from_str(digit_str(n))
    } else {
        proof {
            vstd::arithmetic::div_mod::lemma_div_is_strictly_smaller(n as int, base as int);
        }
        let mut s = radix_string(n / base, base);
        s.append(digit_str(n % base));
        s
    }
}

/// The decimal digits of `v` read as a 16-bit two's-complement value: a minus
/// sign and the magnitude for values with the sign bit set.
pub open spec fn spec_signed_decimal(v: u16) -> Seq<char> {
    if v < 0x8000 {
        spec_radix(v, 10)
    } else {
        seq!['-'] + spec_radix((0x10000 - v) as u16, 10)
    }
}

/// Renders `v` as a signed decimal number, reading it as two's complement.
pub fn signed_decimal_string(v: u16) -> (r: String)
    ensures
        r@ == spec_signed_decimal(v),
{
    if v < 0x8000 {
        radix_string(v, 10)
    } else {
        let magnitude: u16 = ((0x10000u32 - (v as u32)) as u16);
        let mut s = String::from_str("-");
        proof {
            reveal_strlit("-");
            assert(s@ =~= seq!['-']);
        }
        s.append(radix_string(magnitude, 10).as_str());
        s
    }
}

/// Four hexadecimal digits of `n`, most significant first, zero padded.
pub open spec fn spec_hex4(n: u16) -> Seq<char> {
    seq![
        spec_digit((n >> 12) & 0xF),
        spec_digit((n >> 8) & 0xF),
        spec_digit((n >> 4) & 0xF),
        spec_digit(n & 0xF),
    ]
}

/// Renders `n` as four upper-case hexadecimal digits, zero padded.
pub fn hex4_string(n: u16) -> (r: String)
    ensures
        r@ == spec_hex4(n),
{
    proof {
        assert((n >> 12) & 0xF < 16) by (bit_vector);
        assert((n >> 8) & 0xF < 16) by (bit_vector);
        assert((n >> 4) & 0xF < 16) by (bit_vector);
        assert(n & 0xF < 16) by (bit_vector);
    }
    let mut s = String::from_str(digit_str((n >> 12) & 0xF));
    s.append(digit_str((n >> 8) & 0xF));
    s.append(digit_str((n >> 4) & 0xF));
    s.append(digit_str(n & 0xF));
    proof {
        assert(s@ =~= spec_hex4(n));
    }
    s
}

/// Sixteen binary digits of `n`, most significant first, zero padded.
pub open spec fn spec_bin16(n: u16) -> Seq<char> {
    Seq::new(16, |i: int| spec_digit((n >> ((15 - i) as u16)) & 1))
}

/// Renders `n` as sixteen binary digits, zero padded.
pub fn bin16_string(n: u16) -> (r: String)
    ensures
        r@ == spec_bin16(n),
{
    let mut s = String::new();
    let mut i: usize = 0;
    while i < 16
        invariant
            i <= 16,
            s@ == Seq::new(i as nat, |j: int| spec_digit((n >> ((15 - j) as u16)) & 1)),
        decreases 16 - i,
    {
        let shift: u16 = (15 - i) as u16;
        let d: u16 = (n >> shift) & 1;
        proof {
            assert((n >> shift) & 1 < 16) by (bit_vector);
        }
        s.append(digit_str(d));
        i = i + 1;
        proof {
            assert(s@ =~= Seq::new(i as nat, |j: int| spec_digit((n >> ((15 - j) as u16)) & 1)));
        }
    }
    proof {
        assert(s@ =~= spec_bin16(n));
    }
    s
}

/// The numeric bases a register word can be displayed in.
#[derive(Clone, Copy, PartialEq, Eq, Structural, Debug)]
pub enum DisplayFormat {
    Decimal,
    Hexadecimal,
    Octal,
    Binary,
}

impl DisplayFormat {
    /// The text of `input` in this format: plain decimal, four padded
    /// upper-case hexadecimal digits, plain octal, or sixteen padded binary
    /// digits.
    pub open spec fn spec_format(self, input: u16) -> Seq<char> {
        match self {
            DisplayFormat::Decimal => spec_radix(input, 10),
            DisplayFormat::Hexadecimal => spec_hex4(input),
            DisplayFormat::Octal => spec_radix(input, 8),
            DisplayFormat::Binary => spec_bin16(input),
        }
    }

    pub fn format(&self, input: u16) -> (r: String)
        ensures
            r@ == self.spec_format(input),
    {
        match self {
            DisplayFormat::Decimal => radix_string(input, 10),
            DisplayFormat::Hexadecimal => hex4_string(input),
            DisplayFormat::Octal => radix_string(input, 8),
            DisplayFormat::Binary => bin16_string(input),
        }
    }
}

} // verus!
