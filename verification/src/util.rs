//! Sizes in bytes, written for a reader.

use crate::text::{decimal, digit_char, digit_of, push_padded, push_str, to_string};
use vstd::prelude::*;

verus! {

/// A number of bytes that is shown in binary units.
#[derive(Debug, Clone, Copy, PartialEq, Eq, Structural)]
pub struct ReadableBytes(pub u64);

/// Bytes in a kibibyte.
pub const KB: u64 = 1024;

/// Bytes in a mebibyte.
pub const MB: u64 = 1048576;

/// Bytes in a gibibyte.
pub const GB: u64 = 1073741824;

/// The quotient rounded to the nearest whole number, a tie to the even one.
pub open spec fn rounded(num: nat, den: nat) -> nat {
    let q = num / den;
    let r = num % den;
    if 2 * r > den || (2 * r == den && q % 2 == 1) {
        q + 1
    } else {
        q
    }
}

/// The power of two by which a number exceeds 53 binary digits: what a
/// double-precision number cannot hold of it.
pub open spec fn excess(n: u64) -> nat {
    if n < 0x20_0000_0000_0000 {
        1
    } else if n < 0x40_0000_0000_0000 {
        2
    } else if n < 0x80_0000_0000_0000 {
        4
    } else if n < 0x100_0000_0000_0000 {
        8
    } else if n < 0x200_0000_0000_0000 {
        16
    } else if n < 0x400_0000_0000_0000 {
        32
    } else if n < 0x800_0000_0000_0000 {
        64
    } else if n < 0x1000_0000_0000_0000 {
        128
    } else if n < 0x2000_0000_0000_0000 {
        256
    } else if n < 0x4000_0000_0000_0000 {
        512
    } else if n < 0x8000_0000_0000_0000 {
        1024
    } else {
        2048
    }
}

/// The number as a double-precision number holds it: the nearest number of
/// 53 binary digits, a tie to the even one.
pub open spec fn as_double(n: u64) -> nat {
    rounded(n as nat, excess(n)) * excess(n)
}

/// The size in tenths of the unit, rounded to the nearest, a tie to the even
/// one: what the size is when written with one decimal.
pub open spec fn tenths(n: u64, unit: u64) -> nat {
    rounded(as_double(n) * 10, unit as nat)
}

/// A number of tenths written with one decimal.
pub open spec fn one_decimal(t: nat) -> Seq<char> {
    decimal(t / 10) + seq!['.', digit_char(t % 10)]
}

/// The size for a reader: `UNKNOWN` for zero; in GiB or MiB with one decimal
/// from one GiB or one MiB on; else in whole KiB, rounded down.
pub open spec fn readable(n: u64) -> Seq<char> {
    if n == 0 {
        "UNKNOWN"@
    } else if n >= GB {
        one_decimal(tenths(n, GB)) + " GiB"@
    } else if n >= MB {
        one_decimal(tenths(n, MB)) + " MiB"@
    } else {
        decimal((n / KB) as nat) + " KiB"@
    }
}

fn round(num: u128, den: u128) -> (r: u128)
    requires
        den > 0,
        num <= 0xffff_ffff_ffff_ffff_ffff,
        den <= 0xffff_ffff_ffff_ffff,
    ensures
        r == rounded(num as nat, den as nat),
        r <= num,
        r * den <= num + den,
{
    let q: u128 = num / den;
    let r: u128 = num % den;
    assert(q <= num && r < den && q * den + r == num) by (nonlinear_arith)
        requires
            q == num / den,
            r == num % den,
            den > 0,
    ;
    assert((q + 1) * den == q * den + den) by (nonlinear_arith);
    if 2 * r > den || (2 * r == den && q % 2 == 1) {
        assert(q < num) by (nonlinear_arith)
            requires
                q == num / den,
                r == num % den,
                den > 0,
                2 * r >= den,
        ;
        q + 1
    } else {
        q
    }
}

fn excess_of(n: u64) -> (r: u64)
    ensures
        r == excess(n),
        1 <= r <= 2048,
{
    if n < 0x20_0000_0000_0000 {
        1
    } else if n < 0x40_0000_0000_0000 {
        2
    } else if n < 0x80_0000_0000_0000 {
        4
    } else if n < 0x100_0000_0000_0000 {
        8
    } else if n < 0x200_0000_0000_0000 {
        16
    } else if n < 0x400_0000_0000_0000 {
        32
    } else if n < 0x800_0000_0000_0000 {
        64
    } else if n < 0x1000_0000_0000_0000 {
        128
    } else if n < 0x2000_0000_0000_0000 {
        256
    } else if n < 0x4000_0000_0000_0000 {
        512
    } else if n < 0x8000_0000_0000_0000 {
        1024
    } else {
        2048
    }
}

fn push_one_decimal(out: &mut Vec<char>, n: u64, unit: u64)
    requires
        unit >= MB,
    ensures
        final(out)@ == old(out)@ + one_decimal(tenths(n, unit)),
{
    let e: u64 = excess_of(n);
    let whole: u128 = round(n as u128, e as u128);
    assert(whole * (e as u128) <= 0x1_0000_0000_0000_0800);
    let double: u128 = whole * (e as u128);
    assert(double == as_double(n));
    let t: u128 = round(double * 10, unit as u128);
    assert(t == tenths(n, unit));
    assert(t <= 0xffff_ffff_ffff) by (nonlinear_arith)
        requires
            t * (unit as u128) <= double * 10 + (unit as u128),
            unit >= 1048576,
            double <= 0x1_0000_0000_0000_0800,
    ;
    let int_part: u128 = t / 10;
    let frac: u128 = t % 10;
    push_padded(out, int_part as u64, 0);
    out.push('.');
    out.push(digit_of(frac as u64));
    assert(out@ =~= old(out)@ + one_decimal(tenths(n, unit)));
}

impl ReadableBytes {
    /// A number of bytes.
    pub fn from(value: u64) -> (r: Self)
        ensures
            r.0 == value,
    {
        Self(value)
    }

    /// The size for a reader.
    pub fn to_string(&self) -> (r: String)
        ensures
            r@ == readable(self.0),
    {
        let mut out: Vec<char> = Vec::new();
        if self.0 == 0 {
            push_str(&mut out, "UNKNOWN");
        } else if self.0 >= GB {
            push_one_decimal(&mut out, self.0, GB);
            push_str(&mut out, " GiB");
        } else if self.0 >= MB {
            push_one_decimal(&mut out, self.0, MB);
            push_str(&mut out, " MiB");
        } else {
            push_padded(&mut out, self.0 / KB, 0);
            push_str(&mut out, " KiB");
        }
        assert(out@ =~= readable(self.0));
        to_string(&out)
    }
}

} // verus!
