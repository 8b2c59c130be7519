//! Decimal and hexadecimal literals of sample values.

use vstd::prelude::*;

use vstd::arithmetic::div_mod::lemma_fundamental_div_mod_converse;
use vstd::arithmetic::power2::{lemma2_to64, pow2};

use crate::format::SampleWidth;

verus! {

/// The sixteen digit characters, lower case.
pub open spec fn digit_chars() -> Seq<char> {
    seq!['0', '1', '2', '3', '4', '5', '6', '7', '8', '9', 'a', 'b', 'c', 'd', 'e', 'f']
}

/// The digits of `n` in base `base` (2 to 16), most significant first, with no
/// leading zeros (zero itself is the single digit `0`).
pub open spec fn digits(n: nat, base: nat) -> Seq<char>
    decreases n,
    via digits_decreases
{
    if base < 2 || base > 16 || n < base {
        seq![digit_chars()[(n % 16) as int]]
    } else {
        digits(n / base, base).push(digit_chars()[(n % base) as int])
    }
}

#[via_fn]
proof fn digits_decreases(n: nat, base: nat) {
    if !(base < 2 || base > 16 || n < base) {
        assert(n / base < n) by (nonlinear_arith)
            requires
                base >= 2,
                n >= base,
        ;
    }
}

/// A signed value in base ten, with a leading `-` when negative.
pub open spec fn decimal_text(v: int) -> Seq<char> {
    if v < 0 {
        seq!['-'] + digits((-v) as nat, 10)
    } else {
        digits(v as nat, 10)
    }
}

/// The `bits`-wide two's-complement pattern of `v`, as a natural number.
pub open spec fn twos_complement(v: int, bits: nat) -> nat {
    (v % (pow2(bits) as int)) as nat
}

/// A value in hexadecimal with the `0x` prefix: the digits of its `bits`-wide
/// two's-complement pattern, lower case, with no padding.
pub open spec fn hex_text(v: int, bits: nat) -> Seq<char> {
    seq!['0', 'x'] + digits(twos_complement(v, bits), 16)
}

fn digit_str(d: u64) -> (r: &'static str)
    requires
        d < 16,
    ensures
        r@ == seq![digit_chars()[d as int]],
{
    let all = "0123456789abcdef";
    proof {
        reveal_strlit("0123456789abcdef");
    }
    assert(all@ =~= digit_chars());
    let r = all.substring_ascii(d as usize, d as usize + 1);
    assert(r@ =~= seq![digit_chars()[d as int]]);
    r
}

/// Appends the digits of `n` in base `base`.
pub fn append_digits(out: &mut String, n: u64, base: u64)
    requires
        2 <= base <= 16,
    ensures
        final(out)@ == old(out)@ + digits(n as nat, base as nat),
    decreases n,
{
    if n < base {
        out.append(digit_str(n % 16));
    } else {
        assert(n / base < n) by (nonlinear_arith)
            requires
                base >= 2,
                n >= base,
        ;
        append_digits(out, n / base, base);
        out.append(digit_str(n % base));
        assert(final(out)@ =~= old(out)@ + digits(n as nat, base as nat));
    }
}

/// Appends `v` in base ten.
pub fn append_decimal(out: &mut String, v: i64)
    ensures
        final(out)@ == old(out)@ + decimal_text(v as int),
{
    if v < 0 {
        let ghost before = out@;
        out.append("-");
        proof {
            reveal_strlit("-");
        }
        let magnitude: u64 = if v == i64::MIN {
            9223372036854775808u64
        } else {
            (-v) as u64
        };
        append_digits(out, magnitude, 10);
        assert(final(out)@ =~= before + decimal_text(v as int));
    } else {
        append_digits(out, v as u64, 10);
    }
}

/// Appends `v` in hexadecimal as a value of the type `width`: a negative value
/// shows its two's-complement pattern at that width (`-1` as an `int16_t` is
/// `0xffff`).
pub fn append_hex(out: &mut String, v: i32, width: SampleWidth)
    ensures
        final(out)@ == old(out)@ + hex_text(v as int, width.bits()),
{
    proof {
        lemma2_to64();
    }
    let m: u64 = match width {
        SampleWidth::Int8 => 256,
        SampleWidth::Int16 => 65536,
        SampleWidth::Int32 => 4294967296,
    };
    assert(m == pow2(width.bits()));
    let a: i64 = v as i64;
    let pattern: u64 = if a >= 0 {
        (a as u64) % m
    } else {
        let r: u64 = ((-a) as u64) % m;
        proof {
            let b = -a;
            let q = b / (m as int);
            assert(b == q * m + r) by (nonlinear_arith)
                requires
                    m > 0,
                    q == b / (m as int),
                    r == b % (m as int),
            ;
            if r == 0 {
                lemma_fundamental_div_mod_converse(a as int, m as int, -q, 0);
            } else {
                assert(a == (-q - 1) * m + (m - r)) by (nonlinear_arith)
                    requires
                        a == -b,
                        b == q * m + r,
                ;
                lemma_fundamental_div_mod_converse(a as int, m as int, -q - 1, m - r);
            }
        }
        if r == 0 {
            0
        } else {
            m - r
        }
    };
    assert(pattern == twos_complement(v as int, width.bits()));
    let ghost before = out@;
    out.append("0x");
    proof {
        reveal_strlit("0x");
    }
    append_digits(out, pattern, 16);
    assert(final(out)@ =~= before + hex_text(v as int, width.bits()));
}

} // verus!
