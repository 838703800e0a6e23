//! Decimal renderings of micrometre lengths: millimetres and PDF points.
use crate::text::{
    decimal, push_decimal, push_decimal_wide, push_str, push_zero_padded, zero_padded,
};
use vstd::prelude::*;

verus! {

/// The sign of a negative length.
pub open spec fn sign_text(um: int) -> Seq<char> {
    if um < 0 {
        seq!['-']
    } else {
        Seq::empty()
    }
}

pub open spec fn abs(x: int) -> nat {
    if x < 0 {
        (-x) as nat
    } else {
        x as nat
    }
}

/// `{:.3}` of a length in millimetres: a micrometre count printed with
/// three decimals.
pub open spec fn mm_three_decimals(um: int) -> Seq<char> {
    sign_text(um) + decimal(abs(um) / 1000) + "."@ + zero_padded(abs(um) % 1000, 3)
}

/// A three-digit fraction (not zero) without its trailing zeros.
pub open spec fn frac3_trimmed(f: nat) -> Seq<char> {
    if f % 100 == 0 {
        decimal(f / 100)
    } else if f % 10 == 0 {
        zero_padded(f / 10, 2)
    } else {
        zero_padded(f, 3)
    }
}

/// A four-digit fraction (not zero) without its trailing zeros.
pub open spec fn frac4_trimmed(f: nat) -> Seq<char> {
    if f % 1000 == 0 {
        decimal(f / 1000)
    } else if f % 100 == 0 {
        zero_padded(f / 100, 2)
    } else if f % 10 == 0 {
        zero_padded(f / 10, 3)
    } else {
        zero_padded(f, 4)
    }
}

/// Millimetres with at most three decimals and no trailing zeros, so
/// 106.000 reads `106` and 98.425 reads `98.425`.
pub open spec fn spec_pack_fixed(um: int) -> Seq<char> {
    let a = abs(um);
    if a % 1000 == 0 {
        sign_text(um) + decimal(a / 1000)
    } else {
        sign_text(um) + decimal(a / 1000) + "."@ + frac3_trimmed(a % 1000)
    }
}

/// A length in PDF points, in ten-thousandths, rounded to nearest:
/// `um * 72 / 25400 * 10000`, that is `um * 3600 / 127`.
pub open spec fn points_e4(um: nat) -> nat {
    (um * 7200 + 127) / 254
}

/// A length in PDF points, in thousandths, rounded to nearest:
/// `um * 72 / 25400 * 1000`, that is `um * 360 / 127`.
pub open spec fn points_e3(um: nat) -> nat {
    (um * 720 + 127) / 254
}

/// A length as a PDF number of points: at most four decimals, trailing
/// zeros dropped, whole numbers without a point.
pub open spec fn spec_pdf_number(um: int) -> Seq<char> {
    let n = points_e4(abs(um));
    if n % 10000 == 0 {
        sign_text(um) + decimal(n / 10000)
    } else {
        sign_text(um) + decimal(n / 10000) + "."@ + frac4_trimmed(n % 10000)
    }
}

/// A length in points with exactly three decimals (`{:.3}`).
pub open spec fn points_three_decimals(um: int) -> Seq<char> {
    let n = points_e3(abs(um));
    sign_text(um) + decimal(n / 1000) + "."@ + zero_padded(n % 1000, 3)
}

fn push_sign(out: &mut Vec<char>, um: i64)
    ensures
        final(out)@ == old(out)@ + sign_text(um as int),
{
    if um < 0 {
        out.push('-');
    } else {
        assert(old(out)@ + sign_text(um as int) =~= old(out)@);
    }
}

fn abs_u64(um: i64) -> (a: u64)
    ensures
        a == abs(um as int),
{
    if um < 0 {
        if um == i64::MIN {
            9223372036854775808u64
        } else {
            (-um) as u64
        }
    } else {
        um as u64
    }
}

/// Appends a length in millimetres with three decimals.
pub fn push_mm_three_decimals(out: &mut Vec<char>, um: i64)
    ensures
        final(out)@ == old(out)@ + mm_three_decimals(um as int),
{
    let a = abs_u64(um);
    push_sign(out, um);
    push_decimal(out, a / 1000);
    push_str(out, ".");
    push_zero_padded(out, a % 1000, 3);
    proof {
        assert(final(out)@ =~= old(out)@ + mm_three_decimals(um as int));
    }
}

fn push_frac3_trimmed(out: &mut Vec<char>, f: u64)
    ensures
        final(out)@ == old(out)@ + frac3_trimmed(f as nat),
{
    if f % 100 == 0 {
        push_decimal(out, f / 100);
    } else if f % 10 == 0 {
        push_zero_padded(out, f / 10, 2);
    } else {
        push_zero_padded(out, f, 3);
    }
}

fn push_frac4_trimmed(out: &mut Vec<char>, f: u64)
    ensures
        final(out)@ == old(out)@ + frac4_trimmed(f as nat),
{
    if f % 1000 == 0 {
        push_decimal(out, f / 1000);
    } else if f % 100 == 0 {
        push_zero_padded(out, f / 100, 2);
    } else if f % 10 == 0 {
        push_zero_padded(out, f / 10, 3);
    } else {
        push_zero_padded(out, f, 4);
    }
}

/// Appends millimetres with trailing zeros trimmed.
pub fn push_pack_fixed(out: &mut Vec<char>, um: i64)
    ensures
        final(out)@ == old(out)@ + spec_pack_fixed(um as int),
{
    let a = abs_u64(um);
    let ghost start = out@;
    push_sign(out, um);
    push_decimal(out, a / 1000);
    if a % 1000 != 0 {
        push_str(out, ".");
        push_frac3_trimmed(out, a % 1000);
    }
    proof {
        assert(final(out)@ =~= start + spec_pack_fixed(um as int));
    }
}

/// Appends a length as a PDF number of points.
pub fn push_pdf_number(out: &mut Vec<char>, um: i64)
    ensures
        final(out)@ == old(out)@ + spec_pdf_number(um as int),
{
    let a = abs_u64(um) as u128;
    let n: u128 = (a * 7200 + 127) / 254;
    let ghost start = out@;
    push_sign(out, um);
    push_decimal_wide(out, n / 10000);
    if n % 10000 != 0 {
        push_str(out, ".");
        push_frac4_trimmed(out, (n % 10000) as u64);
    }
    proof {
        assert(final(out)@ =~= start + spec_pdf_number(um as int));
    }
}

/// Appends a length in points with three decimals.
pub fn push_points_three_decimals(out: &mut Vec<char>, um: i64)
    ensures
        final(out)@ == old(out)@ + points_three_decimals(um as int),
{
    let a = abs_u64(um) as u128;
    let n: u128 = (a * 720 + 127) / 254;
    let ghost start = out@;
    push_sign(out, um);
    push_decimal_wide(out, n / 1000);
    push_str(out, ".");
    push_zero_padded(out, (n % 1000) as u64, 3);
    proof {
        assert(final(out)@ =~= start + points_three_decimals(um as int));
    }
}

} // verus!
