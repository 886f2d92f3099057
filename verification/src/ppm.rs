//! The binary PPM (`P6`) files the preview renderer writes: an ASCII header
//! giving the size and the maximum sample value 255, then the RGB bytes.

use vstd::prelude::*;

verus! {

/// The ASCII digit of a value below 10.
pub open spec fn digit(d: nat) -> u8 {
    (48 + d % 10) as u8
}

/// The decimal digits of `n` in ASCII, without leading zeros (`0` for zero).
pub open spec fn decimal(n: nat) -> Seq<u8>
    decreases n,
{
    if n < 10 {
        seq![digit(n)]
    } else {
        decimal(n / 10).push(digit(n % 10))
    }
}

/// The header of a binary PPM image of `width` by `height` pixels with
/// 8-bit samples: `P6`, newline, width, space, height, newline, `255`, newline.
pub open spec fn ppm_header(width: nat, height: nat) -> Seq<u8> {
    seq![80u8, 54u8, 10u8] + decimal(width) + seq![32u8] + decimal(height) + seq![10u8, 50u8, 53u8,
        53u8, 10u8]
}

/// Appends the decimal digits of `n` to `out`.
fn push_decimal(out: &mut Vec<u8>, n: u32)
    ensures
        final(out)@ == old(out)@ + decimal(n as nat),
    decreases n,
{
    if n >= 10 {
        push_decimal(out, n / 10);
    }
    let ghost before = out@;
    out.push(48 + (n % 10) as u8);
    proof {
        if n >= 10 {
            assert(before == old(out)@ + decimal((n / 10) as nat));
            assert(out@ =~= old(out)@ + decimal(n as nat));
        } else {
            assert(out@ =~= old(out)@ + decimal(n as nat));
        }
    }
}

/// The decimal text of `n` as ASCII bytes.
pub fn decimal_bytes(n: u32) -> (r: Vec<u8>)
    ensures
        r@ == decimal(n as nat),
{
    let mut out: Vec<u8> = Vec::new();
    push_decimal(&mut out, n);
    assert(out@ =~= decimal(n as nat));
    out
}

/// A complete binary PPM file: the header for `width` by `height`, then
/// `rgb` as it is.
pub fn ppm_image(width: u32, height: u32, rgb: &[u8]) -> (r: Vec<u8>)
    ensures
        r@ == ppm_header(width as nat, height as nat) + rgb@,
{
    let mut out: Vec<u8> = Vec::new();
    out.push(80);
    out.push(54);
    out.push(10);
    push_decimal(&mut out, width);
    out.push(32);
    push_decimal(&mut out, height);
    out.push(10);
    out.push(50);
    out.push(53);
    out.push(53);
    out.push(10);
    let ghost header = out@;
    assert(header =~= ppm_header(width as nat, height as nat));
    let mut i: usize = 0;
    while i < rgb.len()
        invariant
            i <= rgb@.len(),
            out@ == header + rgb@.subrange(0, i as int),
        decreases rgb.len() - i,
    {
        out.push(rgb[i]);
        i = i + 1;
        assert(out@ =~= header + rgb@.subrange(0, i as int));
    }
    assert(rgb@.subrange(0, rgb@.len() as int) =~= rgb@);
    out
}

} // verus!
