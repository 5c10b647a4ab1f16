use vstd::prelude::*;

verus! {

/// The decimal digits of `n`, most significant first, with no leading zero.
pub open spec fn decimal(n: nat) -> Seq<u8>
    decreases n,
{
    if n < 10 {
        seq![(48 + n) as u8]
    } else {
        decimal(n / 10).push((48 + n % 10) as u8)
    }
}

/// The header of a plain-text pixel map of `width` by `height` pixels with
/// channel values up to 255, followed by an empty line.
pub open spec fn header_spec(width: nat, height: nat) -> Seq<u8> {
    seq![80u8, 51u8, 10u8] + decimal(width) + seq![32u8] + decimal(height) + seq![
        10u8,
        50u8,
        53u8,
        53u8,
        10u8,
        10u8,
    ]
}

/// One pixel as a line `R G B`.
pub open spec fn pixel_spec(r: nat, g: nat, b: nat) -> Seq<u8> {
    decimal(r) + seq![32u8] + decimal(g) + seq![32u8] + decimal(b) + seq![10u8]
}

/// Appends the decimal digits of `n` to `out`.
pub fn push_decimal(out: &mut Vec<u8>, n: u32)
    ensures
        final(out)@ == old(out)@ + decimal(n as nat),
    decreases n,
{
    if n >= 10 {
        push_decimal(out, n / 10);
    }
    out.push(48u8 + (n % 10) as u8);
}

/// The header of a plain-text pixel map: its magic number, the size, the largest
/// channel value 255, and an empty line.
pub fn header(width: u32, height: u32) -> (r: Vec<u8>)
    ensures
        r@ == header_spec(width as nat, height as nat),
{
    let mut out: Vec<u8> = Vec::new();
    out.push(80u8);
    out.push(51u8);
    out.push(10u8);
    push_decimal(&mut out, width);
    out.push(32u8);
    push_decimal(&mut out, height);
    out.push(10u8);
    out.push(50u8);
    out.push(53u8);
    out.push(53u8);
    out.push(10u8);
    out.push(10u8);
    proof {
        assert(out@ =~= header_spec(width as nat, height as nat));
    }
    out
}

/// One pixel of a plain-text pixel map: its three channels in decimal,
/// separated by spaces, and a line break.
pub fn pixel_line(r: u8, g: u8, b: u8) -> (s: Vec<u8>)
    ensures
        s@ == pixel_spec(r as nat, g as nat, b as nat),
{
    let mut out: Vec<u8> = Vec::new();
    push_decimal(&mut out, r as u32);
    out.push(32u8);
    push_decimal(&mut out, g as u32);
    out.push(32u8);
    push_decimal(&mut out, b as u32);
    out.push(10u8);
    proof {
        assert(out@ =~= pixel_spec(r as nat, g as nat, b as nat));
    }
    out
}

} // verus!
