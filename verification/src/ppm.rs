//! Serialization of a framebuffer into a plain-text P3 pixel stream:
//! `P3\n<width> <height>\n255\n` followed by one `<r> <g> <b>` line per
//! pixel in row-major order. The byte stream is specified exactly, down to
//! the decimal rendering of each number.

use vstd::prelude::*;

verus! {

/// The ASCII decimal rendering of a nonnegative number, most significant
/// digit first.
pub open spec fn dec_s(n: nat) -> Seq<u8>
    decreases n,
{
    if n < 10 {
        seq![(48 + n) as u8]
    } else {
        dec_s(n / 10).push((48 + n % 10) as u8)
    }
}

/// One `<r> <g> <b>\n` pixel line.
pub open spec fn pixel_line_s(p: (u8, u8, u8)) -> Seq<u8> {
    dec_s(p.0 as nat) + seq![32u8] + dec_s(p.1 as nat) + seq![32u8] + dec_s(p.2 as nat)
        + seq![10u8]
}

/// The pixel lines of a framebuffer, in order.
pub open spec fn body_s(px: Seq<(u8, u8, u8)>) -> Seq<u8>
    decreases px.len(),
{
    if px.len() == 0 {
        Seq::empty()
    } else {
        body_s(px.drop_last()) + pixel_line_s(px.last())
    }
}

/// The `P3\n<width> <height>\n255\n` header.
pub open spec fn header_s(width: u32, height: u32) -> Seq<u8> {
    seq![80u8, 51u8, 10u8] + dec_s(width as nat) + seq![32u8] + dec_s(height as nat) + seq![
        10u8,
        50u8,
        53u8,
        53u8,
        10u8,
    ]
}

/// The whole stream: header then pixel lines.
pub open spec fn ppm_s(width: u32, height: u32, px: Seq<(u8, u8, u8)>) -> Seq<u8> {
    header_s(width, height) + body_s(px)
}

/// Appends the decimal rendering of `n`.
fn push_decimal(out: &mut Vec<u8>, n: u32)
    ensures
        final(out)@ == old(out)@ + dec_s(n as nat),
    decreases n,
{
    if n >= 10 {
        push_decimal(out, n / 10);
    }
    out.push(48 + (n % 10) as u8);
    proof {
        assert(out@ =~= old(out)@ + dec_s(n as nat));
    }
}

/// Serializes a framebuffer of quantized pixels into the P3 byte stream.
pub fn ppm_bytes(width: u32, height: u32, pixels: &Vec<(u8, u8, u8)>) -> (out: Vec<u8>)
    ensures
        out@ == ppm_s(width, height, pixels@),
{
    let mut out: Vec<u8> = Vec::new();
    out.push(80);
    out.push(51);
    out.push(10);
    push_decimal(&mut out, width);
    out.push(32);
    push_decimal(&mut out, height);
    out.push(10);
    out.push(50);
    out.push(53);
    out.push(53);
    out.push(10);
    proof {
        assert(out@ =~= header_s(width, height));
    }

    let n = pixels.len();
    let mut i: usize = 0;
    while i < n
        invariant
            n == pixels@.len(),
            0 <= i <= n,
            out@ == header_s(width, height) + body_s(pixels@.take(i as int)),
        decreases n - i,
    {
        let p = pixels[i];
        push_decimal(&mut out, p.0 as u32);
        out.push(32);
        push_decimal(&mut out, p.1 as u32);
        out.push(32);
        push_decimal(&mut out, p.2 as u32);
        out.push(10);
        proof {
            assert(pixels@.take(i + 1).drop_last() =~= pixels@.take(i as int));
            assert(pixels@.take(i + 1).last() == pixels@[i as int]);
            assert(out@ =~= header_s(width, height) + body_s(pixels@.take(i + 1)));
        }
        i = i + 1;
    }
    proof {
        assert(pixels@.take(n as int) =~= pixels@);
    }
    out
}

} // verus!
