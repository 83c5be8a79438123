//! The plain-text PPM ("P3") encoding of an RGB frame buffer.

use vstd::prelude::*;

verus! {

/// ASCII code of `'0'`.
pub const DIGIT_ZERO: u8 = 48;

/// ASCII code of `'P'`, the first byte of the magic number.
pub const MAGIC_LETTER: u8 = 80;

/// ASCII code of `'3'`, which marks the plain-text RGB variant.
pub const MAGIC_DIGIT: u8 = 51;

/// ASCII code of a space.
pub const SPACE: u8 = 32;

/// ASCII code of a line feed.
pub const NEWLINE: u8 = 10;

/// The largest channel value, written in the header.
pub const MAX_CHANNEL: usize = 255;

/// The ASCII decimal digits of `n`, most significant first, without leading zeros.
pub open spec fn dec(n: nat) -> Seq<u8>
    decreases n,
{
    if n < 10 {
        seq![(DIGIT_ZERO + n) as u8]
    } else {
        dec(n / 10).push((DIGIT_ZERO + n % 10) as u8)
    }
}

/// Appends the decimal digits of `n` to `out`.
fn push_decimal(out: &mut Vec<u8>, n: usize)
    ensures
        final(out)@ == old(out)@ + dec(n as nat),
    decreases n,
{
    if n >= 10 {
        push_decimal(out, n / 10);
    }
    out.push(DIGIT_ZERO + (n % 10) as u8);
    proof {
        assert(old(out)@ + dec(n as nat) =~= final(out)@);
    }
}

/// The decimal digits of `n` as ASCII bytes.
pub fn decimal_bytes(n: usize) -> (r: Vec<u8>)
    ensures
        r@ == dec(n as nat),
{
    let mut out: Vec<u8> = Vec::new();
    push_decimal(&mut out, n);
    proof {
        assert(out@ =~= Seq::<u8>::empty() + dec(n as nat));
    }
    out
}

/// The header: the magic `P3`, the width and height, and the largest channel value,
/// each on a line of its own.
pub open spec fn ppm_header(width: nat, height: nat) -> Seq<u8> {
    seq![MAGIC_LETTER, MAGIC_DIGIT, NEWLINE] + dec(width) + seq![SPACE] + dec(height) + seq![NEWLINE]
        + dec(MAX_CHANNEL as nat) + seq![NEWLINE]
}

/// Pixel `i` of a row-major RGB buffer: its three channels in decimal, each followed by a space.
pub open spec fn pixel_text(image: Seq<u8>, i: int) -> Seq<u8> {
    dec(image[3 * i] as nat) + seq![SPACE] + dec(image[3 * i + 1] as nat) + seq![SPACE]
        + dec(image[3 * i + 2] as nat) + seq![SPACE]
}

/// The first `n` pixels of a row-major RGB buffer, in order.
pub open spec fn pixels_text(image: Seq<u8>, n: nat) -> Seq<u8>
    decreases n,
{
    if n == 0 {
        Seq::empty()
    } else {
        pixels_text(image, (n - 1) as nat) + pixel_text(image, n - 1)
    }
}

/// The PPM text of a `width` by `height` frame whose pixels are the first
/// `3 * width * height` bytes of `image`, rows top to bottom.
pub open spec fn ppm_text(image: Seq<u8>, width: nat, height: nat) -> Seq<u8> {
    ppm_header(width, height) + pixels_text(image, width * height)
}

/// Appends `b` to `out`.
fn push_byte(out: &mut Vec<u8>, b: u8)
    ensures
        final(out)@ == old(out)@ + seq![b],
{
    out.push(b);
    proof {
        assert(final(out)@ =~= old(out)@ + seq![b]);
    }
}

/// Encodes a row-major RGB frame buffer of `width` by `height` pixels as PPM text.
/// Bytes of `image` past the last pixel are not written.
pub fn ppm_bytes(image: &Vec<u8>, width: usize, height: usize) -> (r: Vec<u8>)
    requires
        3 * width * height <= image@.len(),
    ensures
        r@ == ppm_text(image@, width as nat, height as nat),
{
    let len: usize = image.len();
    proof {
        assert(3 * (width * height) == 3 * width * height) by (nonlinear_arith);
    }
    let count: usize = width * height;
    let mut out: Vec<u8> = Vec::new();
    push_byte(&mut out, MAGIC_LETTER);
    push_byte(&mut out, MAGIC_DIGIT);
    push_byte(&mut out, NEWLINE);
    push_decimal(&mut out, width);
    push_byte(&mut out, SPACE);
    push_decimal(&mut out, height);
    push_byte(&mut out, NEWLINE);
    push_decimal(&mut out, MAX_CHANNEL);
    push_byte(&mut out, NEWLINE);
    proof {
        assert(out@ =~= ppm_header(width as nat, height as nat) + pixels_text(image@, 0));
    }
    let mut i: usize = 0;
    while i < count
        invariant
            i <= count,
            count == width * height,
            3 * count <= image@.len(),
            image@.len() == len,
            out@ == ppm_header(width as nat, height as nat) + pixels_text(image@, i as nat),
        decreases count - i,
    {
        let base: usize = 3 * i;
        push_decimal(&mut out, image[base] as usize);
        push_byte(&mut out, SPACE);
        push_decimal(&mut out, image[base + 1] as usize);
        push_byte(&mut out, SPACE);
        push_decimal(&mut out, image[base + 2] as usize);
        push_byte(&mut out, SPACE);
        proof {
            let ghost n = (i + 1) as nat;
            assert(pixels_text(image@, n) == pixels_text(image@, i as nat) + pixel_text(image@, i as int));
            assert(out@ =~= ppm_header(width as nat, height as nat) + pixels_text(image@, n));
        }
        i = i + 1;
    }
    out
}

} // verus!
