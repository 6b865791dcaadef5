//! The plain-text pixmap (PPM) encoding of a finished image: a header that
//! names the format, the width and height, and the largest channel value,
//! then one line of three decimal channel values per pixel.
use vstd::prelude::*;

verus! {

/// One finished pixel, each channel already in the 8-bit range.
#[derive(Clone, Copy, Debug, PartialEq, Eq, Structural)]
pub struct Rgb {
    pub r: u8,
    pub g: u8,
    pub b: u8,
}

/// The largest channel value that the header announces.
pub const MAX_CHANNEL: u32 = 255;

/// ASCII line feed, which ends each line.
pub const NEWLINE: u8 = 10;

/// ASCII space, which separates the numbers of a line.
pub const SPACE: u8 = 32;

/// ASCII '0'; the other digits follow it.
pub const DIGIT_ZERO: u8 = 48;

/// ASCII 'P', the first byte of the format's magic number.
pub const MAGIC_P: u8 = 80;

/// ASCII '3', the second byte of the format's magic number.
pub const MAGIC_3: u8 = 51;

/// The decimal digits of `n` as ASCII bytes, most significant first,
/// without leading zeros ("0" for zero).
pub open spec fn decimal_digits(n: nat) -> Seq<u8>
    decreases n,
{
    if n < 10 {
        seq![(DIGIT_ZERO + n) as u8]
    } else {
        decimal_digits(n / 10).push((DIGIT_ZERO + n % 10) as u8)
    }
}

/// The format's magic number: a P and a 3.
pub open spec fn magic_text() -> Seq<u8> {
    seq![MAGIC_P, MAGIC_3]
}

/// The magic number, then "<width> <height>" and the largest channel value,
/// each on a line of its own.
pub open spec fn header_text(width: nat, height: nat) -> Seq<u8> {
    magic_text() + seq![NEWLINE] + decimal_digits(width) + seq![SPACE] + decimal_digits(height)
        + seq![NEWLINE] + decimal_digits(MAX_CHANNEL as nat) + seq![NEWLINE]
}

/// "<r> <g> <b>\n".
pub open spec fn pixel_text(p: Rgb) -> Seq<u8> {
    decimal_digits(p.r as nat) + seq![SPACE] + decimal_digits(p.g as nat) + seq![SPACE]
        + decimal_digits(p.b as nat) + seq![NEWLINE]
}

/// One line per pixel, in the order given.
pub open spec fn pixels_text(ps: Seq<Rgb>) -> Seq<u8>
    decreases ps.len(),
{
    if ps.len() == 0 {
        Seq::empty()
    } else {
        pixels_text(ps.drop_last()) + pixel_text(ps.last())
    }
}

/// A whole image file: the header, then the pixels in the order given.
pub open spec fn image_text(width: nat, height: nat, ps: Seq<Rgb>) -> Seq<u8> {
    header_text(width, height) + pixels_text(ps)
}

/// The lines of two runs of pixels, one after the other, are the lines of
/// the joined run: writing the header and then each pixel's line in turn
/// gives the same bytes as encoding the whole image at once.
pub proof fn lemma_pixels_text_append(a: Seq<Rgb>, b: Seq<Rgb>)
    ensures
        pixels_text(a + b) == pixels_text(a) + pixels_text(b),
    decreases b.len(),
{
    if b.len() == 0 {
        assert(a + b =~= a);
        assert(pixels_text(a) + pixels_text(b) =~= pixels_text(a));
    } else {
        lemma_pixels_text_append(a, b.drop_last());
        assert((a + b).drop_last() =~= a + b.drop_last());
        assert((a + b).last() == b.last());
        assert(pixels_text(a + b) =~= pixels_text(a) + pixels_text(b));
    }
}

/// Appends the decimal digits of `n` to `out`.
pub fn push_decimal(out: &mut Vec<u8>, n: u32)
    ensures
        final(out)@ == old(out)@ + decimal_digits(n as nat),
    decreases n,
{
    if n >= 10 {
        push_decimal(out, n / 10);
    }
    out.push(DIGIT_ZERO + (n % 10) as u8);
    assert(out@ =~= old(out)@ + decimal_digits(n as nat));
}

/// Appends one byte.
fn push_byte(out: &mut Vec<u8>, b: u8)
    ensures
        final(out)@ == old(out)@ + seq![b],
{
    out.push(b);
    assert(out@ =~= old(out)@ + seq![b]);
}

/// The header of a `width` x `height` image.
pub fn header(width: u32, height: u32) -> (r: Vec<u8>)
    ensures
        r@ == header_text(width as nat, height as nat),
{
    let mut r: Vec<u8> = Vec::new();
    push_byte(&mut r, MAGIC_P);
    push_byte(&mut r, MAGIC_3);
    push_byte(&mut r, NEWLINE);
    push_decimal(&mut r, width);
    push_byte(&mut r, SPACE);
    push_decimal(&mut r, height);
    push_byte(&mut r, NEWLINE);
    push_decimal(&mut r, MAX_CHANNEL);
    push_byte(&mut r, NEWLINE);
    assert(r@ =~= header_text(width as nat, height as nat));
    r
}

/// Appends the line of one pixel to `out`.
pub fn push_pixel(out: &mut Vec<u8>, p: Rgb)
    ensures
        final(out)@ == old(out)@ + pixel_text(p),
{
    push_decimal(out, p.r as u32);
    push_byte(out, SPACE);
    push_decimal(out, p.g as u32);
    push_byte(out, SPACE);
    push_decimal(out, p.b as u32);
    push_byte(out, NEWLINE);
    assert(out@ =~= old(out)@ + pixel_text(p));
}

/// The line of one pixel: its three channels in decimal, separated by spaces.
pub fn pixel_line(p: Rgb) -> (r: Vec<u8>)
    ensures
        r@ == pixel_text(p),
{
    let mut r: Vec<u8> = Vec::new();
    push_pixel(&mut r, p);
    assert(r@ =~= pixel_text(p));
    r
}

/// A whole `width` x `height` image file whose pixels, in scan order, are
/// `pixels`.
pub fn encode(width: u32, height: u32, pixels: &Vec<Rgb>) -> (r: Vec<u8>)
    ensures
        r@ == image_text(width as nat, height as nat, pixels@),
{
    let mut r = header(width, height);
    let mut i: usize = 0;
    while i < pixels.len()
        invariant
            i <= pixels@.len(),
            r@ == header_text(width as nat, height as nat) + pixels_text(pixels@.subrange(0, i as int)),
        decreases pixels@.len() - i,
    {
        let p = pixels[i];
        push_pixel(&mut r, p);
        proof {
            let next = pixels@.subrange(0, i as int + 1);
            assert(next.drop_last() =~= pixels@.subrange(0, i as int));
            assert(next.last() == p);
        }
        i = i + 1;
    }
    assert(pixels@.subrange(0, i as int) =~= pixels@);
    r
}

} // verus!
