//! Assembly of the plain-text pixel stream.
//!
//! The rendered image is persisted as text: a magic line, a line with the
//! image dimensions, a line with the maximum channel value, then one line
//! per pixel of three space-separated decimal channel values, in row-major
//! order from the top-left. This module builds that stream exactly, byte by
//! byte, from the quantized pixels.

use vstd::prelude::*;

use crate::color::channel_byte;
use crate::color::channel_to_byte;

verus! {

/// The newline byte.
pub const NEWLINE: u8 = 10;

/// The space byte.
pub const SPACE: u8 = 32;

/// The first byte of the plain-text format magic, an ASCII `P`.
pub const MAGIC_P: u8 = 80;

/// The second byte of the plain-text format magic, an ASCII `3`.
pub const MAGIC_3: u8 = 51;

/// The ASCII digit for `d`.
pub open spec fn digit(d: int) -> u8 {
    (48 + d) as u8
}

/// The decimal representation of `n`, most significant digit first.
pub open spec fn decimal(n: nat) -> Seq<u8>
    decreases n,
{
    if n < 10 {
        seq![digit(n as int)]
    } else {
        decimal(n / 10).push(digit((n % 10) as int))
    }
}

/// Appends the decimal representation of `n`.
pub fn push_decimal(out: &mut Vec<u8>, n: u32)
    ensures
        final(out)@ == old(out)@ + decimal(n as nat),
    decreases n,
{
    if n < 10 {
        out.push(48 + n as u8);
        assert(out@ =~= old(out)@ + decimal(n as nat));
    } else {
        push_decimal(out, n / 10);
        out.push(48 + (n % 10) as u8);
        assert(out@ =~= old(out)@ + decimal(n as nat));
    }
}

/// One quantized pixel: the three channel bytes that its output line shows.
#[derive(Clone, Copy, Debug, PartialEq, Eq, Structural)]
pub struct Pixel {
    pub r: u8,
    pub g: u8,
    pub b: u8,
}

/// The output line of one pixel: its three channels in decimal, separated by
/// spaces and closed by a newline.
pub open spec fn pixel_line(p: Pixel) -> Seq<u8> {
    decimal(p.r as nat) + seq![SPACE] + decimal(p.g as nat) + seq![SPACE] + decimal(
        p.b as nat,
    ) + seq![NEWLINE]
}

/// Appends the output line of one pixel.
pub fn push_pixel_line(out: &mut Vec<u8>, p: Pixel)
    ensures
        final(out)@ == old(out)@ + pixel_line(p),
{
    push_decimal(out, p.r as u32);
    out.push(SPACE);
    push_decimal(out, p.g as u32);
    out.push(SPACE);
    push_decimal(out, p.b as u32);
    out.push(NEWLINE);
    assert(out@ =~= old(out)@ + pixel_line(p));
}

/// Quantizes three accumulated, gamma-corrected channels, each given in
/// millionths, to a pixel, and appends that pixel's output line.
pub fn push_color_line(out: &mut Vec<u8>, r: i64, g: i64, b: i64) -> (p: Pixel)
    ensures
        p.r as int == channel_byte(r as int),
        p.g as int == channel_byte(g as int),
        p.b as int == channel_byte(b as int),
        final(out)@ == old(out)@ + pixel_line(p),
{
    let p = Pixel {
        r: channel_to_byte(r),
        g: channel_to_byte(g),
        b: channel_to_byte(b),
    };
    push_pixel_line(out, p);
    p
}

/// The header of the pixel stream: the plain-text format magic, the image
/// dimensions, and the maximum channel value, one line each.
pub open spec fn header(w: u32, h: u32) -> Seq<u8> {
    seq![MAGIC_P, MAGIC_3, NEWLINE] + decimal(w as nat) + seq![SPACE] + decimal(h as nat) + seq![NEWLINE]
        + decimal(255) + seq![NEWLINE]
}

/// Appends the header of the pixel stream.
pub fn push_header(out: &mut Vec<u8>, w: u32, h: u32)
    ensures
        final(out)@ == old(out)@ + header(w, h),
{
    out.push(MAGIC_P);
    out.push(MAGIC_3);
    out.push(NEWLINE);
    push_decimal(out, w);
    out.push(SPACE);
    push_decimal(out, h);
    out.push(NEWLINE);
    push_decimal(out, 255);
    out.push(NEWLINE);
    assert(out@ =~= old(out)@ + header(w, h));
}

/// The output lines of a sequence of pixels, in order.
pub open spec fn pixel_lines(ps: Seq<Pixel>) -> Seq<u8>
    decreases ps.len(),
{
    if ps.len() == 0 {
        Seq::empty()
    } else {
        pixel_line(ps[0]) + pixel_lines(ps.drop_first())
    }
}

proof fn lemma_pixel_lines_push(ps: Seq<Pixel>, p: Pixel)
    ensures
        pixel_lines(ps.push(p)) == pixel_lines(ps) + pixel_line(p),
    decreases ps.len(),
{
    if ps.len() == 0 {
        assert(ps.push(p).drop_first() =~= Seq::<Pixel>::empty());
        assert(ps.push(p)[0] == p);
        assert(pixel_lines(Seq::<Pixel>::empty()) =~= Seq::<u8>::empty());
        assert(pixel_lines(ps.push(p)) =~= pixel_line(p) + Seq::<u8>::empty());
        assert(pixel_lines(ps.push(p)) =~= pixel_lines(ps) + pixel_line(p));
    } else {
        assert(ps.push(p).drop_first() =~= ps.drop_first().push(p));
        lemma_pixel_lines_push(ps.drop_first(), p);
        assert(pixel_lines(ps.push(p)) =~= pixel_lines(ps) + pixel_line(p));
    }
}

/// The whole pixel stream of a `w` by `h` image: the header, then one line
/// per pixel, in the order the pixels are given (row-major from the
/// top-left).
pub open spec fn image_text(w: u32, h: u32, ps: Seq<Pixel>) -> Seq<u8> {
    header(w, h) + pixel_lines(ps)
}

/// Builds the whole pixel stream of a `w` by `h` image from its quantized
/// pixels, given in row-major order from the top-left.
pub fn render_text(w: u32, h: u32, pixels: &Vec<Pixel>) -> (out: Vec<u8>)
    requires
        pixels@.len() == w as int * h as int,
    ensures
        out@ == image_text(w, h, pixels@),
{
    let mut out: Vec<u8> = Vec::new();
    push_header(&mut out, w, h);
    assert(out@ =~= header(w, h) + pixel_lines(pixels@.take(0)));
    let mut i: usize = 0;
    while i < pixels.len()
        invariant
            i <= pixels.len(),
            out@ == header(w, h) + pixel_lines(pixels@.take(i as int)),
        decreases pixels.len() - i,
    {
        push_pixel_line(&mut out, pixels[i]);
        proof {
            assert(pixels@.take(i + 1) =~= pixels@.take(i as int).push(pixels@[i as int]));
            lemma_pixel_lines_push(pixels@.take(i as int), pixels@[i as int]);
            assert(out@ =~= header(w, h) + pixel_lines(pixels@.take(i + 1)));
        }
        i = i + 1;
    }
    proof {
        assert(pixels@.take(pixels@.len() as int) =~= pixels@);
    }
    out
}

/// The number of occurrences of `x` in `s`.
pub open spec fn count_byte(x: u8, s: Seq<u8>) -> nat
    decreases s.len(),
{
    if s.len() == 0 {
        0
    } else {
        (if s[0] == x {
            1nat
        } else {
            0nat
        }) + count_byte(x, s.drop_first())
    }
}

proof fn lemma_count_byte_add(x: u8, a: Seq<u8>, b: Seq<u8>)
    ensures
        count_byte(x, a + b) == count_byte(x, a) + count_byte(x, b),
    decreases a.len(),
{
    if a.len() == 0 {
        assert(a + b =~= b);
    } else {
        assert((a + b).drop_first() =~= a.drop_first() + b);
        assert((a + b)[0] == a[0]);
        lemma_count_byte_add(x, a.drop_first(), b);
    }
}

proof fn lemma_count_byte_single(x: u8, y: u8)
    ensures
        count_byte(x, seq![y]) == if x == y {
            1nat
        } else {
            0nat
        },
{
    assert(seq![y].drop_first() =~= Seq::<u8>::empty());
    assert(count_byte(x, Seq::<u8>::empty()) == 0);
}

proof fn lemma_count_byte_absent(x: u8, s: Seq<u8>)
    requires
        forall|i: int| 0 <= i < s.len() ==> s[i] != x,
    ensures
        count_byte(x, s) == 0,
    decreases s.len(),
{
    if s.len() == 0 {
    } else {
        assert(forall|i: int|
            0 <= i < s.drop_first().len() ==> s.drop_first()[i] == s[i + 1]);
        lemma_count_byte_absent(x, s.drop_first());
    }
}

/// Every byte of a decimal representation is an ASCII digit.
proof fn lemma_decimal_digits(n: nat)
    ensures
        forall|i: int| 0 <= i < decimal(n).len() ==> 48 <= #[trigger] decimal(n)[i] <= 57,
    decreases n,
{
    if n < 10 {
    } else {
        lemma_decimal_digits(n / 10);
        assert forall|i: int| 0 <= i < decimal(n).len() implies 48 <= #[trigger] decimal(n)[i]
            <= 57 by {
            if i < decimal(n / 10).len() {
                assert(decimal(n)[i] == decimal(n / 10)[i]);
            } else {
                assert(decimal(n)[i] == digit((n % 10) as int));
            }
        }
    }
}

/// A decimal representation never starts with a superfluous zero: only the
/// number zero itself prints a leading zero digit.
pub proof fn lemma_decimal_no_leading_zero(n: nat)
    ensures
        n > 0 ==> decimal(n)[0] != 48,
        decimal(n).len() >= 1,
    decreases n,
{
    if n < 10 {
    } else {
        lemma_decimal_no_leading_zero(n / 10);
        assert(decimal(n)[0] == decimal(n / 10)[0]);
    }
}

proof fn lemma_decimal_count(x: u8, n: nat)
    requires
        x < 48 || x > 57,
    ensures
        count_byte(x, decimal(n)) == 0,
{
    lemma_decimal_digits(n);
    lemma_count_byte_absent(x, decimal(n));
}

proof fn lemma_pixel_line_newlines(p: Pixel)
    ensures
        count_byte(NEWLINE, pixel_line(p)) == 1,
{
    lemma_decimal_count(NEWLINE, p.r as nat);
    lemma_decimal_count(NEWLINE, p.g as nat);
    lemma_decimal_count(NEWLINE, p.b as nat);
    lemma_count_byte_single(NEWLINE, SPACE);
    lemma_count_byte_single(NEWLINE, NEWLINE);
    let a1 = decimal(p.r as nat) + seq![SPACE];
    let a2 = a1 + decimal(p.g as nat);
    let a3 = a2 + seq![SPACE];
    let a4 = a3 + decimal(p.b as nat);
    lemma_count_byte_add(NEWLINE, decimal(p.r as nat), seq![SPACE]);
    lemma_count_byte_add(NEWLINE, a1, decimal(p.g as nat));
    lemma_count_byte_add(NEWLINE, a2, seq![SPACE]);
    lemma_count_byte_add(NEWLINE, a3, decimal(p.b as nat));
    lemma_count_byte_add(NEWLINE, a4, seq![NEWLINE]);
}

proof fn lemma_pixel_lines_newlines(ps: Seq<Pixel>)
    ensures
        count_byte(NEWLINE, pixel_lines(ps)) == ps.len(),
    decreases ps.len(),
{
    if ps.len() == 0 {
    } else {
        lemma_pixel_line_newlines(ps[0]);
        lemma_pixel_lines_newlines(ps.drop_first());
        lemma_count_byte_add(NEWLINE, pixel_line(ps[0]), pixel_lines(ps.drop_first()));
    }
}

proof fn lemma_header_newlines(w: u32, h: u32)
    ensures
        count_byte(NEWLINE, header(w, h)) == 3,
{
    lemma_decimal_count(NEWLINE, w as nat);
    lemma_decimal_count(NEWLINE, h as nat);
    lemma_decimal_count(NEWLINE, 255);
    lemma_count_byte_single(NEWLINE, SPACE);
    lemma_count_byte_single(NEWLINE, NEWLINE);
    let magic = seq![MAGIC_P, MAGIC_3, NEWLINE];
    assert(magic.drop_first() =~= seq![MAGIC_3, NEWLINE]);
    assert(seq![MAGIC_3, NEWLINE].drop_first() =~= seq![NEWLINE]);
    assert(seq![NEWLINE].drop_first() =~= Seq::<u8>::empty());
    assert(count_byte(NEWLINE, Seq::<u8>::empty()) == 0);
    assert(count_byte(NEWLINE, seq![NEWLINE]) == 1);
    assert(count_byte(NEWLINE, seq![MAGIC_3, NEWLINE]) == 1);
    assert(count_byte(NEWLINE, magic) == 1);
    let a1 = magic + decimal(w as nat);
    let a2 = a1 + seq![SPACE];
    let a3 = a2 + decimal(h as nat);
    let a4 = a3 + seq![NEWLINE];
    let a5 = a4 + decimal(255);
    lemma_count_byte_add(NEWLINE, magic, decimal(w as nat));
    lemma_count_byte_add(NEWLINE, a1, seq![SPACE]);
    lemma_count_byte_add(NEWLINE, a2, decimal(h as nat));
    lemma_count_byte_add(NEWLINE, a3, seq![NEWLINE]);
    lemma_count_byte_add(NEWLINE, a4, decimal(255));
    lemma_count_byte_add(NEWLINE, a5, seq![NEWLINE]);
}

/// The pixel stream is made of lines: it holds exactly one newline per
/// pixel, after the three newlines of the header.
pub proof fn lemma_one_line_per_pixel(w: u32, h: u32, ps: Seq<Pixel>)
    ensures
        count_byte(NEWLINE, image_text(w, h, ps)) == 3 + ps.len(),
{
    lemma_header_newlines(w, h);
    lemma_pixel_lines_newlines(ps);
    lemma_count_byte_add(NEWLINE, header(w, h), pixel_lines(ps));
}

/// The bytes the pixel stream may hold: ASCII digits, the space, the
/// newline, and the leading magic byte.
pub open spec fn plain_byte(b: u8) -> bool {
    b == NEWLINE || b == SPACE || b == MAGIC_P || (48 <= b <= 57)
}

/// Whether every byte of `s` may appear in the pixel stream.
pub open spec fn all_plain(s: Seq<u8>) -> bool {
    forall|i: int| 0 <= i < s.len() ==> plain_byte(#[trigger] s[i])
}

proof fn lemma_all_plain_add(a: Seq<u8>, b: Seq<u8>)
    requires
        all_plain(a),
        all_plain(b),
    ensures
        all_plain(a + b),
{
    assert forall|i: int| 0 <= i < (a + b).len() implies plain_byte(#[trigger] (a + b)[i]) by {
        if i < a.len() {
            assert((a + b)[i] == a[i]);
        } else {
            assert((a + b)[i] == b[i - a.len()]);
        }
    }
}

proof fn lemma_decimal_plain(n: nat)
    ensures
        all_plain(decimal(n)),
{
    lemma_decimal_digits(n);
}

proof fn lemma_pixel_line_plain(p: Pixel)
    ensures
        all_plain(pixel_line(p)),
{
    lemma_decimal_plain(p.r as nat);
    lemma_decimal_plain(p.g as nat);
    lemma_decimal_plain(p.b as nat);
    let a1 = decimal(p.r as nat) + seq![SPACE];
    let a2 = a1 + decimal(p.g as nat);
    let a3 = a2 + seq![SPACE];
    let a4 = a3 + decimal(p.b as nat);
    lemma_all_plain_add(decimal(p.r as nat), seq![SPACE]);
    lemma_all_plain_add(a1, decimal(p.g as nat));
    lemma_all_plain_add(a2, seq![SPACE]);
    lemma_all_plain_add(a3, decimal(p.b as nat));
    lemma_all_plain_add(a4, seq![NEWLINE]);
}

proof fn lemma_pixel_lines_plain(ps: Seq<Pixel>)
    ensures
        all_plain(pixel_lines(ps)),
    decreases ps.len(),
{
    if ps.len() == 0 {
    } else {
        lemma_pixel_line_plain(ps[0]);
        lemma_pixel_lines_plain(ps.drop_first());
        lemma_all_plain_add(pixel_line(ps[0]), pixel_lines(ps.drop_first()));
    }
}

proof fn lemma_header_plain(w: u32, h: u32)
    ensures
        all_plain(header(w, h)),
{
    lemma_decimal_plain(w as nat);
    lemma_decimal_plain(h as nat);
    lemma_decimal_plain(255);
    let magic = seq![MAGIC_P, MAGIC_3, NEWLINE];
    let a1 = magic + decimal(w as nat);
    let a2 = a1 + seq![SPACE];
    let a3 = a2 + decimal(h as nat);
    let a4 = a3 + seq![NEWLINE];
    let a5 = a4 + decimal(255);
    lemma_all_plain_add(magic, decimal(w as nat));
    lemma_all_plain_add(a1, seq![SPACE]);
    lemma_all_plain_add(a2, decimal(h as nat));
    lemma_all_plain_add(a3, seq![NEWLINE]);
    lemma_all_plain_add(a4, decimal(255));
    lemma_all_plain_add(a5, seq![NEWLINE]);
}

/// The pixel stream is plain text: every byte of it is an ASCII digit, a
/// space, a newline, or the leading magic byte.
pub proof fn lemma_image_is_plain_text(w: u32, h: u32, ps: Seq<Pixel>)
    ensures
        all_plain(image_text(w, h, ps)),
{
    lemma_header_plain(w, h);
    lemma_pixel_lines_plain(ps);
    lemma_all_plain_add(header(w, h), pixel_lines(ps));
}

} // verus!
