//! Binary PPM (`P6`) encoding of an image, top row first.

use vstd::prelude::*;
use crate::color::Color;
use crate::image::{Image, RGBPixel};

verus! {

/// The decimal digits of `n` in ASCII (`0` is 48), most significant first, without leading zeros.
pub open spec fn decimal(n: nat) -> Seq<u8>
    decreases n,
{
    if n < 10 {
        seq![(48 + n) as u8]
    } else {
        decimal(n / 10).push((48 + n % 10) as u8)
    }
}

/// The three channel bytes of a pixel: red, green, blue.
pub open spec fn pixel_bytes(p: RGBPixel) -> Seq<u8> {
    seq![p.red(), p.green(), p.blue()]
}

/// `P6`, the width and height in decimal, and the largest channel value 255, each
/// followed by one whitespace byte.
pub open spec fn ppm_header(width: nat, height: nat) -> Seq<u8> {
    // "P6\n", width, " ", height, "\n255\n"
    seq![80u8, 54u8, 10u8] + decimal(width) + seq![32u8] + decimal(height) + seq![
        10u8,
        50u8,
        53u8,
        53u8,
        10u8,
    ]
}

/// The bytes of row `h` of `img`, left to right.
pub open spec fn row_bytes(img: Image, h: int) -> Seq<u8> {
    Seq::new(img.width_spec(), |x: int| pixel_bytes(img.pixel(x, h))).flatten()
}

/// The whole PPM file: the header, then the rows from the top one (the last row of
/// the image) down to row 0.
pub open spec fn ppm_bytes(img: Image) -> Seq<u8> {
    ppm_header(img.width_spec(), img.height_spec()) + Seq::new(
        img.height_spec(),
        |i: int| row_bytes(img, img.height_spec() - 1 - i),
    ).flatten()
}

/// The encoding depends on the image's size and pixels alone: two images that agree
/// on them encode to the same bytes.
pub proof fn lemma_encoding_determined_by_pixels(a: Image, b: Image)
    requires
        a.width_spec() == b.width_spec(),
        a.height_spec() == b.height_spec(),
        a.pixels() == b.pixels(),
    ensures
        ppm_bytes(a) == ppm_bytes(b),
{
    assert(Seq::new(a.height_spec(), |i: int| row_bytes(a, a.height_spec() - 1 - i)) =~= Seq::new(
        b.height_spec(),
        |i: int| row_bytes(b, b.height_spec() - 1 - i),
    )) by {
        assert forall|h: int| #[trigger] row_bytes(a, h) == row_bytes(b, h) by {
            assert(Seq::new(a.width_spec(), |x: int| pixel_bytes(a.pixel(x, h))) =~= Seq::new(
                b.width_spec(),
                |x: int| pixel_bytes(b.pixel(x, h)),
            ));
        }
    }
}

/// Appends the decimal digits of `n` to `out`.
fn push_decimal(out: &mut Vec<u8>, n: usize)
    ensures
        final(out)@ == old(out)@ + decimal(n as nat),
    decreases n,
{
    if n >= 10 {
        push_decimal(out, n / 10);
    }
    out.push(48u8 + (n % 10) as u8);
    assert(out@ =~= old(out)@ + decimal(n as nat));
}

/// Encodes `img` as a binary PPM file.
pub fn encode_ppm(img: &Image) -> (r: Vec<u8>)
    requires
        img.wf(),
    ensures
        r@ == ppm_bytes(*img),
{
    let width = img.width();
    let height = img.height();
    let mut out: Vec<u8> = Vec::new();
    // "P6\n"
    out.push(80u8);
    out.push(54u8);
    out.push(10u8);
    push_decimal(&mut out, width);
    out.push(32u8);
    push_decimal(&mut out, height);
    // "\n255\n"
    out.push(10u8);
    out.push(50u8);
    out.push(53u8);
    out.push(53u8);
    out.push(10u8);
    let ghost header = out@;
    assert(header =~= ppm_header(width as nat, height as nat));
    let mut k: usize = 0;
    while k < height
        invariant
            img.wf(),
            width == img.width_spec(),
            height == img.height_spec(),
            header == ppm_header(width as nat, height as nat),
            k <= height,
            out@ == header + Seq::new(k as nat, |i: int| row_bytes(*img, height - 1 - i)).flatten(),
        decreases height - k,
    {
        let h = height - 1 - k;
        let ghost before = out@;
        let mut x: usize = 0;
        while x < width
            invariant
                img.wf(),
                width == img.width_spec(),
                height == img.height_spec(),
                h < height,
                x <= width,
                out@ == before + Seq::new(x as nat, |c: int| pixel_bytes(img.pixel(c, h as int))).flatten(),
            decreases width - x,
        {
            let p = img.at(x, h);
            let ghost done = Seq::new(x as nat, |c: int| pixel_bytes(img.pixel(c, h as int)));
            out.push(p.r());
            out.push(p.g());
            out.push(p.b());
            x = x + 1;
            proof {
                assert(Seq::new(x as nat, |c: int| pixel_bytes(img.pixel(c, h as int))) =~= done.push(
                    pixel_bytes(img.pixel((x - 1) as int, h as int)),
                ));
                done.lemma_flatten_push(pixel_bytes(img.pixel((x - 1) as int, h as int)));
            }
        }
        let ghost rows = Seq::new(k as nat, |i: int| row_bytes(*img, height - 1 - i));
        k = k + 1;
        proof {
            assert(Seq::new(k as nat, |i: int| row_bytes(*img, height - 1 - i)) =~= rows.push(
                row_bytes(*img, h as int),
            ));
            rows.lemma_flatten_push(row_bytes(*img, h as int));
        }
    }
    out
}

} // verus!
