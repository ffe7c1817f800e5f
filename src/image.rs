//! A rectangular grid of 8-bit RGB pixels, stored row by row.
//!
//! Row 0 is the lower edge of the picture; `rlines` and the PPM encoding walk the
//! rows from the top down.

use vstd::prelude::*;
use vstd::slice::slice_subrange;
use crate::color::Color;

verus! {

/// One pixel with 8-bit red, green and blue channels.
#[derive(Debug, Copy, Clone, PartialEq, Eq, Structural)]
pub struct RGBPixel {
    r: u8,
    g: u8,
    b: u8,
}

impl RGBPixel {
    pub closed spec fn red(self) -> u8 {
        self.r
    }

    pub closed spec fn green(self) -> u8 {
        self.g
    }

    pub closed spec fn blue(self) -> u8 {
        self.b
    }

    pub closed spec fn new_spec(r: u8, g: u8, b: u8) -> RGBPixel {
        RGBPixel { r, g, b }
    }

    pub fn new(r: u8, g: u8, b: u8) -> (p: RGBPixel)
        ensures
            p == RGBPixel::new_spec(r, g, b),
            p.red() == r,
            p.green() == g,
            p.blue() == b,
    {
        RGBPixel { r, g, b }
    }
}

impl Color for RGBPixel {
    type Value = u8;

    fn r(&self) -> (v: u8)
        ensures
            v == self.red(),
    {
        self.r
    }

    fn g(&self) -> (v: u8)
        ensures
            v == self.green(),
    {
        self.g
    }

    fn b(&self) -> (v: u8)
        ensures
            v == self.blue(),
    {
        self.b
    }

    /// A pixel is always opaque.
    fn a(&self) -> (v: u8)
        ensures
            v == 255,
    {
        255
    }

    fn set_r(&mut self, v: u8)
        ensures
            final(self).red() == v,
            final(self).green() == old(self).green(),
            final(self).blue() == old(self).blue(),
    {
        self.r = v;
    }

    fn set_g(&mut self, v: u8)
        ensures
            final(self).red() == old(self).red(),
            final(self).green() == v,
            final(self).blue() == old(self).blue(),
    {
        self.g = v;
    }

    fn set_b(&mut self, v: u8)
        ensures
            final(self).red() == old(self).red(),
            final(self).green() == old(self).green(),
            final(self).blue() == v,
    {
        self.b = v;
    }

    /// Opacity is fixed; the value is ignored.
    fn set_a(&mut self, _v: u8)
        ensures
            *final(self) == *old(self),
    {
    }
}

/// A `width` by `height` grid of pixels in row-major order, row 0 first.
#[derive(Debug, Clone, PartialEq, Eq)]
pub struct Image {
    pixels: Vec<RGBPixel>,
    width: usize,
    height: usize,
}

impl Image {
    /// Number of pixels in each row.
    pub closed spec fn width_spec(&self) -> nat {
        self.width as nat
    }

    /// Number of rows.
    pub closed spec fn height_spec(&self) -> nat {
        self.height as nat
    }

    /// All pixels, row by row, starting with row 0.
    pub closed spec fn pixels(&self) -> Seq<RGBPixel> {
        self.pixels@
    }

    /// The grid holds exactly one pixel per column and row.
    pub open spec fn wf(&self) -> bool {
        self.pixels().len() == self.width_spec() * self.height_spec()
    }

    /// The pixel in column `w` of row `h`.
    pub open spec fn pixel(&self, w: int, h: int) -> RGBPixel {
        self.pixels()[h * self.width_spec() + w]
    }

    /// Row `h`, from column 0 on.
    pub open spec fn row(&self, h: int) -> Seq<RGBPixel> {
        self.pixels().subrange(h * self.width_spec(), (h + 1) * self.width_spec())
    }

    /// A black image of `w` columns and `h` rows.
    pub fn new(w: usize, h: usize) -> (img: Image)
        requires
            w * h <= usize::MAX,
        ensures
            img.wf(),
            img.width_spec() == w,
            img.height_spec() == h,
            forall|i: int| 0 <= i < w * h ==> #[trigger] img.pixels()[i] == RGBPixel::new_spec(0, 0, 0),
    {
        let n: usize = w * h;
        let mut v: Vec<RGBPixel> = Vec::with_capacity(n);
        let black = RGBPixel::new(0, 0, 0);
        let mut i: usize = 0;
        while i < n
            invariant
                i <= n,
                black == RGBPixel::new_spec(0, 0, 0),
                v@.len() == i,
                forall|k: int| 0 <= k < i ==> #[trigger] v@[k] == RGBPixel::new_spec(0, 0, 0),
            decreases n - i,
        {
            v.push(black);
            i = i + 1;
        }
        Image { pixels: v, width: w, height: h }
    }

    pub fn width(&self) -> (r: usize)
        ensures
            r == self.width_spec(),
    {
        self.width
    }

    pub fn height(&self) -> (r: usize)
        ensures
            r == self.height_spec(),
    {
        self.height
    }

    /// The pixel in column `w` of row `h`.
    pub fn at(&self, w: usize, h: usize) -> (p: &RGBPixel)
        requires
            self.wf(),
            w < self.width_spec(),
            h < self.height_spec(),
        ensures
            *p == self.pixel(w as int, h as int),
    {
        let n = self.pixels.len();
        proof {
            lemma_cell_in_grid(w as int, h as int, self.width as int, self.height as int);
        }
        &self.pixels[h * self.width + w]
    }

    /// The pixel in column `w` of row `h`, for writing; no other pixel changes.
    pub fn at_mut(&mut self, w: usize, h: usize) -> (p: &mut RGBPixel)
        requires
            old(self).wf(),
            w < old(self).width_spec(),
            h < old(self).height_spec(),
        ensures
            *p == old(self).pixel(w as int, h as int),
            final(self).width_spec() == old(self).width_spec(),
            final(self).height_spec() == old(self).height_spec(),
            final(self).pixels() == old(self).pixels().update(
                h * old(self).width_spec() + w,
                *final(p),
            ),
    {
        let n = self.pixels.len();
        proof {
            lemma_cell_in_grid(w as int, h as int, self.width as int, self.height as int);
        }
        let i = h * self.width + w;
        &mut self.pixels[i]
    }

    /// The rows, from row 0 up.
    pub fn lines(&self) -> (r: Vec<&[RGBPixel]>)
        requires
            self.wf(),
            self.width_spec() > 0,
        ensures
            r@.len() == self.height_spec(),
            forall|i: int| 0 <= i < self.height_spec() ==> #[trigger] r@[i]@ == self.row(i),
    {
        let n = self.pixels.len();
        let all = self.pixels.as_slice();
        let mut out: Vec<&[RGBPixel]> = Vec::with_capacity(self.height);
        let mut h: usize = 0;
        while h < self.height
            invariant
                self.wf(),
                self.width_spec() > 0,
                n == self.pixels().len(),
                all@ == self.pixels(),
                h <= self.height_spec(),
                out@.len() == h,
                forall|i: int| 0 <= i < h ==> #[trigger] out@[i]@ == self.row(i),
            decreases self.height - h,
        {
            proof {
                lemma_cell_in_grid(0, h as int, self.width as int, self.height as int);
            }
            out.push(slice_subrange(all, h * self.width, (h + 1) * self.width));
            h = h + 1;
        }
        out
    }

    /// The rows, from row 0 up, for writing.
    pub fn lines_mut(&mut self) -> (r: Vec<&mut [RGBPixel]>)
        requires
            old(self).wf(),
            old(self).width_spec() > 0,
        ensures
            r@.len() == old(self).height_spec(),
            forall|i: int| 0 <= i < old(self).height_spec() ==> #[trigger] r@[i]@ == old(self).row(i),
            final(self).width_spec() == old(self).width_spec(),
            final(self).height_spec() == old(self).height_spec(),
            final(self).pixels() == Seq::new(r@.len(), |i: int| final(r@[i])@).flatten(),
    {
        let width = self.width;
        let height = self.height;
        let mut rest: &mut [RGBPixel] = self.pixels.as_mut_slice();
        let mut out: Vec<&mut [RGBPixel]> = Vec::with_capacity(height);
        let mut h: usize = 0;
        while h < height
            invariant
                h <= height,
                width > 0,
                width == old(self).width_spec(),
                height == old(self).height_spec(),
                old(self).wf(),
                out@.len() == h,
                forall|i: int| 0 <= i < h ==> #[trigger] out@[i]@ == old(self).row(i),
                h * width <= old(self).pixels().len(),
                rest@ == old(self).pixels().subrange(h * width, old(self).pixels().len() as int),
                after_borrow(self.pixels)@ == Seq::new(h as nat, |i: int| final(out@[i])@).flatten() + final(rest)@,
            decreases height - h,
        {
            proof {
                lemma_cell_in_grid(0, h as int, width as int, height as int);
            }
            let ghost prev = out@;
            let (head, tail) = rest.split_at_mut(width);
            out.push(head);
            rest = tail;
            h = h + 1;
            proof {
                let done = Seq::new((h - 1) as nat, |i: int| final(prev[i])@);
                assert(Seq::new(h as nat, |i: int| final(out@[i])@) =~= done.push(
                    final(out@[h - 1])@,
                ));
                done.lemma_flatten_push(final(out@[h - 1])@);
            }
        }
        proof {
            assert(h * width == width * height) by (nonlinear_arith)
                requires
                    h == height,
            ;
            assert(rest@.len() == 0);
            assert(final(rest)@ =~= Seq::<RGBPixel>::empty());
        }
        out
    }

    /// The rows, from the top row down.
    pub fn rlines(&self) -> (r: Vec<&[RGBPixel]>)
        requires
            self.wf(),
            self.width_spec() > 0,
        ensures
            r@.len() == self.height_spec(),
            forall|i: int|
                0 <= i < self.height_spec() ==> #[trigger] r@[i]@ == self.row(
                    self.height_spec() - 1 - i,
                ),
    {
        let n = self.pixels.len();
        let all = self.pixels.as_slice();
        let mut out: Vec<&[RGBPixel]> = Vec::with_capacity(self.height);
        let mut k: usize = 0;
        while k < self.height
            invariant
                self.wf(),
                self.width_spec() > 0,
                n == self.pixels().len(),
                all@ == self.pixels(),
                k <= self.height_spec(),
                out@.len() == k,
                forall|i: int|
                    0 <= i < k ==> #[trigger] out@[i]@ == self.row(self.height_spec() - 1 - i),
            decreases self.height - k,
        {
            let h = self.height - 1 - k;
            proof {
                lemma_cell_in_grid(0, h as int, self.width as int, self.height as int);
            }
            out.push(slice_subrange(all, h * self.width, (h + 1) * self.width));
            k = k + 1;
        }
        out
    }

    /// The rows, from the top row down, for writing.
    pub fn rlines_mut(&mut self) -> (r: Vec<&mut [RGBPixel]>)
        requires
            old(self).wf(),
            old(self).width_spec() > 0,
        ensures
            r@.len() == old(self).height_spec(),
            forall|i: int|
                0 <= i < old(self).height_spec() ==> #[trigger] r@[i]@ == old(self).row(
                    old(self).height_spec() - 1 - i,
                ),
            final(self).width_spec() == old(self).width_spec(),
            final(self).height_spec() == old(self).height_spec(),
            final(self).pixels() == Seq::new(
                r@.len(),
                |i: int| final(r@[r@.len() - 1 - i])@,
            ).flatten(),
    {
        let width = self.width;
        let height = self.height;
        let n = self.pixels.len();
        proof {
            assert(height * width == width * height) by (nonlinear_arith);
        }
        let mut rest: &mut [RGBPixel] = self.pixels.as_mut_slice();
        let mut out: Vec<&mut [RGBPixel]> = Vec::with_capacity(height);
        let mut k: usize = 0;
        while k < height
            invariant
                k <= height,
                width > 0,
                width == old(self).width_spec(),
                height == old(self).height_spec(),
                old(self).wf(),
                n == old(self).pixels().len(),
                out@.len() == k,
                forall|i: int|
                    0 <= i < k ==> #[trigger] out@[i]@ == old(self).row(height - 1 - i),
                (height - k) * width <= old(self).pixels().len(),
                rest@ == old(self).pixels().subrange(0, (height - k) * width),
                after_borrow(self.pixels)@ == final(rest)@ + Seq::new(
                    k as nat,
                    |i: int| final(out@[k - 1 - i])@,
                ).flatten(),
            decreases height - k,
        {
            let h = height - 1 - k;
            proof {
                lemma_cell_in_grid(0, h as int, width as int, height as int);
            }
            let ghost prev = out@;
            let (head, tail) = rest.split_at_mut(h * width);
            out.push(tail);
            rest = head;
            k = k + 1;
            proof {
                let done = Seq::new((k - 1) as nat, |i: int| final(prev[k - 2 - i])@);
                let now = Seq::new(k as nat, |i: int| final(out@[k - 1 - i])@);
                assert(now.drop_first() =~= done);
                assert(now.first() == final(out@[k - 1])@);
                assert(now.flatten() == now.first() + now.drop_first().flatten());
            }
        }
        proof {
            assert((height - k) * width == 0) by (nonlinear_arith)
                requires
                    k == height,
            ;
            assert(rest@.len() == 0);
            assert(final(rest)@ =~= Seq::<RGBPixel>::empty());
        }
        out
    }
}

/// A cell of a `width` by `height` grid has its row-major index inside the grid.
proof fn lemma_cell_in_grid(w: int, h: int, width: int, height: int)
    requires
        0 <= w < width,
        0 <= h < height,
    ensures
        0 <= h * width + w < width * height,
        0 <= h * width,
        (h + 1) * width == h * width + width,
        (h + 1) * width <= width * height,
{
    assert((h + 1) * width == h * width + width) by (nonlinear_arith);
    assert(0 <= h * width + w < width * height) by (nonlinear_arith)
        requires
            0 <= w < width,
            0 <= h < height,
    ;
    assert((h + 1) * width <= width * height) by (nonlinear_arith)
        requires
            0 <= w < width,
            0 <= h < height,
    ;
}

} // verus!
