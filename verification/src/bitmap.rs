//! An owned RGBA bitmap and the verified pixel operations the shadow
//! pipeline is built from: allocation, rectangle fill, cropping, pasting and
//! 180-degree rotation.

use vstd::prelude::*;
use vstd::pervasive::VecAdditionalExecFns;
use vstd::arithmetic::div_mod::lemma_fundamental_div_mod_converse;

verus! {

/// One pixel: red, green, blue and alpha, 8 bits each.
#[derive(Copy, Clone, PartialEq, Eq, Structural, Debug)]
pub struct Pixel {
    pub r: u8,
    pub g: u8,
    pub b: u8,
    pub a: u8,
}

impl Pixel {
    /// Fully transparent black, the colour every fresh canvas pixel holds.
    pub open spec fn transparent() -> Pixel {
        Pixel { r: 0, g: 0, b: 0, a: 0 }
    }

    /// Fully opaque black, the colour of the shadow silhouette.
    pub open spec fn opaque_black() -> Pixel {
        Pixel { r: 0, g: 0, b: 0, a: 255 }
    }
}

/// A rectangular grid of pixels, stored row-major.
#[derive(Clone, Debug)]
pub struct Bitmap {
    pub width: u32,
    pub height: u32,
    pub pixels: Vec<Pixel>,
}

/// Row-major index of the pixel at column `x`, row `y` stays inside the
/// buffer of a `w` by `h` bitmap.
pub proof fn lemma_index_in_bounds(w: int, h: int, x: int, y: int)
    requires
        0 <= x < w,
        0 <= y < h,
    ensures
        0 <= y * w + x < w * h,
{
    assert(0 <= y * w + x < w * h) by (nonlinear_arith)
        requires
            0 <= x < w,
            0 <= y < h,
    ;
}

/// Distinct coordinates of one bitmap have distinct row-major indices.
pub proof fn lemma_index_injective(w: int, x1: int, y1: int, x2: int, y2: int)
    requires
        0 <= x1 < w,
        0 <= x2 < w,
        0 <= y1,
        0 <= y2,
        y1 * w + x1 == y2 * w + x2,
    ensures
        x1 == x2 && y1 == y2,
{
    assert(x1 == x2 && y1 == y2) by (nonlinear_arith)
        requires
            0 <= x1 < w,
            0 <= x2 < w,
            0 <= y1,
            0 <= y2,
            y1 * w + x1 == y2 * w + x2,
    ;
}

impl Bitmap {
    /// The pixel buffer holds exactly one pixel per coordinate.
    pub open spec fn wf(self) -> bool {
        self.pixels@.len() == self.width * self.height
    }

    /// The pixel at column `x`, row `y`.
    pub open spec fn pix(self, x: int, y: int) -> Pixel {
        self.pixels@[y * self.width + x]
    }

    /// Allocate a `width` by `height` bitmap of fully transparent pixels.
    /// Returns `None` when the pixel buffer would not fit in memory.
    pub fn new(width: u32, height: u32) -> (r: Option<Bitmap>)
        ensures
            match r {
                Some(b) => {
                    &&& b.wf()
                    &&& b.width == width
                    &&& b.height == height
                    &&& width * height <= usize::MAX
                    &&& forall|x: int, y: int|
                        0 <= x < width && 0 <= y < height ==> b.pix(x, y) == Pixel::transparent()
                },
                None => width * height > usize::MAX,
            },
    {
        proof {
            assert((width as int) * (height as int) <= (u32::MAX as int) * (u32::MAX as int))
                by (nonlinear_arith)
                requires
                    width <= u32::MAX,
                    height <= u32::MAX,
            ;
        }
        let count_wide: u64 = (width as u64) * (height as u64);
        if count_wide > usize::MAX as u64 {
            return None;
        }
        let count: usize = count_wide as usize;
        let pixels: Vec<Pixel> = vec![Pixel { r: 0, g: 0, b: 0, a: 0 }; count];
        let b = Bitmap { width, height, pixels };
        proof {
            assert forall|x: int, y: int|
                0 <= x < width && 0 <= y < height implies b.pix(x, y) == Pixel::transparent() by {
                lemma_index_in_bounds(width as int, height as int, x, y);
            }
        }
        Some(b)
    }

    /// Read the pixel at column `x`, row `y`.
    pub fn get(&self, x: u32, y: u32) -> (p: Pixel)
        requires
            self.wf(),
            x < self.width,
            y < self.height,
        ensures
            p == self.pix(x as int, y as int),
    {
        proof {
            lemma_index_in_bounds(self.width as int, self.height as int, x as int, y as int);
        }
        let _n: usize = self.pixels.len();
        let idx: usize = (y as usize) * (self.width as usize) + (x as usize);
        self.pixels[idx]
    }

    /// Overwrite the pixel at column `x`, row `y`; every other pixel keeps
    /// its value.
    pub fn put(&mut self, x: u32, y: u32, p: Pixel)
        requires
            old(self).wf(),
            x < old(self).width,
            y < old(self).height,
        ensures
            final(self).wf(),
            final(self).width == old(self).width,
            final(self).height == old(self).height,
            final(self).pix(x as int, y as int) == p,
            forall|i: int, j: int|
                0 <= i < old(self).width && 0 <= j < old(self).height && !(i == x && j == y)
                    ==> final(self).pix(i, j) == old(self).pix(i, j),
    {
        proof {
            lemma_index_in_bounds(self.width as int, self.height as int, x as int, y as int);
        }
        let _n: usize = self.pixels.len();
        let idx: usize = (y as usize) * (self.width as usize) + (x as usize);
        self.pixels.set(idx, p);
        proof {
            assert forall|i: int, j: int|
                0 <= i < old(self).width && 0 <= j < old(self).height && !(i == x && j == y)
                    implies self.pix(i, j) == old(self).pix(i, j) by {
                lemma_index_in_bounds(old(self).width as int, old(self).height as int, i, j);
                if j * old(self).width + i == y * old(self).width + x {
                    lemma_index_injective(old(self).width as int, i, j, x as int, y as int);
                }
            }
        }
    }

    /// Paint the rectangle spanning columns `x0..x1` and rows `y0..y1` with
    /// `p`, leaving every other pixel unchanged. An empty range paints
    /// nothing.
    pub fn fill_rect(&mut self, x0: u32, y0: u32, x1: u32, y1: u32, p: Pixel)
        requires
            old(self).wf(),
            x1 <= old(self).width,
            y1 <= old(self).height,
        ensures
            final(self).wf(),
            final(self).width == old(self).width,
            final(self).height == old(self).height,
            forall|i: int, j: int|
                0 <= i < old(self).width && 0 <= j < old(self).height
                    ==> final(self).pix(i, j) == (if x0 <= i < x1 && y0 <= j < y1 {
                        p
                    } else {
                        old(self).pix(i, j)
                    }),
    {
        let ghost orig = *self;
        let mut y: u32 = y0;
        while y < y1
            invariant
                self.wf(),
                self.width == orig.width,
                self.height == orig.height,
                orig.wf(),
                x1 <= orig.width,
                y1 <= orig.height,
                y0 <= y,
                y <= y1 || y == y0,
                forall|i: int, j: int|
                    0 <= i < orig.width && 0 <= j < orig.height
                        ==> self.pix(i, j) == (if x0 <= i < x1 && y0 <= j < y {
                            p
                        } else {
                            orig.pix(i, j)
                        }),
            decreases y1 - y,
        {
            let mut x: u32 = x0;
            while x < x1
                invariant
                    self.wf(),
                    self.width == orig.width,
                    self.height == orig.height,
                    orig.wf(),
                    x1 <= orig.width,
                    y1 <= orig.height,
                    y0 <= y < y1,
                    x0 <= x,
                    x <= x1 || x == x0,
                    forall|i: int, j: int|
                        0 <= i < orig.width && 0 <= j < orig.height
                            ==> self.pix(i, j) == (if (x0 <= i < x1 && y0 <= j < y) || (j == y
                                && x0 <= i < x) {
                                p
                            } else {
                                orig.pix(i, j)
                            }),
                decreases x1 - x,
            {
                self.put(x, y, p);
                x = x + 1;
            }
            y = y + 1;
        }
    }

    /// Paste `src` with its top-left corner at `(x, y)`. Returns `true` and
    /// overwrites exactly the covered rectangle when `src` fits inside `self`
    /// at that offset; returns `false` and leaves `self` untouched otherwise.
    pub fn copy_from(&mut self, src: &Bitmap, x: u32, y: u32) -> (ok: bool)
        requires
            old(self).wf(),
            src.wf(),
        ensures
            final(self).wf(),
            final(self).width == old(self).width,
            final(self).height == old(self).height,
            ok <==> (x + src.width <= old(self).width && y + src.height <= old(self).height),
            !ok ==> *final(self) == *old(self),
            ok ==> forall|i: int, j: int|
                0 <= i < old(self).width && 0 <= j < old(self).height
                    ==> final(self).pix(i, j) == (if x <= i < x + src.width && y <= j < y
                        + src.height {
                        src.pix(i - x, j - y)
                    } else {
                        old(self).pix(i, j)
                    }),
    {
        let fits = (x as u64) + (src.width as u64) <= (self.width as u64) && (y as u64) + (
        src.height as u64) <= (self.height as u64);
        if !fits {
            return false;
        }
        let ghost orig = *self;
        let mut sj: u32 = 0;
        while sj < src.height
            invariant
                self.wf(),
                self.width == orig.width,
                self.height == orig.height,
                orig.wf(),
                src.wf(),
                x + src.width <= orig.width,
                y + src.height <= orig.height,
                sj <= src.height,
                forall|i: int, j: int|
                    0 <= i < orig.width && 0 <= j < orig.height
                        ==> self.pix(i, j) == (if x <= i < x + src.width && y <= j < y + sj {
                            src.pix(i - x, j - y)
                        } else {
                            orig.pix(i, j)
                        }),
            decreases src.height - sj,
        {
            let mut si: u32 = 0;
            while si < src.width
                invariant
                    self.wf(),
                    self.width == orig.width,
                    self.height == orig.height,
                    orig.wf(),
                    src.wf(),
                    x + src.width <= orig.width,
                    y + src.height <= orig.height,
                    sj < src.height,
                    si <= src.width,
                    forall|i: int, j: int|
                        0 <= i < orig.width && 0 <= j < orig.height
                            ==> self.pix(i, j) == (if (x <= i < x + src.width && y <= j < y + sj)
                                || (j == y + sj && x <= i < x + si) {
                                src.pix(i - x, j - y)
                            } else {
                                orig.pix(i, j)
                            }),
                decreases src.width - si,
            {
                let pval = src.get(si, sj);
                self.put(x + si, y + sj, pval);
                si = si + 1;
            }
            sj = sj + 1;
        }
        true
    }

    /// Copy out the `w` by `h` rectangle whose top-left corner is `(x, y)`.
    /// Returns `None` when the rectangle reaches outside the bitmap.
    pub fn crop(&self, x: u32, y: u32, w: u32, h: u32) -> (r: Option<Bitmap>)
        requires
            self.wf(),
        ensures
            match r {
                Some(b) => {
                    &&& x + w <= self.width
                    &&& y + h <= self.height
                    &&& b.wf()
                    &&& b.width == w
                    &&& b.height == h
                    &&& forall|i: int, j: int|
                        0 <= i < w && 0 <= j < h ==> b.pix(i, j) == self.pix(x + i, y + j)
                },
                None => x + w > self.width || y + h > self.height,
            },
    {
        let fits = (x as u64) + (w as u64) <= (self.width as u64) && (y as u64) + (h as u64) <= (
        self.height as u64);
        if !fits {
            return None;
        }
        let mut pixels: Vec<Pixel> = Vec::new();
        let mut j: u32 = 0;
        while j < h
            invariant
                self.wf(),
                x + w <= self.width,
                y + h <= self.height,
                j <= h,
                pixels@.len() == (j as int) * (w as int),
                forall|k: int|
                    0 <= k < pixels@.len() ==> pixels@[k] == self.pix(
                        x + (k % (w as int)),
                        y + (k / (w as int)),
                    ),
            decreases h - j,
        {
            let mut i: u32 = 0;
            while i < w
                invariant
                    self.wf(),
                    x + w <= self.width,
                    y + h <= self.height,
                    j < h,
                    i <= w,
                    pixels@.len() == (j as int) * (w as int) + i,
                    forall|k: int|
                        0 <= k < pixels@.len() ==> pixels@[k] == self.pix(
                            x + (k % (w as int)),
                            y + (k / (w as int)),
                        ),
                decreases w - i,
            {
                let pval = self.get(x + i, y + j);
                pixels.push(pval);
                proof {
                    lemma_fundamental_div_mod_converse(
                        (j as int) * (w as int) + i,
                        w as int,
                        j as int,
                        i as int,
                    );
                }
                i = i + 1;
            }
            proof {
                assert((j as int + 1) * (w as int) == (j as int) * (w as int) + w)
                    by (nonlinear_arith);
            }
            j = j + 1;
        }
        let b = Bitmap { width: w, height: h, pixels };
        proof {
            assert((h as int) * (w as int) == (w as int) * (h as int)) by (nonlinear_arith);
            assert forall|i: int, j: int| 0 <= i < w && 0 <= j < h implies b.pix(i, j) == self.pix(
                x + i,
                y + j,
            ) by {
                lemma_index_in_bounds(w as int, h as int, i, j);
                lemma_fundamental_div_mod_converse(j * (w as int) + i, w as int, j, i);
            }
        }
        Some(b)
    }

    /// A copy rotated by 180 degrees: the pixel at `(i, j)` of the result is
    /// the pixel at `(width - 1 - i, height - 1 - j)` of the original.
    pub fn rotate180(&self) -> (r: Bitmap)
        requires
            self.wf(),
        ensures
            r.wf(),
            r.width == self.width,
            r.height == self.height,
            forall|i: int, j: int|
                0 <= i < self.width && 0 <= j < self.height ==> r.pix(i, j) == self.pix(
                    self.width - 1 - i,
                    self.height - 1 - j,
                ),
    {
        let w = self.width;
        let h = self.height;
        let mut pixels: Vec<Pixel> = Vec::new();
        let mut j: u32 = 0;
        while j < h
            invariant
                self.wf(),
                w == self.width,
                h == self.height,
                j <= h,
                pixels@.len() == (j as int) * (w as int),
                forall|k: int|
                    0 <= k < pixels@.len() ==> pixels@[k] == self.pix(
                        w - 1 - (k % (w as int)),
                        h - 1 - (k / (w as int)),
                    ),
            decreases h - j,
        {
            let mut i: u32 = 0;
            while i < w
                invariant
                    self.wf(),
                    w == self.width,
                    h == self.height,
                    j < h,
                    i <= w,
                    pixels@.len() == (j as int) * (w as int) + i,
                    forall|k: int|
                        0 <= k < pixels@.len() ==> pixels@[k] == self.pix(
                            w - 1 - (k % (w as int)),
                            h - 1 - (k / (w as int)),
                        ),
                decreases w - i,
            {
                let pval = self.get(w - 1 - i, h - 1 - j);
                pixels.push(pval);
                proof {
                    lemma_fundamental_div_mod_converse(
                        (j as int) * (w as int) + i,
                        w as int,
                        j as int,
                        i as int,
                    );
                }
                i = i + 1;
            }
            proof {
                assert((j as int + 1) * (w as int) == (j as int) * (w as int) + w)
                    by (nonlinear_arith);
            }
            j = j + 1;
        }
        let b = Bitmap { width: w, height: h, pixels };
        proof {
            assert((h as int) * (w as int) == (w as int) * (h as int)) by (nonlinear_arith);
            assert forall|i: int, j: int| 0 <= i < w && 0 <= j < h implies b.pix(i, j) == self.pix(
                w - 1 - i,
                h - 1 - j,
            ) by {
                lemma_index_in_bounds(w as int, h as int, i, j);
                lemma_fundamental_div_mod_converse(j * (w as int) + i, w as int, j, i);
            }
        }
        b
    }
}

} // verus!
