//! The shadow pipeline: configuration clamping, the canvas builder and the
//! edge-blur compositor.
//!
//! The pipeline runs in three stages. `Config::validate` bounds-checks and
//! clamps the caller's parameters. `build` allocates the enlarged canvas and
//! paints the opaque shadow silhouette. `strips` hands out the two edge
//! strips whose blur the caller computes (the library holds no
//! floating-point blur kernel), and `generate_shadowed` pastes the blurred
//! strips back — each one twice, the second time rotated by 180 degrees onto
//! the opposite edge — and stamps the original image into the centre.

use vstd::prelude::*;
use crate::bitmap::{Bitmap, Pixel};
use crate::error::{ShadowError, ShadowResult};

verus! {

/// Shadow parameters. `blur_amount` is the Gaussian sigma in thousandths of
/// a pixel (7000 stands for 7.0), so that the configuration stays in integer
/// arithmetic; the caller's blur routine divides it out.
#[derive(Copy, Clone, PartialEq, Eq, Structural, Debug)]
pub struct Config {
    /// Pixels added on every side of the canvas.
    pub margin: u32,
    /// Additional depth, beyond `margin`, of each blur strip.
    pub blur_margin: u32,
    /// Blur sigma in thousandths of a pixel.
    pub blur_amount: u32,
}

impl Default for Config {
    /// A 20-pixel margin and blur strip, and a blur sigma of 7.0.
    fn default() -> (c: Config)
        ensures
            c.margin == 20,
            c.blur_margin == 20,
            c.blur_amount == 7000,
    {
        Config { margin: 20, blur_margin: 20, blur_amount: 7000 }
    }
}

/// A canvas dimension: the original dimension plus a margin on both sides.
pub open spec fn canvas_dim(orig: int, margin: int) -> int {
    orig + 2 * margin
}

/// Both canvas dimensions fit in pixel coordinates and the pixel buffer fits
/// in memory.
pub open spec fn canvas_fits(orig_w: int, orig_h: int, margin: int) -> bool {
    &&& canvas_dim(orig_w, margin) <= u32::MAX
    &&& canvas_dim(orig_h, margin) <= u32::MAX
    &&& canvas_dim(orig_w, margin) * canvas_dim(orig_h, margin) <= usize::MAX
}

/// The effective blur strip depth after the two clamping rules: the depth is
/// first capped at `margin` plus the larger canvas dimension, then, if two
/// opposing strips would overlap vertically, reduced to half the canvas
/// height that remains above the margins — which may drive it to zero on
/// very small images.
pub open spec fn clamped_blur_margin(margin: int, blur_margin: int, cw: int, ch: int) -> int {
    let cap = margin + vstd::math::max(cw, ch);
    let bm1 = if blur_margin > cap {
        cap
    } else {
        blur_margin
    };
    if ch < 2 * margin + 2 * bm1 {
        (ch - 2 * margin) / 2
    } else {
        bm1
    }
}

/// The blur strip depth `generate_shadowed` runs with for a given
/// configuration and original image size.
pub open spec fn effective_blur_margin(config: Config, orig_w: int, orig_h: int) -> int {
    clamped_blur_margin(
        config.margin as int,
        config.blur_margin as int,
        canvas_dim(orig_w, config.margin as int),
        canvas_dim(orig_h, config.margin as int),
    )
}

/// After clamping, the strip depth is non-negative and two opposing strips
/// fit above one another on the canvas.
pub proof fn lemma_clamp_fits_height(margin: int, blur_margin: int, cw: int, ch: int)
    requires
        0 <= margin,
        0 <= blur_margin,
        2 * margin <= ch,
    ensures
        0 <= clamped_blur_margin(margin, blur_margin, cw, ch),
        2 * margin + 2 * clamped_blur_margin(margin, blur_margin, cw, ch) <= ch,
{
    let cap = margin + vstd::math::max(cw, ch);
    let bm1 = if blur_margin > cap {
        cap
    } else {
        blur_margin
    };
    if ch < 2 * margin + 2 * bm1 {
        let rest = ch - 2 * margin;
        assert(rest >= 0);
        assert(0 <= rest / 2 && 2 * (rest / 2) <= rest) by (nonlinear_arith)
            requires
                rest >= 0,
        ;
    }
}

/// The canvas pixel at `(x, y)` right after the shadow silhouette is
/// painted: opaque black on the rectangle inset `margin + 1` pixels from the
/// canvas edge, fully transparent everywhere else. The extra one-pixel inset
/// leaves a transparent seam at the shadow's exact edge, so the blur fades
/// in softly instead of meeting an opaque cliff.
pub open spec fn shadow_pix(cw: int, ch: int, margin: int, x: int, y: int) -> Pixel {
    if margin + 1 <= x < cw - margin && margin + 1 <= y < ch - margin {
        Pixel::opaque_black()
    } else {
        Pixel::transparent()
    }
}

impl Config {
    /// Bounds-check and clamp this configuration against the dimensions of
    /// the original image, returning the effective configuration the
    /// compositor runs with; the caller-supplied value stays untouched.
    /// Fails with a `Configuration` error exactly when the enlarged canvas
    /// no longer fits in pixel coordinates.
    pub fn validate(&self, orig_width: u32, orig_height: u32) -> (r: ShadowResult<Config>)
        ensures
            match r {
                Ok(c) => {
                    &&& canvas_dim(orig_width as int, self.margin as int) <= u32::MAX
                    &&& canvas_dim(orig_height as int, self.margin as int) <= u32::MAX
                    &&& c.margin == self.margin
                    &&& c.blur_amount == self.blur_amount
                    &&& c.blur_margin == effective_blur_margin(
                        *self,
                        orig_width as int,
                        orig_height as int,
                    )
                },
                Err(e) => {
                    &&& !(canvas_dim(orig_width as int, self.margin as int) <= u32::MAX
                        && canvas_dim(orig_height as int, self.margin as int) <= u32::MAX)
                    &&& e is Configuration
                },
            },
    {
        let m = self.margin as u64;
        let cw = orig_width as u64 + 2 * m;
        let ch = orig_height as u64 + 2 * m;
        if cw > u32::MAX as u64 || ch > u32::MAX as u64 {
            return Err(
                ShadowError::Configuration(
                    "the canvas dimensions overflow pixel coordinates".to_string(),
                ),
            );
        }
        let maxdim = if cw >= ch {
            cw
        } else {
            ch
        };
        let cap = m + maxdim;
        let mut bm = self.blur_margin as u64;
        if bm > cap {
            bm = cap;
        }
        if ch < 2 * m + 2 * bm {
            bm = (ch - 2 * m) / 2;
        }
        Ok(Config { margin: self.margin, blur_margin: bm as u32, blur_amount: self.blur_amount })
    }
}

/// Allocate the enlarged canvas for an `orig_width` by `orig_height` image
/// and paint the opaque shadow silhouette on it, leaving the margin band and
/// a one-pixel seam fully transparent. The canvas is exactly
/// `2 * margin` pixels wider and taller than the original. Fails with a
/// `Configuration` error exactly when the canvas does not fit in pixel
/// coordinates or in memory.
pub fn build(orig_width: u32, orig_height: u32, margin: u32) -> (r: ShadowResult<Bitmap>)
    requires
        orig_width >= 1,
        orig_height >= 1,
    ensures
        match r {
            Ok(c) => {
                &&& canvas_fits(orig_width as int, orig_height as int, margin as int)
                &&& c.wf()
                &&& c.width == canvas_dim(orig_width as int, margin as int)
                &&& c.height == canvas_dim(orig_height as int, margin as int)
                &&& forall|x: int, y: int|
                    0 <= x < c.width && 0 <= y < c.height ==> c.pix(x, y) == shadow_pix(
                        c.width as int,
                        c.height as int,
                        margin as int,
                        x,
                        y,
                    )
            },
            Err(e) => {
                &&& !canvas_fits(orig_width as int, orig_height as int, margin as int)
                &&& e is Configuration
            },
        },
{
    let m64 = margin as u64;
    let cw64 = orig_width as u64 + 2 * m64;
    let ch64 = orig_height as u64 + 2 * m64;
    if cw64 > u32::MAX as u64 || ch64 > u32::MAX as u64 {
        return Err(
            ShadowError::Configuration(
                "the canvas dimensions overflow pixel coordinates".to_string(),
            ),
        );
    }
    let cw = cw64 as u32;
    let ch = ch64 as u32;
    match Bitmap::new(cw, ch) {
        None => Err(
            ShadowError::Configuration("the canvas pixel buffer does not fit in memory".to_string()),
        ),
        Some(mut canvas) => {
            canvas.fill_rect(margin + 1, margin + 1, cw - margin, ch - margin, Pixel { r: 0, g: 0, b: 0, a: 255 });
            Ok(canvas)
        },
    }
}

/// Everything that must hold for the compositor to run: the canvas fits,
/// the strips fit side by side on it, and the two blurred strips have
/// exactly the strip dimensions.
pub open spec fn compositor_accepts(
    original: Bitmap,
    config: Config,
    top: Bitmap,
    left: Bitmap,
) -> bool {
    let m = config.margin as int;
    let bm = effective_blur_margin(config, original.width as int, original.height as int);
    let cw = canvas_dim(original.width as int, m);
    let ch = canvas_dim(original.height as int, m);
    &&& canvas_fits(original.width as int, original.height as int, m)
    &&& m + bm <= cw
    &&& top.width == cw
    &&& top.height == m + bm
    &&& left.width == m + bm
    &&& left.height == ch - 2 * m - 2 * bm
}

/// The pixel at `(x, y)` of the finished canvas, as a function of the
/// original image, the effective margins and the two blurred strips. The
/// arms mirror the paste order in reverse: the original image is stamped
/// last, then the rotated left strip lands on the right edge, the left strip
/// on the left edge, the rotated top strip on the bottom edge, the top strip
/// on the top edge, and underneath it all lies the shadow silhouette.
pub open spec fn composed_pix(
    original: Bitmap,
    m: int,
    bm: int,
    top: Bitmap,
    left: Bitmap,
    x: int,
    y: int,
) -> Pixel {
    let cw = canvas_dim(original.width as int, m);
    let ch = canvas_dim(original.height as int, m);
    let d = m + bm;
    if m <= x < m + original.width && m <= y < m + original.height {
        original.pix(x - m, y - m)
    } else if d <= y < ch - d && cw - d <= x < cw {
        left.pix(d - 1 - (x - (cw - d)), (ch - 2 * d) - 1 - (y - d))
    } else if d <= y < ch - d && 0 <= x < d {
        left.pix(x, y - d)
    } else if ch - d <= y < ch {
        top.pix(cw - 1 - x, d - 1 - (y - (ch - d)))
    } else if 0 <= y < d {
        top.pix(x, y)
    } else {
        shadow_pix(cw, ch, m, x, y)
    }
}

/// The relation `generate_shadowed` establishes: `out` is the canvas for
/// `original` with effective margins `(m, bm)`, the blurred strips `top` and
/// `left` pasted on its four edges and the original stamped in the centre.
pub open spec fn is_composite(
    out: Bitmap,
    original: Bitmap,
    m: int,
    bm: int,
    top: Bitmap,
    left: Bitmap,
) -> bool {
    let cw = canvas_dim(original.width as int, m);
    let ch = canvas_dim(original.height as int, m);
    &&& out.wf()
    &&& out.width == cw
    &&& out.height == ch
    &&& forall|x: int, y: int|
        0 <= x < cw && 0 <= y < ch ==> out.pix(x, y) == composed_pix(original, m, bm, top, left, x, y)
}

/// Crop the two blur-source strips from a freshly built shadow canvas. The
/// top strip spans the full canvas width, `margin + blur_margin` rows deep,
/// corners included; the left strip covers the rest of the left edge below
/// it, so no pixel is blurred twice. Fails with a `Configuration` error when
/// the canvas does not fit, and with a `Processing` error when the strips
/// cannot fit side by side on a very narrow canvas.
pub fn strips(orig_width: u32, orig_height: u32, config: &Config) -> (r: ShadowResult<
    (Bitmap, Bitmap),
>)
    requires
        orig_width >= 1,
        orig_height >= 1,
    ensures
        match r {
            Ok(pair) => {
                let m = config.margin as int;
                let bm = effective_blur_margin(*config, orig_width as int, orig_height as int);
                let cw = canvas_dim(orig_width as int, m);
                let ch = canvas_dim(orig_height as int, m);
                &&& canvas_fits(orig_width as int, orig_height as int, m)
                &&& m + bm <= cw
                &&& pair.0.wf()
                &&& pair.0.width == cw
                &&& pair.0.height == m + bm
                &&& forall|i: int, j: int|
                    0 <= i < cw && 0 <= j < m + bm ==> pair.0.pix(i, j) == shadow_pix(
                        cw,
                        ch,
                        m,
                        i,
                        j,
                    )
                &&& pair.1.wf()
                &&& pair.1.width == m + bm
                &&& pair.1.height == ch - 2 * m - 2 * bm
                &&& forall|i: int, j: int|
                    0 <= i < m + bm && 0 <= j < ch - 2 * m - 2 * bm ==> pair.1.pix(i, j)
                        == shadow_pix(cw, ch, m, i, j + m + bm)
            },
            Err(e) => {
                let m = config.margin as int;
                let bm = effective_blur_margin(*config, orig_width as int, orig_height as int);
                let cw = canvas_dim(orig_width as int, m);
                let ch = canvas_dim(orig_height as int, m);
                &&& !(canvas_fits(orig_width as int, orig_height as int, m) && m + bm <= cw)
                &&& (e is Configuration <==> !canvas_fits(
                    orig_width as int,
                    orig_height as int,
                    m,
                ))
                &&& (e is Processing <==> canvas_fits(orig_width as int, orig_height as int, m)
                    && m + bm > cw)
            },
        },
{
    let cfg = match config.validate(orig_width, orig_height) {
        Ok(c) => c,
        Err(e) => {
            return Err(e);
        },
    };
    let canvas = match build(orig_width, orig_height, cfg.margin) {
        Ok(c) => c,
        Err(e) => {
            return Err(e);
        },
    };
    let m = cfg.margin;
    let bm = cfg.blur_margin;
    let cw = canvas.width;
    let ch = canvas.height;
    proof {
        lemma_clamp_fits_height(
            m as int,
            config.blur_margin as int,
            cw as int,
            ch as int,
        );
    }
    if (m as u64) + (bm as u64) > cw as u64 {
        return Err(
            ShadowError::Processing("the blur strips do not fit on the canvas".to_string()),
        );
    }
    let d = m + bm;
    let top = match canvas.crop(0, 0, cw, d) {
        Some(b) => b,
        None => {
            return Err(
                ShadowError::Processing("the top strip reaches outside the canvas".to_string()),
            );
        },
    };
    let left = match canvas.crop(0, d, d, ch - 2 * m - 2 * bm) {
        Some(b) => b,
        None => {
            return Err(
                ShadowError::Processing("the left strip reaches outside the canvas".to_string()),
            );
        },
    };
    Ok((top, left))
}

/// Assemble the finished canvas: build the shadow canvas for `original`,
/// paste `blurred_top` back over the top edge and, rotated by 180 degrees,
/// over the bottom edge; paste `blurred_left` over the left edge and its
/// rotation over the right edge; then stamp `original`, fully opaque, into
/// the centre at the margin offset. The output is exactly `2 * margin`
/// pixels wider and taller than the original. The input bitmaps are never
/// mutated. Fails with a `Configuration` error when the canvas does not
/// fit, and with a `Processing` error when the strips cannot fit on the
/// canvas or the blurred strips do not have the strip dimensions.
pub fn generate_shadowed(
    original: &Bitmap,
    config: &Config,
    blurred_top: &Bitmap,
    blurred_left: &Bitmap,
) -> (r: ShadowResult<Bitmap>)
    requires
        original.wf(),
        blurred_top.wf(),
        blurred_left.wf(),
        original.width >= 1,
        original.height >= 1,
    ensures
        match r {
            Ok(out) => {
                let m = config.margin as int;
                let bm = effective_blur_margin(
                    *config,
                    original.width as int,
                    original.height as int,
                );
                &&& compositor_accepts(*original, *config, *blurred_top, *blurred_left)
                &&& is_composite(out, *original, m, bm, *blurred_top, *blurred_left)
            },
            Err(e) => {
                let m = config.margin as int;
                &&& !compositor_accepts(*original, *config, *blurred_top, *blurred_left)
                &&& (e is Configuration <==> !canvas_fits(
                    original.width as int,
                    original.height as int,
                    m,
                ))
                &&& (e is Processing <==> canvas_fits(
                    original.width as int,
                    original.height as int,
                    m,
                ))
            },
        },
{
    let cfg = match config.validate(original.width, original.height) {
        Ok(c) => c,
        Err(e) => {
            return Err(e);
        },
    };
    let mut canvas = match build(original.width, original.height, cfg.margin) {
        Ok(c) => c,
        Err(e) => {
            return Err(e);
        },
    };
    let m = cfg.margin;
    let bm = cfg.blur_margin;
    let cw = canvas.width;
    let ch = canvas.height;
    proof {
        lemma_clamp_fits_height(m as int, config.blur_margin as int, cw as int, ch as int);
    }
    if (m as u64) + (bm as u64) > cw as u64 {
        return Err(
            ShadowError::Processing("the blur strips do not fit on the canvas".to_string()),
        );
    }
    let d = m + bm;
    let lh = ch - 2 * m - 2 * bm;
    if !(blurred_top.width == cw && blurred_top.height == d && blurred_left.width == d
        && blurred_left.height == lh) {
        return Err(
            ShadowError::Processing(
                "a blurred strip does not have the strip dimensions".to_string(),
            ),
        );
    }
    let ghost c0 = canvas;
    if !canvas.copy_from(blurred_top, 0, 0) {
        return Err(ShadowError::Processing("failed to apply an unrotated edge".to_string()));
    }
    let ghost c1 = canvas;
    let top_rot = blurred_top.rotate180();
    if !canvas.copy_from(&top_rot, 0, ch - d) {
        return Err(ShadowError::Processing("failed to apply a rotated edge".to_string()));
    }
    let ghost c2 = canvas;
    if !canvas.copy_from(blurred_left, 0, d) {
        return Err(ShadowError::Processing("failed to apply an unrotated edge".to_string()));
    }
    let ghost c3 = canvas;
    let left_rot = blurred_left.rotate180();
    if !canvas.copy_from(&left_rot, cw - d, d) {
        return Err(ShadowError::Processing("failed to apply a rotated edge".to_string()));
    }
    let ghost c4 = canvas;
    if !canvas.copy_from(original, m, m) {
        return Err(ShadowError::Processing("failed to paste the original image".to_string()));
    }
    proof {
        assert forall|x: int, y: int| 0 <= x < cw && 0 <= y < ch implies canvas.pix(x, y)
            == composed_pix(
            *original,
            m as int,
            bm as int,
            *blurred_top,
            *blurred_left,
            x,
            y,
        ) by {
            // Walk the pixel through the five pastes: naming each
            // intermediate canvas pixel brings the paste contracts into
            // scope for this (x, y).
            let p0 = c0.pix(x, y);
            let p1 = c1.pix(x, y);
            let p2 = c2.pix(x, y);
            let p3 = c3.pix(x, y);
            let p4 = c4.pix(x, y);
            let pf = canvas.pix(x, y);
        }
    }
    Ok(canvas)
}

/// Centre preservation: on a composited canvas, the pixel block at offset
/// `(m, m)` equals the original bitmap pixel for pixel — no shadow or blur
/// shows through the fully opaque original layer.
pub proof fn lemma_center_preserved(
    out: Bitmap,
    original: Bitmap,
    m: int,
    bm: int,
    top: Bitmap,
    left: Bitmap,
    i: int,
    j: int,
)
    requires
        is_composite(out, original, m, bm, top, left),
        0 <= m,
        0 <= i < original.width,
        0 <= j < original.height,
    ensures
        out.pix(m + i, m + j) == original.pix(i, j),
{
}

/// Corner transparency before any blur: for a margin of at least one pixel,
/// all four outermost corners of the freshly built shadow canvas are fully
/// transparent.
pub proof fn lemma_shadow_corners_transparent(cw: int, ch: int, m: int)
    requires
        1 <= cw,
        1 <= ch,
        1 <= m,
    ensures
        shadow_pix(cw, ch, m, 0, 0).a == 0,
        shadow_pix(cw, ch, m, cw - 1, 0).a == 0,
        shadow_pix(cw, ch, m, 0, ch - 1).a == 0,
        shadow_pix(cw, ch, m, cw - 1, ch - 1).a == 0,
{
}

/// Corner symmetry: the top-left corner block of a composited canvas,
/// reflected by 180 degrees, is pixel-identical to its bottom-right corner
/// block. The bottom edge carries the rotation of the very strip that was
/// pasted on the top edge, so the equality is exact, not approximate.
pub proof fn lemma_corner_symmetry(
    out: Bitmap,
    original: Bitmap,
    m: int,
    bm: int,
    top: Bitmap,
    left: Bitmap,
    i: int,
    j: int,
)
    requires
        is_composite(out, original, m, bm, top, left),
        0 <= bm,
        2 * bm <= original.height,
        1 <= original.width,
        0 <= i < m,
        0 <= j < m,
    ensures
        out.pix(i, j) == out.pix(out.width - 1 - i, out.height - 1 - j),
{
    let cw = canvas_dim(original.width as int, m);
    let ch = canvas_dim(original.height as int, m);
    assert(out.pix(i, j) == composed_pix(original, m, bm, top, left, i, j));
    assert(out.pix(cw - 1 - i, ch - 1 - j) == composed_pix(
        original,
        m,
        bm,
        top,
        left,
        cw - 1 - i,
        ch - 1 - j,
    ));
}

} // verus!
