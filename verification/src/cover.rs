//! Cover art: decoding the embedded picture, scaling it down to fit and
//! rounding its corners.
use vstd::prelude::*;

verus! {

/// A picture as rows of RGBA pixels, four bytes each, top row first.
pub struct CoverImage {
    pub width: u32,
    pub height: u32,
    pub rgba: Vec<u8>,
}

impl CoverImage {
    /// The buffer holds exactly `width * height` pixels.
    pub open spec fn wf(self) -> bool {
        self.rgba@.len() == 4 * self.width * self.height
    }
}

/// The image that `image::load_from_memory` decodes from these bytes,
/// converted to 8-bit RGBA: width, height and pixel bytes.
pub uninterp spec fn decoded_rgba(data: Seq<u8>) -> Option<(u32, u32, Seq<u8>)>;

/// The pixel bytes of the picture that `image::load_from_memory` decodes
/// from these bytes, scaled by `DynamicImage::resize_exact` with the
/// Lanczos3 filter to `nw` by `nh` in its own pixel format, then converted
/// to 8-bit RGBA.
pub uninterp spec fn lanczos_resized(data: Seq<u8>, nw: u32, nh: u32) -> Seq<u8>;

/// `image::load_from_memory` followed by `DynamicImage::to_rgba8`: the
/// format is guessed from the bytes.  The decoded pixels are not restated;
/// they are named `decoded_rgba` of the bytes, and hold four bytes per pixel.
#[verifier::external_body]
fn decode_rgba(data: &[u8]) -> (r: Option<CoverImage>)
    ensures
        match r {
            Some(c) => decoded_rgba(data@) == Some((c.width, c.height, c.rgba@)) && c.wf(),
            None => decoded_rgba(data@) is None,
        },
{
    match image::load_from_memory(data) {
        Ok(img) => {
            let rgba = img.to_rgba8();
            let (width, height) = rgba.dimensions();
            Some(CoverImage { width, height, rgba: rgba.into_raw() })
        },
        Err(_) => None,
    }
}

/// `image::load_from_memory`, then `DynamicImage::resize_exact` to `nw` by
/// `nh` with `FilterType::Lanczos3`, then `DynamicImage::to_rgba8`: the
/// picture is scaled in the pixel format it was decoded in and converted
/// afterwards.  The result is `nw` by `nh`; its pixels are named
/// `lanczos_resized`.  The same bytes decode the same way each time, so
/// this fails only where `decode_rgba` fails.
#[verifier::external_body]
fn decode_resized_rgba(data: &[u8], nw: u32, nh: u32) -> (r: Option<CoverImage>)
    ensures
        match r {
            Some(c) => c.width == nw && c.height == nh && c.rgba@ == lanczos_resized(data@, nw, nh)
                && c.wf(),
            None => decoded_rgba(data@) is None,
        },
{
    match image::load_from_memory(data) {
        Ok(img) => {
            let rgba = img.resize_exact(nw, nh, image::imageops::FilterType::Lanczos3).to_rgba8();
            let (width, height) = rgba.dimensions();
            Some(CoverImage { width, height, rgba: rgba.into_raw() })
        },
        Err(_) => None,
    }
}

/// The nearest whole number to `a * 300 / b`, halves rounded up.
pub open spec fn scaled_to_300(a: int, b: int) -> int {
    (600 * a + b) / (2 * b)
}

/// The size a cover is shown at: pictures wider or higher than 300 pixels
/// are scaled so that their longer side is 300, keeping the proportions
/// (rounded to the nearest pixel); smaller ones keep their size.
pub open spec fn cover_size(w: u32, h: u32) -> (u32, u32) {
    if w > 300 || h > 300 {
        if w > h {
            (300, scaled_to_300(h as int, w as int) as u32)
        } else {
            (scaled_to_300(w as int, h as int) as u32, 300)
        }
    } else {
        (w, h)
    }
}

/// The size a cover of `w` by `h` pixels is shown at.
pub fn cover_target_size(w: u32, h: u32) -> (r: (u32, u32))
    ensures
        r == cover_size(w, h),
{
    if w > 300 || h > 300 {
        if w > h {
            let v: u64 = (600 * (h as u64) + w as u64) / (2 * (w as u64));
            assert(v <= 300) by (nonlinear_arith)
                requires
                    v == (600 * (h as u64) + w as u64) / (2 * (w as u64)),
                    h < w,
            ;
            (300, v as u32)
        } else {
            let v: u64 = (600 * (w as u64) + h as u64) / (2 * (h as u64));
            assert(v <= 300) by (nonlinear_arith)
                requires
                    v == (600 * (w as u64) + h as u64) / (2 * (h as u64)),
                    w <= h,
                    h > 0,
            ;
            (v as u32, 300)
        }
    } else {
        (w, h)
    }
}

proof fn lemma_scaled_bound(a: int, b: int)
    requires
        0 <= a <= b,
        b > 0,
    ensures
        0 <= scaled_to_300(a, b) <= 300,
{
    assert(0 <= (600 * a + b) / (2 * b) <= 300) by (nonlinear_arith)
        requires
            0 <= a <= b,
            b > 0,
    ;
}

/// The corner radius for a picture: `radius_pct` percent of its shorter
/// side, rounded to the nearest pixel, and at least one pixel.
pub open spec fn corner_radius(w: u32, h: u32, radius_pct: u32) -> int {
    let m = if w < h { w as int } else { h as int };
    let r = (2 * m * radius_pct + 100) / 200;
    if r < 1 { 1 } else { r }
}

/// Whether pixel (`x`, `y`) lies in a corner square of side `r` and outside
/// the quarter circle of radius `r` drawn in it.
pub open spec fn outside_corner(w: int, h: int, r: int, x: int, y: int) -> bool {
    let left = x < r;
    let right = x >= w - r;
    let top = y < r;
    let bottom = y >= h - r;
    let dx = if left { r - 1 - x } else { x - (w - r) };
    let dy = if top { r - 1 - y } else { y - (h - r) };
    (left || right) && (top || bottom) && dx * dx + dy * dy > r * r
}

/// The picture with its corners made transparent: the alpha byte of every
/// pixel outside the rounded corners is 0, all other bytes stay.
pub open spec fn rounded(w: u32, h: u32, radius_pct: u32, px: Seq<u8>) -> Seq<u8> {
    let r = corner_radius(w, h, radius_pct);
    Seq::new(
        px.len(),
        |i: int|
            if i % 4 == 3 && outside_corner(w as int, h as int, r, (i / 4) % (w as int), (i / 4) / (w as int)) {
                0u8
            } else {
                px[i]
            },
    )
}

proof fn lemma_pixel_bound(p: int, w: int, h: int)
    requires
        0 <= p < w * h,
        w > 0,
        h > 0,
    ensures
        0 <= p % w < w,
        0 <= p / w < h,
        4 * p + 3 < 4 * w * h,
{
    assert(0 <= p / w < h) by (nonlinear_arith)
        requires
            0 <= p < w * h,
            w > 0,
    ;
    assert(4 * p + 3 < 4 * w * h) by (nonlinear_arith)
        requires
            0 <= p < w * h,
    ;
}

/// Makes the corners of a picture transparent with a radius of
/// `radius_pct` percent of the shorter side.
pub fn round_corners(img: &mut CoverImage, radius_pct: u32)
    requires
        old(img).wf(),
        radius_pct <= 100,
        2 * corner_radius(old(img).width, old(img).height, radius_pct) * corner_radius(
            old(img).width,
            old(img).height,
            radius_pct,
        ) <= u32::MAX,
    ensures
        final(img).width == old(img).width,
        final(img).height == old(img).height,
        final(img).rgba@ == rounded(old(img).width, old(img).height, radius_pct, old(img).rgba@),
{
    let w = img.width;
    let h = img.height;
    let m: u64 = if w < h { w as u64 } else { h as u64 };
    assert(2 * m * (radius_pct as u64) <= 2 * 4294967295u64 * 100) by (nonlinear_arith)
        requires
            m <= 4294967295,
            radius_pct <= 100,
    ;
    let r0: u64 = (2 * m * (radius_pct as u64) + 100) / 200;
    let r: u64 = if r0 < 1 { 1 } else { r0 };
    let ghost orig = img.rgba@;
    let ghost rr = corner_radius(w, h, radius_pct);
    assert(r == rr);
    if w == 0 || h == 0 {
        assert(img.rgba@ =~= rounded(w, h, radius_pct, orig)) by {
            assert(orig.len() == 0) by (nonlinear_arith)
                requires
                    orig.len() == 4 * w * h,
                    w == 0 || h == 0,
            ;
        }
        return;
    }
    assert(r <= m) by (nonlinear_arith)
        requires
            r0 == (2 * m * (radius_pct as u64) + 100) / 200,
            r == if r0 < 1 { 1 } else { r0 },
            radius_pct <= 100,
            m >= 1,
    ;
    assert(r * r <= u32::MAX && 2 * r * r <= u32::MAX) by (nonlinear_arith)
        requires
            2 * rr * rr <= u32::MAX,
            r == rr,
    ;
    let r_sq: u64 = r * r;
    let n: usize = img.rgba.len();
    let total: usize = n / 4;
    assert(total == w * h) by (nonlinear_arith)
        requires
            n == 4 * w * h,
            total == n / 4,
    ;
    let mut p: usize = 0;
    while p < total
        invariant
            w == img.width,
            h == img.height,
            w > 0,
            h > 0,
            total == w * h,
            img.rgba@.len() == orig.len(),
            orig.len() == 4 * w * h,
            orig.len() == n,
            p <= total,
            r as int == rr,
            1 <= r <= m,
            m == (if w < h { w as u64 } else { h as u64 }),
            r_sq == r * r,
            2 * r * r <= u32::MAX,
            rr == corner_radius(w, h, radius_pct),
            forall|i: int|
                0 <= i < orig.len() ==> #[trigger] img.rgba@[i] == (if i / 4 < p && i % 4 == 3
                    && outside_corner(w as int, h as int, rr, (i / 4) % (w as int), (i / 4) / (w as int)) {
                    0u8
                } else {
                    orig[i]
                }),
        decreases total - p,
    {
        proof {
            lemma_pixel_bound(p as int, w as int, h as int);
        }
        let x: u64 = (p as u64) % (w as u64);
        let y: u64 = (p as u64) / (w as u64);
        let wr: u64 = (w as u64) - r;
        let hr: u64 = (h as u64) - r;
        let left = x < r;
        let right = x >= wr;
        let top = y < r;
        let bottom = y >= hr;
        if (left || right) && (top || bottom) {
            let dx: u64 = if left { r - 1 - x } else { x - wr };
            let dy: u64 = if top { r - 1 - y } else { y - hr };
            assert(dx < r && dy < r);
            assert(dx * dx <= r * r && dy * dy <= r * r) by (nonlinear_arith)
                requires
                    dx < r,
                    dy < r,
            ;
            assert(dx * dx + dy * dy <= u32::MAX) by (nonlinear_arith)
                requires
                    dx * dx <= r * r,
                    dy * dy <= r * r,
                    2 * r * r <= u32::MAX,
            ;
            if dx * dx + dy * dy > r_sq {
                img.rgba.set(4 * p + 3, 0);
            }
        }
        proof {
            assert forall|i: int| 0 <= i < orig.len() implies #[trigger] img.rgba@[i] == (if i / 4 < p + 1
                && i % 4 == 3 && outside_corner(w as int, h as int, rr, (i / 4) % (w as int), (i / 4) / (w as int)) {
                0u8
            } else {
                orig[i]
            }) by {
                if i / 4 == p as int && i % 4 == 3 {
                    assert(i == 4 * p + 3);
                }
            }
        }
        p = p + 1;
    }
    assert(img.rgba@ =~= rounded(w, h, radius_pct, orig));
}

/// The cover as it is shown, from the bytes of an embedded picture.
pub open spec fn prepared_cover(data: Seq<u8>) -> Option<(u32, u32, Seq<u8>)> {
    match decoded_rgba(data) {
        None => None,
        Some((w, h, px)) => {
            let (nw, nh) = cover_size(w, h);
            let px2 = if w > 300 || h > 300 {
                lanczos_resized(data, nw, nh)
            } else {
                px
            };
            Some((nw, nh, rounded(nw, nh, 8, px2)))
        },
    }
}

/// Decodes an embedded picture, scales it to at most 300 pixels a side and
/// rounds its corners by 8% of the shorter side; `None` when the bytes are
/// not a picture the decoder knows.
pub fn prepare_cover(data: &[u8]) -> (r: Option<CoverImage>)
    ensures
        match r {
            Some(c) => prepared_cover(data@) == Some((c.width, c.height, c.rgba@)),
            None => prepared_cover(data@) is None,
        },
{
    match decode_rgba(data) {
        None => None,
        Some(img) => {
            let (w, h) = (img.width, img.height);
            let (nw, nh) = cover_target_size(w, h);
            let mut shown = if img.width > 300 || img.height > 300 {
                match decode_resized_rgba(data, nw, nh) {
                    Some(c) => c,
                    None => return None,
                }
            } else {
                img
            };
            proof {
                if w > 300 || h > 300 {
                    if w > h {
                        lemma_scaled_bound(h as int, w as int);
                    } else {
                        lemma_scaled_bound(w as int, h as int);
                    }
                }
            }
            assert(nw <= 300 && nh <= 300);
            assert(corner_radius(nw, nh, 8) <= 300) by {
                let m = if nw < nh { nw as int } else { nh as int };
                assert((2 * m * 8 + 100) / 200 <= 300) by (nonlinear_arith)
                    requires
                        0 <= m <= 300,
                ;
            }
            assert(2 * corner_radius(nw, nh, 8) * corner_radius(nw, nh, 8) <= u32::MAX) by (nonlinear_arith)
                requires
                    corner_radius(nw, nh, 8) <= 300,
                    corner_radius(nw, nh, 8) >= 1,
            ;
            round_corners(&mut shown, 8);
            Some(shown)
        },
    }
}

} // verus!
