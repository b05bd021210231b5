//! Changing the size of an image.

use crate::capture::{CaptureResult, Picture};
use crate::error::Error;
use crate::pixels::{
    comes_before, is_image, lemma_pixel_order, lemma_pixel_within, pixel_at, pixel_offset,
};
use crate::text::{append_unsigned, decimal_digits};
use vstd::prelude::*;
use vstd::string::StringExecFns;

verus! {

/// The filter by which an image is sampled anew.
#[derive(Debug, Clone, Copy, PartialEq, Eq, Structural)]
pub enum ResizeFilter {
    Nearest,
    Triangle,
    CatmullRom,
    Lanczos3,
}

/// How an image is to be scaled.
#[derive(Debug, Clone, Copy, PartialEq, Eq, Structural)]
pub enum ScalePlan {
    /// Not at all: the image stays as it is.
    Keep,
    /// By a whole factor, every pixel becoming a square block of itself.
    Enlarge(u32),
    /// To the given size, sampled anew through the given filter.
    Resample { width: u32, height: u32, filter: ResizeFilter },
}

/// The bytes that `image::imageops::resize` makes of an RGBA image: `data`
/// read as `width` by `height` pixels, sampled anew to `new_width` by
/// `new_height` through `filter`.
pub uninterp spec fn resampled(
    data: Seq<u8>,
    width: u32,
    height: u32,
    new_width: u32,
    new_height: u32,
    filter: ResizeFilter,
) -> Seq<u8>;

/// Whether `out` is `src` enlarged by `factor`: `factor` times as wide and as
/// high, every pixel that of `src` at its coordinates divided by `factor`.
pub open spec fn is_enlarged(src: Picture, factor: int, out: Picture) -> bool {
    &&& out.width == src.width * factor
    &&& out.height == src.height * factor
    &&& out.complete()
    &&& forall|nx: int, ny: int|
        0 <= nx < out.width && 0 <= ny < out.height ==> #[trigger] pixel_at(
            out.data,
            out.width,
            nx,
            ny,
        ) == pixel_at(src.data, src.width, nx / factor, ny / factor)
}

/// The message of a failure to scale from one size to another.
pub open spec fn scaling_failure_text(
    width: u32,
    height: u32,
    new_width: int,
    new_height: int,
) -> Seq<char> {
    "failed to create image buffer for scaling "@ + decimal_digits(width as nat) + "x"@
        + decimal_digits(height as nat) + " -> "@ + decimal_digits(new_width as nat) + "x"@
        + decimal_digits(new_height as nat)
}

fn scaling_failure(width: u32, height: u32, new_width: u64, new_height: u64) -> (r: Error)
    ensures
        r matches Error::ScalingFailed(t) && t@ == scaling_failure_text(
            width,
            height,
            new_width as int,
            new_height as int,
        ),
{
    let mut t = String::from_str("failed to create image buffer for scaling ");
    append_unsigned(&mut t, width as u64);
    t.append("x");
    append_unsigned(&mut t, height as u64);
    t.append(" -> ");
    append_unsigned(&mut t, new_width);
    t.append("x");
    append_unsigned(&mut t, new_height);
    Error::ScalingFailed(t)
}

/// The longest side, in pixels, of an image that is sampled anew or that
/// comes of it. The sampler of `image::imageops::resize` places every pixel by
/// arithmetic in `f32`; up to this length the rounding of a place stays below
/// an eighth of a pixel.
pub const MAX_RESAMPLE_SIDE: u32 = 1048575;

/// Whether `image::imageops::resize` is asked to bring an image of `width` by
/// `height` to `new_width` by `new_height`: no side is longer than
/// `MAX_RESAMPLE_SIDE`, and the two buffers that the sampler allocates, of
/// sixteen bytes for each pixel at most, are no larger than a buffer can be.
pub open spec fn can_resample(width: u32, height: u32, new_width: u32, new_height: u32) -> bool {
    &&& width <= MAX_RESAMPLE_SIDE
    &&& height <= MAX_RESAMPLE_SIDE
    &&& new_width <= MAX_RESAMPLE_SIDE
    &&& new_height <= MAX_RESAMPLE_SIDE
    &&& 16 * width * new_height <= isize::MAX
    &&& 16 * new_width * new_height <= isize::MAX
}

/// Samples the image anew with `image::imageops::resize`, after
/// `image::ImageBuffer::from_raw` has taken the bytes as an RGBA image of
/// `width` by `height`. `from_raw` refuses bytes that are too few for that
/// size, and then nothing is returned. Else the result is what `resize` makes of
/// the image, four bytes for each pixel of the new size. The sizes asked for
/// are those of `can_resample`: beyond them `resize` cannot allocate its
/// buffers, or its `f32` arithmetic can leave a pixel of the result without a
/// source pixel, which it does not survive.
#[verifier::external_body]
fn resize_rgba(
    data: Vec<u8>,
    width: u32,
    height: u32,
    new_width: u32,
    new_height: u32,
    filter: ResizeFilter,
) -> (r: Option<Vec<u8>>)
    requires
        can_resample(width, height, new_width, new_height),
    ensures
        r is Some <==> data@.len() >= width * height * 4,
        r matches Some(out) ==> out@ == resampled(
            data@,
            width,
            height,
            new_width,
            new_height,
            filter,
        ) && out@.len() == new_width * new_height * 4,
{
    let img = image::ImageBuffer::<image::Rgba<u8>, Vec<u8>>::from_raw(width, height, data)?;
    let filter = match filter {
        ResizeFilter::Nearest => image::imageops::FilterType::Nearest,
        ResizeFilter::Triangle => image::imageops::FilterType::Triangle,
        ResizeFilter::CatmullRom => image::imageops::FilterType::CatmullRom,
        ResizeFilter::Lanczos3 => image::imageops::FilterType::Lanczos3,
    };
    Some(image::imageops::resize(&img, new_width, new_height, filter).into_raw())
}

/// A coordinate of the enlarged image, divided by the factor, is a coordinate
/// of the image.
proof fn lemma_block_source(n: int, factor: int, size: int)
    by (nonlinear_arith)
    requires
        0 < factor,
        0 <= n < size * factor,
    ensures
        0 <= n / factor < size,
{
}

/// The pixel `(dx, dy)` of the block of `(x, y)` has `(x, y)` as its
/// coordinates divided by the factor.
proof fn lemma_block_member(x: int, d: int, factor: int)
    by (nonlinear_arith)
    requires
        0 <= x,
        0 <= d < factor,
    ensures
        (x * factor + d) / factor == x,
{
}

/// Enlarges the image by a whole factor without sampling: every pixel becomes
/// a block of `factor` by `factor` pixels like it. It fails where the enlarged
/// image would be wider or higher than a `u32` counts, or larger than memory.
pub fn scale_image_integer_fast(
    capture: CaptureResult,
    factor: u32,
) -> (r: Result<CaptureResult, Error>)
    requires
        capture@.complete(),
    ensures
        match r {
            Ok(out) => is_enlarged(capture@, factor as int, out@),
            Err(e) => {
                &&& capture@.width * factor > u32::MAX || capture@.height * factor > u32::MAX
                    || capture@.width * factor * (capture@.height * factor) * 4 > usize::MAX
                &&& e matches Error::ScalingFailed(t) && t@ == scaling_failure_text(
                    capture@.width as u32,
                    capture@.height as u32,
                    capture@.width * factor,
                    capture@.height * factor,
                )
            },
        },
{
    let width: u32 = capture.width();
    let height: u32 = capture.height();
    assert(width as int * factor as int <= 0xffff_ffff * 0xffff_ffff) by (nonlinear_arith)
        requires
            0 <= width as int <= 0xffff_ffff,
            0 <= factor as int <= 0xffff_ffff,
    ;
    assert(height as int * factor as int <= 0xffff_ffff * 0xffff_ffff) by (nonlinear_arith)
        requires
            0 <= height as int <= 0xffff_ffff,
            0 <= factor as int <= 0xffff_ffff,
    ;
    let wide: u64 = width as u64 * factor as u64;
    let high: u64 = height as u64 * factor as u64;
    if wide > u32::MAX as u64 || high > u32::MAX as u64 {
        return Err(scaling_failure(width, height, wide, high));
    }
    assert(wide as int * high as int <= 0xffff_ffff * 0xffff_ffff) by (nonlinear_arith)
        requires
            0 <= wide as int <= 0xffff_ffff,
            0 <= high as int <= 0xffff_ffff,
    ;
    let bytes: u128 = wide as u128 * high as u128 * 4;
    if bytes > usize::MAX as u128 {
        return Err(scaling_failure(width, height, wide, high));
    }
    let nw: usize = wide as usize;
    let nh: usize = high as usize;
    let w: usize = width as usize;
    let h: usize = height as usize;
    let f: usize = factor as usize;
    let src = capture.data();
    let len: usize = src.len();
    let mut out: Vec<u8> = Vec::new();
    let mut ny: usize = 0;
    while ny < nh
        invariant
            is_image(src@, w as int, h as int),
            src@.len() == len,
            nw == w * f,
            nh == h * f,
            ny <= nh,
            out@.len() == pixel_offset(nw as int, 0, ny as int),
            forall|px: int, py: int|
                0 <= px < nw && 0 <= py < ny ==> #[trigger] pixel_at(out@, nw as int, px, py)
                    == pixel_at(src@, w as int, px / (f as int), py / (f as int)),
        decreases nh - ny,
    {
        let mut nx: usize = 0;
        while nx < nw
            invariant
                is_image(src@, w as int, h as int),
                src@.len() == len,
                nw == w * f,
                nh == h * f,
                ny < nh,
                nx <= nw,
                out@.len() == pixel_offset(nw as int, nx as int, ny as int),
                forall|px: int, py: int|
                    0 <= px < nw && 0 <= py && comes_before(px, py, nx as int, ny as int)
                        ==> #[trigger] pixel_at(out@, nw as int, px, py) == pixel_at(
                        src@,
                        w as int,
                        px / (f as int),
                        py / (f as int),
                    ),
            decreases nw - nx,
        {
            assert(f > 0) by (nonlinear_arith)
                requires
                    nx < nw,
                    nw == w * f,
                    0 <= w,
                    0 <= f,
            ;
            let sx: usize = nx / f;
            let sy: usize = ny / f;
            proof {
                lemma_block_source(nx as int, f as int, w as int);
                lemma_block_source(ny as int, f as int, h as int);
                lemma_pixel_within(w as int, h as int, sx as int, sy as int);
            }
            let si: usize = (sy * w + sx) * 4;
            let ghost before = out@;
            out.push(src[si]);
            out.push(src[si + 1]);
            out.push(src[si + 2]);
            out.push(src[si + 3]);
            proof {
                assert(out@ =~= before + src@.subrange(si as int, si + 4));
                assert(pixel_at(out@, nw as int, nx as int, ny as int) =~= pixel_at(
                    src@,
                    w as int,
                    sx as int,
                    sy as int,
                ));
                assert forall|px: int, py: int|
                    0 <= px < nw && 0 <= py && comes_before(
                        px,
                        py,
                        nx + 1,
                        ny as int,
                    ) implies #[trigger] pixel_at(out@, nw as int, px, py) == pixel_at(
                    src@,
                    w as int,
                    px / (f as int),
                    py / (f as int),
                ) by {
                    if comes_before(px, py, nx as int, ny as int) {
                        lemma_pixel_order(nw as int, px, py, nx as int, ny as int);
                        assert(pixel_at(out@, nw as int, px, py) =~= pixel_at(
                            before,
                            nw as int,
                            px,
                            py,
                        ));
                    }
                }
                assert(pixel_offset(nw as int, nx + 1, ny as int) == pixel_offset(
                    nw as int,
                    nx as int,
                    ny as int,
                ) + 4) by (nonlinear_arith);
            }
            nx = nx + 1;
        }
        proof {
            assert(pixel_offset(nw as int, nw as int, ny as int) == pixel_offset(
                nw as int,
                0,
                ny + 1,
            )) by (nonlinear_arith);
            assert forall|px: int, py: int| 0 <= px < nw && 0 <= py < ny + 1 implies comes_before(
                px,
                py,
                nw as int,
                ny as int,
            ) by {}
        }
        ny = ny + 1;
    }
    proof {
        assert(pixel_offset(nw as int, 0, nh as int) == nw * nh * 4) by (nonlinear_arith);
    }
    Ok(CaptureResult::new(out, wide as u32, high as u32))
}

/// What scaling by a plan gives.
pub open spec fn scaled(
    capture: Picture,
    plan: ScalePlan,
    r: Result<CaptureResult, Error>,
) -> bool {
    match plan {
        ScalePlan::Keep => r matches Ok(out) && out@ == capture,
        ScalePlan::Enlarge(factor) => match r {
            Ok(out) => is_enlarged(capture, factor as int, out@),
            Err(e) => {
                &&& capture.width * factor > u32::MAX || capture.height * factor > u32::MAX
                    || capture.width * factor * (capture.height * factor) * 4 > usize::MAX
                &&& e matches Error::ScalingFailed(t) && t@ == scaling_failure_text(
                    capture.width as u32,
                    capture.height as u32,
                    capture.width * factor,
                    capture.height * factor,
                )
            },
        },
        ScalePlan::Resample { width, height, filter } => if width == 0 || height == 0 {
            r matches Err(Error::InvalidRegion(t)) && t@ == "Scaled dimensions must be positive"@
        } else if capture.data.len() < capture.width * capture.height * 4 || !can_resample(
            capture.width as u32,
            capture.height as u32,
            width,
            height,
        ) {
            r matches Err(Error::ScalingFailed(t)) && t@ == scaling_failure_text(
                capture.width as u32,
                capture.height as u32,
                width as int,
                height as int,
            )
        } else {
            r matches Ok(out) && out@ == (Picture {
                data: resampled(
                    capture.data,
                    capture.width as u32,
                    capture.height as u32,
                    width,
                    height,
                    filter,
                ),
                width: width as int,
                height: height as int,
            }) && out@.complete()
        },
    }
}

/// Scales the image as the plan says. Kept as it is, the image is handed back
/// untouched. Enlarged, every pixel becomes a block. Sampled anew, it takes the
/// size of the plan, which must not be zero either way; bytes too few for the
/// image's own size, or a size that the sampler is not asked for, fail the
/// scaling.
pub fn scale_image_data(
    capture: CaptureResult,
    plan: ScalePlan,
) -> (r: Result<CaptureResult, Error>)
    requires
        plan is Enlarge ==> capture@.complete(),
    ensures
        scaled(capture@, plan, r),
{
    match plan {
        ScalePlan::Keep => Ok(capture),
        ScalePlan::Enlarge(factor) => scale_image_integer_fast(capture, factor),
        ScalePlan::Resample { width, height, filter } => {
            if width == 0 || height == 0 {
                return Err(
                    Error::InvalidRegion(String::from_str("Scaled dimensions must be positive")),
                );
            }
            let old_width = capture.width();
            let old_height = capture.height();
            if old_width > MAX_RESAMPLE_SIDE || old_height > MAX_RESAMPLE_SIDE || width
                > MAX_RESAMPLE_SIDE || height > MAX_RESAMPLE_SIDE {
                return Err(scaling_failure(old_width, old_height, width as u64, height as u64));
            }
            assert(16 * (old_width as int * height as int) <= 16 * (1048575 * 1048575))
                by (nonlinear_arith)
                requires
                    0 <= old_width as int <= 1048575,
                    0 <= height as int <= 1048575,
            ;
            assert(16 * (width as int * height as int) <= 16 * (1048575 * 1048575))
                by (nonlinear_arith)
                requires
                    0 <= width as int <= 1048575,
                    0 <= height as int <= 1048575,
            ;
            let limit: u64 = isize::MAX as u64;
            let first: u64 = 16 * (old_width as u64 * height as u64);
            let second: u64 = 16 * (width as u64 * height as u64);
            assert(first == 16 * old_width * height) by (nonlinear_arith)
                requires
                    first == 16 * (old_width as int * height as int),
            ;
            assert(second == 16 * width * height) by (nonlinear_arith)
                requires
                    second == 16 * (width as int * height as int),
            ;
            if first > limit || second > limit {
                return Err(scaling_failure(old_width, old_height, width as u64, height as u64));
            }
            match resize_rgba(capture.into_data(), old_width, old_height, width, height, filter) {
                Some(out) => Ok(CaptureResult::new(out, width, height)),
                None => Err(scaling_failure(old_width, old_height, width as u64, height as u64)),
            }
        },
    }
}

/// The plan that brings a frame of an output of the given scale down to one
/// pixel for each logical pixel: none for scale 1, else a new sampling to the
/// size divided by the scale, through a cubic filter where the size is halved
/// and through a wide one where it shrinks further.
pub open spec fn downscale_plan_of(width: u32, height: u32, scale: i32) -> ScalePlan {
    if scale == 1 {
        ScalePlan::Keep
    } else {
        ScalePlan::Resample {
            width: (width as int / scale as int) as u32,
            height: (height as int / scale as int) as u32,
            filter: if scale == 2 {
                ResizeFilter::CatmullRom
            } else {
                ResizeFilter::Lanczos3
            },
        }
    }
}

/// The plan that brings a frame of `width` by `height` of an output of the given
/// scale down to one pixel for each logical pixel.
pub fn downscale_plan(width: u32, height: u32, scale: i32) -> (r: ScalePlan)
    requires
        scale >= 1,
    ensures
        r == downscale_plan_of(width, height, scale),
{
    if scale == 1 {
        ScalePlan::Keep
    } else {
        let s: u32 = scale as u32;
        ScalePlan::Resample {
            width: width / s,
            height: height / s,
            filter: if scale == 2 {
                ResizeFilter::CatmullRom
            } else {
                ResizeFilter::Lanczos3
            },
        }
    }
}

/// Enlarging by a whole factor gives the square of the factor times as many
/// pixels, and every pixel of the block that stands for a pixel of the image is
/// that pixel.
pub proof fn law_enlarged_blocks(
    src: Picture,
    factor: int,
    out: Picture,
    x: int,
    y: int,
    dx: int,
    dy: int,
)
    requires
        src.complete(),
        is_enlarged(src, factor, out),
        0 <= x < src.width,
        0 <= y < src.height,
        0 <= dx < factor,
        0 <= dy < factor,
    ensures
        out.width * out.height == factor * factor * (src.width * src.height),
        out.data.len() == factor * factor * src.data.len(),
        pixel_at(out.data, out.width, x * factor + dx, y * factor + dy) == pixel_at(
            src.data,
            src.width,
            x,
            y,
        ),
{
    let w = src.width;
    let h = src.height;
    assert((w * factor) * (h * factor) == factor * factor * (w * h)) by (nonlinear_arith);
    assert((w * factor) * (h * factor) * 4 == factor * factor * (w * h * 4)) by (nonlinear_arith);
    lemma_block_member(x, dx, factor);
    lemma_block_member(y, dy, factor);
    assert(0 <= x * factor + dx < w * factor) by (nonlinear_arith)
        requires
            0 <= x < w,
            0 <= dx < factor,
    ;
    assert(0 <= y * factor + dy < h * factor) by (nonlinear_arith)
        requires
            0 <= y < h,
            0 <= dy < factor,
    ;
}

} // verus!
