//! Turning and mirroring pixel buffers, so that a frame from a turned output
//! comes out upright.

use crate::pixels::{
    comes_before, is_image, lemma_pixel_order, lemma_pixel_within, lemma_same_pixels, pixel_at,
    pixel_offset,
};
use vstd::prelude::*;
use vstd::slice::slice_to_vec;

verus! {

/// How an output is turned and mirrored against its frames.
#[derive(Debug, Clone, Copy, PartialEq, Eq, Structural)]
pub enum Transform {
    Normal,
    _90,
    _180,
    _270,
    Flipped,
    Flipped90,
    Flipped180,
    Flipped270,
}

impl Transform {
    /// Whether the transform turns by a quarter, so that width and height
    /// change places.
    pub open spec fn swaps_axes(self) -> bool {
        self is _90 || self is _270 || self is Flipped90 || self is Flipped270
    }

    /// The size of an image of `width` by `height` after the transform.
    pub open spec fn size(self, width: int, height: int) -> (int, int) {
        if self.swaps_axes() {
            (height, width)
        } else {
            (width, height)
        }
    }

    /// Where the pixel `(x, y)` of an image of `width` by `height` stands after
    /// the transform.
    pub open spec fn target(self, width: int, height: int, x: int, y: int) -> (int, int) {
        match self {
            Transform::Normal => (x, y),
            Transform::_90 => (height - 1 - y, x),
            Transform::_180 => (width - 1 - x, height - 1 - y),
            Transform::_270 => (y, width - 1 - x),
            Transform::Flipped => (width - 1 - x, y),
            Transform::Flipped90 => (height - 1 - y, width - 1 - x),
            Transform::Flipped180 => (x, height - 1 - y),
            Transform::Flipped270 => (y, x),
        }
    }

    /// Which pixel of an image of `width` by `height` stands at `(nx, ny)`
    /// after the transform.
    pub open spec fn source(self, width: int, height: int, nx: int, ny: int) -> (int, int) {
        match self {
            Transform::Normal => (nx, ny),
            Transform::_90 => (ny, height - 1 - nx),
            Transform::_180 => (width - 1 - nx, height - 1 - ny),
            Transform::_270 => (width - 1 - ny, nx),
            Transform::Flipped => (width - 1 - nx, ny),
            Transform::Flipped90 => (width - 1 - ny, height - 1 - nx),
            Transform::Flipped180 => (nx, height - 1 - ny),
            Transform::Flipped270 => (ny, nx),
        }
    }

    /// The transform that undoes this one.
    pub open spec fn inverse(self) -> Transform {
        match self {
            Transform::_90 => Transform::_270,
            Transform::_270 => Transform::_90,
            other => other,
        }
    }

    /// Whether `out` is the image `data` of `width` by `height` after the
    /// transform: it has the transformed size, and every pixel of `data` stands
    /// at its target.
    pub open spec fn relates(self, data: Seq<u8>, width: int, height: int, out: Seq<u8>) -> bool {
        &&& is_image(out, self.size(width, height).0, self.size(width, height).1)
        &&& forall|x: int, y: int|
            0 <= x < width && 0 <= y < height ==> pixel_at(
                out,
                self.size(width, height).0,
                self.target(width, height, x, y).0,
                self.target(width, height, x, y).1,
            ) == #[trigger] pixel_at(data, width, x, y)
    }
}

/// Swaps `width` and `height` where the transform turns by a quarter, and
/// leaves them alone where it does not.
pub fn apply_output_transform(transform: Transform, width: &mut i32, height: &mut i32)
    ensures
        (*final(width) as int, *final(height) as int) == transform.size(
            *old(width) as int,
            *old(height) as int,
        ),
{
    match transform {
        Transform::_90 | Transform::_270 | Transform::Flipped90 | Transform::Flipped270 => {
            let w = *width;
            *width = *height;
            *height = w;
        },
        _ => {},
    }
}

/// Builds the transformed image row by row, taking each of its pixels from
/// where it stood before.
fn remap(data: &[u8], width: u32, height: u32, transform: Transform) -> (out: Vec<u8>)
    requires
        is_image(data@, width as int, height as int),
    ensures
        transform.relates(data@, width as int, height as int, out@),
{
    let w: usize = width as usize;
    let h: usize = height as usize;
    let swaps = match transform {
        Transform::_90 | Transform::_270 | Transform::Flipped90 | Transform::Flipped270 => true,
        _ => false,
    };
    let nw: usize = if swaps { h } else { w };
    let nh: usize = if swaps { w } else { h };
    let len: usize = data.len();
    let mut out: Vec<u8> = Vec::new();
    let mut ny: usize = 0;
    while ny < nh
        invariant
            is_image(data@, w as int, h as int),
            data@.len() == len,
            w == width,
            h == height,
            (nw as int, nh as int) == transform.size(w as int, h as int),
            ny <= nh,
            out@.len() == pixel_offset(nw as int, 0, ny as int),
            forall|px: int, py: int|
                0 <= px < nw && 0 <= py < ny ==> #[trigger] pixel_at(out@, nw as int, px, py)
                    == pixel_at(
                    data@,
                    w as int,
                    transform.source(w as int, h as int, px, py).0,
                    transform.source(w as int, h as int, px, py).1,
                ),
        decreases nh - ny,
    {
        let mut nx: usize = 0;
        while nx < nw
            invariant
                is_image(data@, w as int, h as int),
                data@.len() == len,
                w == width,
                h == height,
                (nw as int, nh as int) == transform.size(w as int, h as int),
                ny < nh,
                nx <= nw,
                out@.len() == pixel_offset(nw as int, nx as int, ny as int),
                forall|px: int, py: int|
                    0 <= px < nw && 0 <= py && comes_before(px, py, nx as int, ny as int)
                        ==> #[trigger] pixel_at(out@, nw as int, px, py) == pixel_at(
                        data@,
                        w as int,
                        transform.source(w as int, h as int, px, py).0,
                        transform.source(w as int, h as int, px, py).1,
                    ),
            decreases nw - nx,
        {
            let (sx, sy): (usize, usize) = match transform {
                Transform::Normal => (nx, ny),
                Transform::_90 => (ny, h - 1 - nx),
                Transform::_180 => (w - 1 - nx, h - 1 - ny),
                Transform::_270 => (w - 1 - ny, nx),
                Transform::Flipped => (w - 1 - nx, ny),
                Transform::Flipped90 => (w - 1 - ny, h - 1 - nx),
                Transform::Flipped180 => (nx, h - 1 - ny),
                Transform::Flipped270 => (ny, nx),
            };
            proof {
                lemma_pixel_within(w as int, h as int, sx as int, sy as int);
            }
            let si: usize = (sy * w + sx) * 4;
            let ghost before = out@;
            out.push(data[si]);
            out.push(data[si + 1]);
            out.push(data[si + 2]);
            out.push(data[si + 3]);
            proof {
                assert(out@ =~= before + data@.subrange(si as int, si + 4));
                assert(pixel_at(out@, nw as int, nx as int, ny as int) =~= pixel_at(
                    data@,
                    w as int,
                    sx as int,
                    sy as int,
                ));
                assert forall|px: int, py: int|
                    0 <= px < nw && 0 <= py && comes_before(
                        px,
                        py,
                        nx + 1,
                        ny as int,
                    ) implies #[trigger] pixel_at(out@, nw as int, px, py) == pixel_at(
                    data@,
                    w as int,
                    transform.source(w as int, h as int, px, py).0,
                    transform.source(w as int, h as int, px, py).1,
                ) by {
                    if comes_before(px, py, nx as int, ny as int) {
                        lemma_pixel_order(nw as int, px, py, nx as int, ny as int);
                        assert(pixel_at(out@, nw as int, px, py) =~= pixel_at(
                            before,
                            nw as int,
                            px,
                            py,
                        ));
                    }
                }
                assert(pixel_offset(nw as int, nx + 1, ny as int) == pixel_offset(
                    nw as int,
                    nx as int,
                    ny as int,
                ) + 4) by (nonlinear_arith);
            }
            nx = nx + 1;
        }
        proof {
            assert(pixel_offset(nw as int, nw as int, ny as int) == pixel_offset(
                nw as int,
                0,
                ny + 1,
            )) by (nonlinear_arith);
            assert forall|px: int, py: int| 0 <= px < nw && 0 <= py < ny + 1 implies comes_before(
                px,
                py,
                nw as int,
                ny as int,
            ) by {}
        }
        ny = ny + 1;
    }
    proof {
        assert(pixel_offset(nw as int, 0, nh as int) == nw * nh * 4) by (nonlinear_arith);
        assert(nw * nh == w * h) by (nonlinear_arith)
            requires
                (nw == w && nh == h) || (nw == h && nh == w),
        ;
        assert forall|x: int, y: int| 0 <= x < w && 0 <= y < h implies pixel_at(
            out@,
            transform.size(w as int, h as int).0,
            transform.target(w as int, h as int, x, y).0,
            transform.target(w as int, h as int, x, y).1,
        ) == #[trigger] pixel_at(data@, w as int, x, y) by {
            let t = transform.target(w as int, h as int, x, y);
            assert(0 <= t.0 < nw && 0 <= t.1 < nh);
            assert(transform.source(w as int, h as int, t.0, t.1) == (x, y));
        }
    }
    out
}

/// Turns the image a quarter clockwise.
pub fn rotate_90(data: &[u8], width: u32, height: u32) -> (r: (Vec<u8>, u32, u32))
    requires
        is_image(data@, width as int, height as int),
    ensures
        r.1 == height,
        r.2 == width,
        Transform::_90.relates(data@, width as int, height as int, r.0@),
{
    (remap(data, width, height, Transform::_90), height, width)
}

/// Turns the image upside down, by half a turn.
pub fn rotate_180(data: &[u8], width: u32, height: u32) -> (r: (Vec<u8>, u32, u32))
    requires
        is_image(data@, width as int, height as int),
    ensures
        r.1 == width,
        r.2 == height,
        Transform::_180.relates(data@, width as int, height as int, r.0@),
{
    (remap(data, width, height, Transform::_180), width, height)
}

/// Turns the image three quarters clockwise.
pub fn rotate_270(data: &[u8], width: u32, height: u32) -> (r: (Vec<u8>, u32, u32))
    requires
        is_image(data@, width as int, height as int),
    ensures
        r.1 == height,
        r.2 == width,
        Transform::_270.relates(data@, width as int, height as int, r.0@),
{
    (remap(data, width, height, Transform::_270), height, width)
}

/// Mirrors the image, left to right.
pub fn flip_horizontal(data: &[u8], width: u32, height: u32) -> (r: (Vec<u8>, u32, u32))
    requires
        is_image(data@, width as int, height as int),
    ensures
        r.1 == width,
        r.2 == height,
        Transform::Flipped.relates(data@, width as int, height as int, r.0@),
{
    (remap(data, width, height, Transform::Flipped), width, height)
}

/// Mirrors the image, top to bottom.
pub fn flip_vertical(data: &[u8], width: u32, height: u32) -> (r: (Vec<u8>, u32, u32))
    requires
        is_image(data@, width as int, height as int),
    ensures
        r.1 == width,
        r.2 == height,
        Transform::Flipped180.relates(data@, width as int, height as int, r.0@),
{
    (remap(data, width, height, Transform::Flipped180), width, height)
}

/// Undoes the transform of an output on a frame taken from it: turns and
/// mirrors the image so that it comes out upright. A mirrored quarter turn is
/// made of the mirroring and then the turn.
pub fn apply_image_transform(
    data: &[u8],
    width: u32,
    height: u32,
    transform: Transform,
) -> (r: (Vec<u8>, u32, u32))
    requires
        is_image(data@, width as int, height as int),
    ensures
        (r.1 as int, r.2 as int) == transform.size(width as int, height as int),
        transform.relates(data@, width as int, height as int, r.0@),
        transform is Normal ==> r.0@ == data@,
{
    match transform {
        Transform::Normal => (slice_to_vec(data), width, height),
        Transform::_90 => rotate_90(data, width, height),
        Transform::_180 => rotate_180(data, width, height),
        Transform::_270 => rotate_270(data, width, height),
        Transform::Flipped => flip_horizontal(data, width, height),
        Transform::Flipped90 => {
            let (flipped, w, h) = flip_horizontal(data, width, height);
            let r = rotate_90(flipped.as_slice(), w, h);
            proof {
                lemma_mirrored_turn(
                    Transform::_90,
                    data@,
                    width as int,
                    height as int,
                    flipped@,
                    r.0@,
                );
            }
            r
        },
        Transform::Flipped180 => flip_vertical(data, width, height),
        Transform::Flipped270 => {
            let (flipped, w, h) = flip_horizontal(data, width, height);
            let r = rotate_270(flipped.as_slice(), w, h);
            proof {
                lemma_mirrored_turn(
                    Transform::_270,
                    data@,
                    width as int,
                    height as int,
                    flipped@,
                    r.0@,
                );
            }
            r
        },
    }
}

/// A mirroring followed by a quarter turn is the mirrored quarter turn.
proof fn lemma_mirrored_turn(
    turn: Transform,
    data: Seq<u8>,
    width: int,
    height: int,
    flipped: Seq<u8>,
    out: Seq<u8>,
)
    requires
        turn == Transform::_90 || turn == Transform::_270,
        0 <= width,
        0 <= height,
        Transform::Flipped.relates(data, width, height, flipped),
        turn.relates(flipped, width, height, out),
    ensures
        turn == Transform::_90 ==> Transform::Flipped90.relates(data, width, height, out),
        turn == Transform::_270 ==> Transform::Flipped270.relates(data, width, height, out),
{
    let both = if turn == Transform::_90 {
        Transform::Flipped90
    } else {
        Transform::Flipped270
    };
    assert forall|x: int, y: int| 0 <= x < width && 0 <= y < height implies pixel_at(
        out,
        both.size(width, height).0,
        both.target(width, height, x, y).0,
        both.target(width, height, x, y).1,
    ) == #[trigger] pixel_at(data, width, x, y) by {
        let fx = width - 1 - x;
        assert(pixel_at(flipped, width, fx, y) == pixel_at(data, width, x, y));
        assert(turn.target(width, height, fx, y) == both.target(width, height, x, y));
    }
}

/// A quarter turn, mirrored or not, gives an image as wide as the first was
/// high and as high as it was wide. Every other transform keeps the size. The
/// inverse of a transform gives the first size back.
pub proof fn law_transform_sizes(t: Transform, width: int, height: int)
    ensures
        t is _90 || t is _270 || t is Flipped90 || t is Flipped270 ==> t.size(width, height) == (
            height,
            width,
        ),
        t is Normal || t is _180 || t is Flipped || t is Flipped180 ==> t.size(width, height) == (
            width,
            height,
        ),
        t.inverse().size(t.size(width, height).0, t.size(width, height).1) == (width, height),
{
}

/// A transform moves the pixels of an image onto the pixels of the transformed
/// image, one to one, and its inverse moves each back to where it stood.
pub proof fn law_transform_moves_pixels(t: Transform, width: int, height: int, x: int, y: int)
    requires
        0 <= x < width,
        0 <= y < height,
    ensures
        0 <= t.target(width, height, x, y).0 < t.size(width, height).0,
        0 <= t.target(width, height, x, y).1 < t.size(width, height).1,
        t.source(
            width,
            height,
            t.target(width, height, x, y).0,
            t.target(width, height, x, y).1,
        ) == (x, y),
        t.inverse().target(
            t.size(width, height).0,
            t.size(width, height).1,
            t.target(width, height, x, y).0,
            t.target(width, height, x, y).1,
        ) == (x, y),
{
}

/// Transforming an image and then transforming the result by the inverse gives
/// the first image back, byte for byte.
pub proof fn law_inverse_restores_image(
    t: Transform,
    data: Seq<u8>,
    width: int,
    height: int,
    turned: Seq<u8>,
    back: Seq<u8>,
)
    requires
        is_image(data, width, height),
        t.relates(data, width, height, turned),
        t.inverse().relates(turned, t.size(width, height).0, t.size(width, height).1, back),
    ensures
        back == data,
{
    let tw = t.size(width, height).0;
    let th = t.size(width, height).1;
    law_transform_sizes(t, width, height);
    assert forall|x: int, y: int| 0 <= x < width && 0 <= y < height implies #[trigger] pixel_at(
        back,
        width,
        x,
        y,
    ) == pixel_at(data, width, x, y) by {
        law_transform_moves_pixels(t, width, height, x, y);
        let p = t.target(width, height, x, y);
        assert(pixel_at(turned, tw, p.0, p.1) == pixel_at(data, width, x, y));
        assert(pixel_at(back, width, x, y) == pixel_at(turned, tw, p.0, p.1));
    }
    lemma_same_pixels(back, data, width, height);
}

} // verus!
