//! RGBA pixel buffers: four bytes a pixel, rows from the top, no padding.

use crate::capture::{CaptureResult, Picture};
use vstd::prelude::*;

verus! {

/// Whether `data` holds exactly `width * height` pixels.
pub open spec fn is_image(data: Seq<u8>, width: int, height: int) -> bool {
    0 <= width && 0 <= height && data.len() == width * height * 4
}

/// Where the pixel `(x, y)` begins in the bytes of an image `width` wide.
pub open spec fn pixel_offset(width: int, x: int, y: int) -> int {
    (y * width + x) * 4
}

/// The four bytes of the pixel `(x, y)` of an image `width` wide.
pub open spec fn pixel_at(data: Seq<u8>, width: int, x: int, y: int) -> Seq<u8> {
    data.subrange(pixel_offset(width, x, y), pixel_offset(width, x, y) + 4)
}

/// Whether the pixel `(px, py)` comes before `(x, y)` when the rows are walked
/// from the top, each from the left.
pub open spec fn comes_before(px: int, py: int, x: int, y: int) -> bool {
    py < y || (py == y && px < x)
}

/// A pixel of an image lies within the image's bytes.
pub proof fn lemma_pixel_within(width: int, height: int, x: int, y: int)
    by (nonlinear_arith)
    requires
        0 <= x < width,
        0 <= y < height,
    ensures
        0 <= y * width,
        y * width + x < width * height,
        0 <= pixel_offset(width, x, y),
        pixel_offset(width, x, y) + 4 <= width * height * 4,
{
}

/// A pixel that comes before another begins at least four bytes before it.
pub proof fn lemma_pixel_order(width: int, px: int, py: int, x: int, y: int)
    by (nonlinear_arith)
    requires
        0 <= px < width,
        0 <= py,
        0 <= x <= width,
        comes_before(px, py, x, y),
    ensures
        0 <= pixel_offset(width, px, py),
        pixel_offset(width, px, py) + 4 <= pixel_offset(width, x, y),
{
}

/// Two different pixels of one image share no byte.
pub proof fn lemma_pixels_apart(width: int, x1: int, y1: int, x2: int, y2: int)
    by (nonlinear_arith)
    requires
        0 <= x1 < width,
        0 <= x2 < width,
        0 <= y1,
        0 <= y2,
        x1 != x2 || y1 != y2,
    ensures
        pixel_offset(width, x1, y1) + 4 <= pixel_offset(width, x2, y2) || pixel_offset(
            width,
            x2,
            y2,
        ) + 4 <= pixel_offset(width, x1, y1),
{
}

/// The pixel that holds byte `i` of an image `width` wide, and which of its
/// four bytes that is.
pub proof fn lemma_byte_in_pixel(width: int, height: int, i: int)
    by (nonlinear_arith)
    requires
        0 < width,
        0 <= i < width * height * 4,
    ensures
        0 <= (i / 4) % width < width,
        0 <= (i / 4) / width < height,
        0 <= i % 4 < 4,
        i == pixel_offset(width, (i / 4) % width, (i / 4) / width) + i % 4,
{
}

/// Two images of one size whose pixels agree are the same image.
pub proof fn lemma_same_pixels(a: Seq<u8>, b: Seq<u8>, width: int, height: int)
    requires
        is_image(a, width, height),
        is_image(b, width, height),
        forall|x: int, y: int|
            0 <= x < width && 0 <= y < height ==> #[trigger] pixel_at(a, width, x, y) == pixel_at(
                b,
                width,
                x,
                y,
            ),
    ensures
        a == b,
{
    assert forall|i: int| 0 <= i < a.len() implies a[i] == b[i] by {
        if width <= 0 {
            assert(width * height * 4 == 0) by (nonlinear_arith)
                requires
                    width == 0,
            ;
        } else {
            lemma_byte_in_pixel(width, height, i);
            let x = (i / 4) % width;
            let y = (i / 4) / width;
            let k = i % 4;
            lemma_pixel_within(width, height, x, y);
            assert(pixel_at(a, width, x, y)[k] == a[i]);
            assert(pixel_at(b, width, x, y)[k] == b[i]);
        }
    }
    assert(a =~= b);
}

/// How the compositor packs a pixel into the shared buffer.
#[derive(Debug, Clone, Copy, PartialEq, Eq, Structural)]
pub enum ShmFormat {
    /// Blue, green, red, alpha: the alpha byte means something.
    Argb8888,
    /// Blue, green, red and a byte that means nothing.
    Xrgb8888,
    /// Any other format, by its number in the protocol.
    Other(u32),
}

/// The bytes of a buffer of blue-green-red-unused pixels as RGBA: in every
/// whole group of four bytes the first and third change places and the fourth
/// becomes 255. Bytes behind the last whole group stay.
pub open spec fn opaque_rgba(data: Seq<u8>) -> Seq<u8> {
    Seq::new(
        data.len(),
        |i: int|
            if i >= (data.len() / 4) * 4 {
                data[i]
            } else if i % 4 == 0 {
                data[i + 2]
            } else if i % 4 == 2 {
                data[i - 2]
            } else if i % 4 == 3 {
                255u8
            } else {
                data[i]
            },
    )
}

/// The bytes of a buffer in the given format as RGBA. Only the format without
/// alpha is converted; a buffer in any other format is taken as it is.
pub open spec fn normalized(data: Seq<u8>, format: ShmFormat) -> Seq<u8> {
    match format {
        ShmFormat::Xrgb8888 => opaque_rgba(data),
        _ => data,
    }
}

/// A pixel stored as blue, green, red and an unused byte comes out as red,
/// green, blue and 255, whatever the unused byte held.
pub proof fn law_xrgb_pixel_becomes_opaque_rgba(data: Seq<u8>, i: int)
    requires
        0 <= i < data.len() / 4,
    ensures
        opaque_rgba(data).len() == data.len(),
        opaque_rgba(data).subrange(4 * i, 4 * i + 4) == seq![
            data[4 * i + 2],
            data[4 * i + 1],
            data[4 * i],
            255u8,
        ],
{
    assert(opaque_rgba(data).subrange(4 * i, 4 * i + 4) =~= seq![
        data[4 * i + 2],
        data[4 * i + 1],
        data[4 * i],
        255u8,
    ]);
}

/// Turns a buffer of blue-green-red-unused pixels into RGBA, in place.
pub fn xrgb_to_rgba(data: &mut Vec<u8>)
    ensures
        final(data)@ == opaque_rgba(old(data)@),
{
    let len: usize = data.len();
    let groups: usize = len / 4;
    let mut g: usize = 0;
    while g < groups
        invariant
            len == old(data)@.len(),
            groups == len / 4,
            g <= groups,
            data@.len() == old(data)@.len(),
            forall|i: int| 0 <= i < 4 * g ==> data@[i] == opaque_rgba(old(data)@)[i],
            forall|i: int| 4 * g <= i < data@.len() ==> data@[i] == old(data)@[i],
        decreases groups - g,
    {
        let at: usize = g * 4;
        let b = data[at];
        let r = data[at + 2];
        data.set(at, r);
        data.set(at + 2, b);
        data.set(at + 3, 255);
        g = g + 1;
    }
    assert(data@ =~= opaque_rgba(old(data)@));
}

/// Brings a buffer in the given format to RGBA, in place.
pub fn normalize_pixels(data: &mut Vec<u8>, format: ShmFormat)
    ensures
        final(data)@ == normalized(old(data)@, format),
{
    match format {
        ShmFormat::Xrgb8888 => xrgb_to_rgba(data),
        _ => {},
    }
}

/// Whether the pixel `(px, py)` of the destination has been written when the
/// first `rows` rows of the source and `cols` pixels of the next are copied.
pub open spec fn blit_reached(
    px: int,
    py: int,
    offset_x: int,
    offset_y: int,
    copy_width: int,
    rows: int,
    cols: int,
) -> bool {
    &&& offset_x <= px < offset_x + copy_width
    &&& (offset_y <= py < offset_y + rows || (py == offset_y + rows && px < offset_x + cols))
}

/// Whether `after` is the destination `before`, `dest_width` by `dest_height`,
/// with the image `src` copied onto it at `(offset_x, offset_y)`: a pixel under
/// the image is the image's pixel, any other is as it was. What of the image
/// lies beyond the right or lower edge is left out.
pub open spec fn is_blit(
    before: Seq<u8>,
    after: Seq<u8>,
    dest_width: int,
    dest_height: int,
    src: Picture,
    offset_x: int,
    offset_y: int,
) -> bool {
    &&& after.len() == before.len()
    &&& forall|px: int, py: int|
        0 <= px < dest_width && 0 <= py < dest_height ==> #[trigger] pixel_at(
            after,
            dest_width,
            px,
            py,
        ) == if offset_x <= px < offset_x + src.width && offset_y <= py < offset_y + src.height {
            pixel_at(src.data, src.width, px - offset_x, py - offset_y)
        } else {
            pixel_at(before, dest_width, px, py)
        }
}

/// Copies the image `capture` into the destination at `(offset_x, offset_y)`,
/// row by row and without blending. What would fall outside the destination
/// is not copied.
pub fn blit_capture(
    dest: &mut Vec<u8>,
    dest_width: usize,
    dest_height: usize,
    capture: &CaptureResult,
    offset_x: usize,
    offset_y: usize,
)
    requires
        is_image(old(dest)@, dest_width as int, dest_height as int),
        capture@.complete(),
    ensures
        is_blit(
            old(dest)@,
            final(dest)@,
            dest_width as int,
            dest_height as int,
            capture@,
            offset_x as int,
            offset_y as int,
        ),
{
    let src_width: usize = capture.width() as usize;
    let src_height: usize = capture.height() as usize;
    if src_width == 0 || src_height == 0 {
        return ;
    }
    if offset_x >= dest_width || offset_y >= dest_height {
        return ;
    }
    let room_x: usize = dest_width - offset_x;
    let room_y: usize = dest_height - offset_y;
    let copy_width: usize = if src_width <= room_x { src_width } else { room_x };
    let copy_height: usize = if src_height <= room_y { src_height } else { room_y };
    let src = capture.data();
    let dest_len: usize = dest.len();
    let src_len: usize = src.len();
    let mut row: usize = 0;
    while row < copy_height
        invariant
            is_image(old(dest)@, dest_width as int, dest_height as int),
            is_image(src@, src_width as int, src_height as int),
            src@ == capture@.data,
            src_len == src@.len(),
            dest_len == dest@.len(),
            dest@.len() == old(dest)@.len(),
            0 < copy_width <= src_width,
            0 < copy_height <= src_height,
            offset_x + copy_width <= dest_width,
            offset_y + copy_height <= dest_height,
            row <= copy_height,
            forall|px: int, py: int|
                0 <= px < dest_width && 0 <= py < dest_height ==> #[trigger] pixel_at(
                    dest@,
                    dest_width as int,
                    px,
                    py,
                ) == if blit_reached(
                    px,
                    py,
                    offset_x as int,
                    offset_y as int,
                    copy_width as int,
                    row as int,
                    0,
                ) {
                    pixel_at(src@, src_width as int, px - offset_x, py - offset_y)
                } else {
                    pixel_at(old(dest)@, dest_width as int, px, py)
                },
        decreases copy_height - row,
    {
        let mut col: usize = 0;
        while col < copy_width
            invariant
                is_image(old(dest)@, dest_width as int, dest_height as int),
                is_image(src@, src_width as int, src_height as int),
                src_len == src@.len(),
                dest_len == dest@.len(),
                dest@.len() == old(dest)@.len(),
                0 < copy_width <= src_width,
                0 < copy_height <= src_height,
                offset_x + copy_width <= dest_width,
                offset_y + copy_height <= dest_height,
                row < copy_height,
                col <= copy_width,
                forall|px: int, py: int|
                    0 <= px < dest_width && 0 <= py < dest_height ==> #[trigger] pixel_at(
                        dest@,
                        dest_width as int,
                        px,
                        py,
                    ) == if blit_reached(
                        px,
                        py,
                        offset_x as int,
                        offset_y as int,
                        copy_width as int,
                        row as int,
                        col as int,
                    ) {
                        pixel_at(src@, src_width as int, px - offset_x, py - offset_y)
                    } else {
                        pixel_at(old(dest)@, dest_width as int, px, py)
                    },
            decreases copy_width - col,
        {
            proof {
                lemma_pixel_within(
                    dest_width as int,
                    dest_height as int,
                    offset_x + col,
                    offset_y + row,
                );
                lemma_pixel_within(src_width as int, src_height as int, col as int, row as int);
            }
            let di: usize = ((offset_y + row) * dest_width + (offset_x + col)) * 4;
            let si: usize = (row * src_width + col) * 4;
            let ghost before = dest@;
            dest.set(di, src[si]);
            dest.set(di + 1, src[si + 1]);
            dest.set(di + 2, src[si + 2]);
            dest.set(di + 3, src[si + 3]);
            proof {
                let tx = offset_x + col;
                let ty = offset_y + row;
                assert(pixel_at(dest@, dest_width as int, tx, ty) =~= pixel_at(
                    src@,
                    src_width as int,
                    col as int,
                    row as int,
                ));
                assert forall|px: int, py: int|
                    0 <= px < dest_width && 0 <= py < dest_height implies #[trigger] pixel_at(
                    dest@,
                    dest_width as int,
                    px,
                    py,
                ) == if blit_reached(
                    px,
                    py,
                    offset_x as int,
                    offset_y as int,
                    copy_width as int,
                    row as int,
                    col + 1,
                ) {
                    pixel_at(src@, src_width as int, px - offset_x, py - offset_y)
                } else {
                    pixel_at(old(dest)@, dest_width as int, px, py)
                } by {
                    if px != tx || py != ty {
                        lemma_pixels_apart(dest_width as int, px, py, tx, ty);
                        lemma_pixel_within(dest_width as int, dest_height as int, px, py);
                        assert(pixel_at(dest@, dest_width as int, px, py) =~= pixel_at(
                            before,
                            dest_width as int,
                            px,
                            py,
                        ));
                    }
                }
            }
            col = col + 1;
        }
        row = row + 1;
    }
}

} // verus!
