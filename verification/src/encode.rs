//! Images as PPM, PNG and JPEG bytes.

use crate::error::{Error, ErrorView};
use crate::grim::Grim;
use crate::text::{append_unsigned, chars_of, decimal_digits};
use vstd::prelude::*;
use vstd::string::StringExecFns;

verus! {

/// `png::EncodingError`, carried through as it is.
#[verifier::external_type_specification]
#[verifier::external_body]
pub struct ExPngEncodingError(png::EncodingError);

/// `jpeg_encoder::EncodingError`, carried through as it is.
#[verifier::external_type_specification]
#[verifier::external_body]
pub struct ExJpegEncodingError(jpeg_encoder::EncodingError);

/// What the PNG encoder hands back.
type PngOutcome = Result<Vec<u8>, png::EncodingError>;

/// What the JPEG encoder hands back.
type JpegOutcome = Result<Vec<u8>, jpeg_encoder::EncodingError>;

/// How hard the PNG encoder tries to make the file small.
#[derive(Debug, Clone, Copy, PartialEq, Eq, Structural)]
pub enum PngCompression {
    Fast,
    Default,
    Best,
}

/// The bytes of the PNG file that the `png` crate writes for an RGBA image of
/// `width` by `height` with eight bits a channel, without a row filter, at the
/// given compression.
pub uninterp spec fn png_encoded(
    data: Seq<u8>,
    width: u32,
    height: u32,
    compression: PngCompression,
) -> Seq<u8>;

/// The bytes of the JPEG file that the `jpeg_encoder` crate writes for an RGB
/// image of `width` by `height` at the given quality.
pub uninterp spec fn jpeg_encoded(rgb: Seq<u8>, width: u16, height: u16, quality: u8) -> Seq<u8>;

/// Whether the PNG encoder takes the data as an RGBA image of the size: the
/// size must not be zero either way, and the data must be exactly four bytes
/// for every pixel.
pub open spec fn png_accepts(data: Seq<u8>, width: u32, height: u32) -> bool {
    width != 0 && height != 0 && data.len() == width * height * 4
}

/// Whether the JPEG encoder takes the data as an RGB image of the size: the
/// size must not be zero either way, and the data must be at least three bytes
/// for every pixel.
pub open spec fn jpeg_accepts(rgb: Seq<u8>, width: u16, height: u16) -> bool {
    width != 0 && height != 0 && rgb.len() >= width * height * 3
}

/// Encodes an RGBA image with the `png` crate: `png::Encoder` over a buffer in
/// memory, colour type RGBA, no row filter, then `write_header`,
/// `write_image_data` and `finish`. The encoder refuses a width or height of
/// zero and data that is not exactly four bytes for every pixel; nothing else
/// fails, as writing to memory does not. The bytes are the encoder's. The
/// sizes asked for are those whose byte count the encoder can work out.
#[verifier::external_body]
fn encode_png(data: &[u8], width: u32, height: u32, compression: PngCompression) -> (r: PngOutcome)
    requires
        width * height * 4 <= usize::MAX,
    ensures
        r is Ok <==> png_accepts(data@, width, height),
        r matches Ok(out) ==> out@ == png_encoded(data@, width, height, compression),
{
    let mut out = Vec::new();
    let mut encoder = png::Encoder::new(std::io::Cursor::new(&mut out), width, height);
    encoder.set_compression(
        match compression {
            PngCompression::Fast => png::Compression::Fast,
            PngCompression::Default => png::Compression::Default,
            PngCompression::Best => png::Compression::Best,
        },
    );
    encoder.set_color(png::ColorType::Rgba);
    encoder.set_filter(png::FilterType::NoFilter);
    let mut writer = encoder.write_header()?;
    writer.write_image_data(data)?;
    writer.finish()?;
    Ok(out)
}

/// Encodes an RGB image with `jpeg_encoder::Encoder::encode` into memory. The
/// encoder refuses a width or height of zero and data of fewer than three
/// bytes for every pixel; nothing else fails. The bytes are the encoder's. The
/// sizes asked for are those whose byte count the encoder can work out.
#[verifier::external_body]
fn encode_jpeg(rgb: &[u8], width: u16, height: u16, quality: u8) -> (r: JpegOutcome)
    requires
        width * height * 3 <= usize::MAX,
    ensures
        r is Ok <==> jpeg_accepts(rgb@, width, height),
        r matches Ok(out) ==> out@ == jpeg_encoded(rgb@, width, height, quality),
{
    let mut out = Vec::new();
    jpeg_encoder::Encoder::new(&mut out, quality).encode(
        rgb,
        width,
        height,
        jpeg_encoder::ColorType::Rgb,
    )?;
    Ok(out)
}

/// The I/O error that stands for a failure of the PNG encoder: made by
/// `std::io::Error::other` of the encoder's message behind `PNG encoding
/// error: `.
#[verifier::external_body]
fn png_failure(e: png::EncodingError) -> (r: std::io::Error) {
    std::io::Error::other(format!("PNG encoding error: {}", e))
}

/// The I/O error that stands for a failure of the JPEG encoder: made by
/// `std::io::Error::other` of the encoder's message behind `JPEG encoding
/// error: `.
#[verifier::external_body]
fn jpeg_failure(e: jpeg_encoder::EncodingError) -> (r: std::io::Error) {
    std::io::Error::other(format!("JPEG encoding error: {}", e))
}

/// The error of the `image` crate for data that does not match the
/// dimensions given: `ImageError::Parameter` of the kind `DimensionMismatch`.
#[verifier::external_body]
fn dimension_mismatch() -> (r: image::ImageError) {
    image::ImageError::Parameter(
        image::error::ParameterError::from_kind(
            image::error::ParameterErrorKind::DimensionMismatch,
        ),
    )
}

/// The compression for PNG bytes handed out in memory, by level: the fast one
/// up to level 3, the best one from level 7 to 9, the default one for every
/// other level.
pub open spec fn compression_for_bytes(level: u8) -> PngCompression {
    if level <= 3 {
        PngCompression::Fast
    } else if 7 <= level <= 9 {
        PngCompression::Best
    } else {
        PngCompression::Default
    }
}

/// The compression for PNG bytes meant for a file, by level: the fast one at
/// level 0, the best one from level 1 to 3 and from 7 to 9, the default one
/// for every other level.
pub open spec fn compression_for_file(level: u8) -> PngCompression {
    if level == 0 {
        PngCompression::Fast
    } else if level <= 3 || 7 <= level <= 9 {
        PngCompression::Best
    } else {
        PngCompression::Default
    }
}

/// The bytes of the characters of `s`, one byte each.
pub open spec fn ascii_bytes(s: Seq<char>) -> Seq<u8> {
    Seq::new(s.len(), |i: int| s[i] as u8)
}

/// The head of a PPM file for an image of the given size.
pub open spec fn ppm_header(width: u32, height: u32) -> Seq<char> {
    "P6\n"@ + decimal_digits(width as nat) + " "@ + decimal_digits(height as nat) + "\n255\n"@
}

/// Red, green and blue of every whole pixel of RGBA data, without the alpha.
pub open spec fn rgb_of(data: Seq<u8>) -> Seq<u8> {
    Seq::new((data.len() / 4 * 3) as nat, |i: int| data[i / 3 * 4 + i % 3])
}

/// The bytes of the PPM file for RGBA data and a size: the head, then red,
/// green and blue of every whole pixel of the data.
pub open spec fn ppm_bytes(data: Seq<u8>, width: u32, height: u32) -> Seq<u8> {
    ascii_bytes(ppm_header(width, height)) + rgb_of(data)
}

/// Whether `r` is the PNG encoding of the data at the given compression. Data
/// too short for the size is a mismatch of dimensions; a size of zero either
/// way, or data too long, is refused by the encoder.
pub open spec fn is_png_of(
    data: Seq<u8>,
    width: u32,
    height: u32,
    compression: PngCompression,
    r: Result<Vec<u8>, Error>,
) -> bool {
    if data.len() < width * height * 4 {
        r matches Err(e) && e@ == ErrorView::ImageProcessing
    } else if width == 0 || height == 0 || data.len() != width * height * 4 {
        r matches Err(e) && e@ == ErrorView::Io
    } else {
        r matches Ok(out) && out@ == png_encoded(data, width, height, compression)
    }
}

/// Whether `r` is the JPEG encoding of the data at the given quality: of red,
/// green and blue of the first `width * height` pixels, under the width and
/// height cut to sixteen bits. Data too short for the size is a mismatch of
/// dimensions; a cut width or height of zero is refused by the encoder.
pub open spec fn is_jpeg_of(
    data: Seq<u8>,
    width: u32,
    height: u32,
    quality: u8,
    r: Result<Vec<u8>, Error>,
) -> bool {
    if data.len() < width * height * 4 {
        r matches Err(e) && e@ == ErrorView::ImageProcessing
    } else if width % 0x1_0000 == 0 || height % 0x1_0000 == 0 {
        r matches Err(e) && e@ == ErrorView::Io
    } else {
        r matches Ok(out) && out@ == jpeg_encoded(
            rgb_of(data.subrange(0, width * height * 4)),
            (width % 0x1_0000) as u16,
            (height % 0x1_0000) as u16,
            quality,
        )
    }
}

/// Whether the data holds at least the pixels of the size.
fn holds_image(data: &[u8], width: u32, height: u32) -> (r: bool)
    ensures
        r == (data@.len() >= width * height * 4),
{
    assert(width * height * 4 <= 0xffff_ffff * 0xffff_ffff * 4) by (nonlinear_arith)
        requires
            0 <= width <= 0xffff_ffff,
            0 <= height <= 0xffff_ffff,
    ;
    let needed: u128 = width as u128 * height as u128 * 4;
    data.len() as u128 >= needed
}

/// Red, green and blue of the first `pixels` pixels of RGBA data.
fn drop_alpha(data: &[u8], pixels: usize) -> (rgb: Vec<u8>)
    requires
        pixels * 4 <= data@.len(),
    ensures
        rgb@ == rgb_of(data@.subrange(0, pixels * 4)),
{
    let len: usize = data.len();
    let mut rgb: Vec<u8> = Vec::new();
    let mut p: usize = 0;
    while p < pixels
        invariant
            len == data@.len(),
            pixels * 4 <= data@.len(),
            p <= pixels,
            rgb@.len() == p * 3,
            forall|i: int| 0 <= i < p * 3 ==> rgb@[i] == data@[i / 3 * 4 + i % 3],
        decreases pixels - p,
    {
        let at: usize = p * 4;
        rgb.push(data[at]);
        rgb.push(data[at + 1]);
        rgb.push(data[at + 2]);
        p = p + 1;
    }
    assert(rgb@ =~= rgb_of(data@.subrange(0, pixels * 4)));
    rgb
}

fn png_at(
    data: &[u8],
    width: u32,
    height: u32,
    compression: PngCompression,
) -> (r: Result<Vec<u8>, Error>)
    ensures
        is_png_of(data@, width, height, compression, r),
{
    if !holds_image(data, width, height) {
        return Err(Error::ImageProcessing(dimension_mismatch()));
    }
    let len: usize = data.len();
    assert(width * height * 4 <= len);
    match encode_png(data, width, height, compression) {
        Ok(out) => Ok(out),
        Err(e) => Err(Error::Io(png_failure(e))),
    }
}

impl Grim {
    /// The image as the bytes of a PPM file: the head with the size as given,
    /// then red, green and blue of every whole pixel of the data. This never
    /// fails.
    pub fn to_ppm(&self, data: &[u8], width: u32, height: u32) -> (r: Result<Vec<u8>, Error>)
        ensures
            r matches Ok(out) && out@ == ppm_bytes(data@, width, height),
    {
        let mut header = String::from_str("P6\n");
        append_unsigned(&mut header, width as u64);
        header.append(" ");
        append_unsigned(&mut header, height as u64);
        header.append("\n255\n");
        let chars = chars_of(header.as_str());
        let mut out: Vec<u8> = Vec::new();
        let mut i: usize = 0;
        while i < chars.len()
            invariant
                chars@ == ppm_header(width, height),
                i <= chars@.len(),
                out@.len() == i,
                forall|j: int| 0 <= j < i ==> out@[j] == chars@[j] as u8,
            decreases chars@.len() - i,
        {
            out.push(
                #[verifier::truncate]
                (chars[i] as u8),
            );
            i = i + 1;
        }
        let ghost head = out@;
        assert(head =~= ascii_bytes(ppm_header(width, height)));
        let len: usize = data.len();
        let pixels: usize = len / 4;
        let mut p: usize = 0;
        while p < pixels
            invariant
                len == data@.len(),
                pixels == len / 4,
                p <= pixels,
                out@.len() == head.len() + p * 3,
                forall|j: int| 0 <= j < head.len() ==> out@[j] == head[j],
                forall|k: int|
                    head.len() <= k < head.len() + p * 3 ==> #[trigger] out@[k] == data@[(k
                        - head.len()) / 3 * 4 + (k - head.len()) % 3],
            decreases pixels - p,
        {
            let at: usize = p * 4;
            out.push(data[at]);
            out.push(data[at + 1]);
            out.push(data[at + 2]);
            p = p + 1;
        }
        assert(out@ =~= ppm_bytes(data@, width, height));
        Ok(out)
    }

    /// The image as the bytes of a PNG file, at the default compression.
    pub fn to_png(&self, data: &[u8], width: u32, height: u32) -> (r: Result<Vec<u8>, Error>)
        ensures
            is_png_of(data@, width, height, PngCompression::Default, r),
    {
        self.to_png_with_compression(data, width, height, 6)
    }

    /// The image as the bytes of a PNG file, at the compression that the level
    /// stands for where the bytes stay in memory.
    pub fn to_png_with_compression(
        &self,
        data: &[u8],
        width: u32,
        height: u32,
        compression: u8,
    ) -> (r: Result<Vec<u8>, Error>)
        ensures
            is_png_of(data@, width, height, compression_for_bytes(compression), r),
    {
        let level = if compression <= 3 {
            PngCompression::Fast
        } else if 7 <= compression && compression <= 9 {
            PngCompression::Best
        } else {
            PngCompression::Default
        };
        png_at(data, width, height, level)
    }

    /// The image as the bytes of a PNG file, at the compression that the level
    /// stands for where the bytes go to a file.
    pub fn png_file_data(
        &self,
        data: &[u8],
        width: u32,
        height: u32,
        compression: u8,
    ) -> (r: Result<Vec<u8>, Error>)
        ensures
            is_png_of(data@, width, height, compression_for_file(compression), r),
    {
        let level = if compression == 0 {
            PngCompression::Fast
        } else if compression <= 3 || (7 <= compression && compression <= 9) {
            PngCompression::Best
        } else {
            PngCompression::Default
        };
        png_at(data, width, height, level)
    }

    /// The image as the bytes of a JPEG file, at quality 80.
    pub fn to_jpeg(&self, data: &[u8], width: u32, height: u32) -> (r: Result<Vec<u8>, Error>)
        ensures
            is_jpeg_of(data@, width, height, 80, r),
    {
        self.to_jpeg_with_quality(data, width, height, 80)
    }

    /// The image as the bytes of a JPEG file, at the given quality.
    pub fn to_jpeg_with_quality(
        &self,
        data: &[u8],
        width: u32,
        height: u32,
        quality: u8,
    ) -> (r: Result<Vec<u8>, Error>)
        ensures
            is_jpeg_of(data@, width, height, quality, r),
    {
        if !holds_image(data, width, height) {
            return Err(Error::ImageProcessing(dimension_mismatch()));
        }
        assert(width * height * 4 == (width * height) * 4) by (nonlinear_arith);
        assert(0 <= width * height) by (nonlinear_arith)
            requires
                0 <= width,
                0 <= height,
        ;
        let len: usize = data.len();
        let pixels: usize = width as usize * height as usize;
        let rgb = drop_alpha(data, pixels);
        let w: u16 = #[verifier::truncate]
        (width as u16);
        let h: u16 = #[verifier::truncate]
        (height as u16);
        assert(w == width % 0x1_0000) by (bit_vector)
            requires
                w == (width as u16),
        ;
        assert(h == height % 0x1_0000) by (bit_vector)
            requires
                h == (height as u16),
        ;
        assert(w * h * 3 <= width * height * 3) by (nonlinear_arith)
            requires
                0 <= w <= width,
                0 <= h <= height,
        ;
        match encode_jpeg(rgb.as_slice(), w, h, quality) {
            Ok(out) => Ok(out),
            Err(e) => Err(Error::Io(jpeg_failure(e))),
        }
    }
}

} // verus!
