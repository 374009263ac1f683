use vstd::prelude::*;
use vstd::arithmetic::div_mod::{lemma_div_multiples_vanish, lemma_multiply_divide_lt};
use crate::raster::{Raster, RasterModel};

verus! {

/// Output encodings the engine can generate.
#[derive(Clone, Copy, Debug)]
pub enum OutputFormat {
    Png,
    Jpeg,
}

/// Failure to decode the input bytes: not a supported encoded image, or
/// truncated or corrupt. Fatal to the request that carried the bytes only.
#[derive(Debug)]
pub struct DecodeError {
    pub message: String,
}

/// Failure to generate output bytes.
#[derive(Debug)]
pub enum EncodeError {
    /// The raster is degenerate: zero width or height.
    Degenerate,
    /// The codec rejected the request (for JPEG, dimensions beyond what the
    /// format can carry).
    Codec(String),
}

/// The PNG stream that the codec produces for an RGBA8 raster of the given
/// dimensions. The stream is a function of the raster alone.
pub uninterp spec fn png_of(w: int, h: int, pixels: Seq<u8>) -> Seq<u8>;

/// The JPEG stream that the codec produces for an RGB8 (no alpha) raster of
/// the given dimensions. The stream is a function of the raster alone.
pub uninterp spec fn jpeg_of(w: int, h: int, rgb: Seq<u8>) -> Seq<u8>;

/// The RGB8 samples of a raster: the RGBA8 samples with alpha dropped.
pub open spec fn strip_alpha(m: RasterModel) -> Seq<u8> {
    Seq::new((m.width * m.height * 3) as nat, |i: int| m.pixels[(i / 3) * 4 + i % 3])
}

/// Relies on image::load_from_memory followed by DynamicImage::to_rgba8: a
/// successfully decoded image converts to an RGBA8 buffer holding exactly
/// width * height * 4 bytes; on the PNG codec being lossless: a stream that
/// the PNG encoder produced decodes back to exactly the raster that was
/// encoded; and on the JPEG decoder accepting what the JPEG encoder
/// produced, with the dimensions kept (JPEG is lossy, so nothing is said of
/// the samples). Both round-trip clauses are bounded to rasters of at most
/// 128 MiB, well under the decoder's default 512 MiB allocation limit.
#[verifier::external_body]
fn decode_image(data: &[u8]) -> (out: Result<Raster, String>)
    ensures
        out is Ok ==> out->Ok_0.wf(),
        forall|w: int, h: int, p: Seq<u8>|
            1 <= w && 1 <= h && w * h * 4 <= 0x8000000 && p.len() == w * h * 4 && data@
                == #[trigger] png_of(w, h, p) ==> out is Ok && out->Ok_0@ == (RasterModel {
                width: w,
                height: h,
                pixels: p,
            }),
        forall|w: int, h: int, rgb: Seq<u8>|
            1 <= w <= 65535 && 1 <= h <= 65535 && w * h * 4 <= 0x8000000 && rgb.len() == w * h * 3
                && data@ == #[trigger] jpeg_of(w, h, rgb) ==> out is Ok && out->Ok_0@.width == w
                && out->Ok_0@.height == h,
{
    match image::load_from_memory(data) {
        Ok(img) => {
            let rgba = img.to_rgba8();
            let width = rgba.width();
            let height = rgba.height();
            Ok(Raster { width, height, pixels: rgba.into_raw() })
        },
        Err(e) => Err(format!("{e}")),
    }
}

/// Relies on image::write_buffer_with_format with ImageFormat::Png: writing
/// an RGBA8 buffer whose length matches the non-zero dimensions into an
/// in-memory cursor always succeeds (the PNG encoder rejects only zero
/// dimensions and mismatched buffer lengths, and writing to a Vec cannot
/// fail), and the stream depends on the buffer and dimensions alone.
#[verifier::external_body]
fn encode_png_raw(width: u32, height: u32, pixels: &Vec<u8>) -> (out: Vec<u8>)
    requires
        1 <= width,
        1 <= height,
        pixels@.len() == width * height * 4,
    ensures
        out@ == png_of(width as int, height as int, pixels@),
{
    let mut buf = std::io::Cursor::new(Vec::new());
    image::write_buffer_with_format(
        &mut buf,
        pixels,
        width,
        height,
        image::ExtendedColorType::Rgba8,
        image::ImageFormat::Png,
    ).unwrap();
    buf.into_inner()
}

/// Relies on image::write_buffer_with_format with ImageFormat::Jpeg: the
/// encoder fails exactly when a dimension exceeds 65535 (the most a JPEG can
/// carry; writing to an in-memory cursor cannot fail otherwise), and on
/// success the stream depends on the RGB8 buffer and dimensions alone.
#[verifier::external_body]
fn encode_jpeg_raw(width: u32, height: u32, rgb: &Vec<u8>) -> (out: Result<Vec<u8>, String>)
    requires
        1 <= width,
        1 <= height,
        rgb@.len() == width * height * 3,
    ensures
        width <= 65535 && height <= 65535 ==> out is Ok,
        out is Ok ==> width <= 65535 && height <= 65535,
        out is Ok ==> out->Ok_0@ == jpeg_of(width as int, height as int, rgb@),
{
    let mut buf = std::io::Cursor::new(Vec::new());
    match image::write_buffer_with_format(
        &mut buf,
        rgb,
        width,
        height,
        image::ExtendedColorType::Rgb8,
        image::ImageFormat::Jpeg,
    ) {
        Ok(()) => Ok(buf.into_inner()),
        Err(e) => Err(format!("{e}")),
    }
}

/// Decodes encoded image bytes into a raster; fails with `DecodeError` when
/// the bytes are not a supported encoded image or are truncated or corrupt.
/// Decoding bytes that `encode` produced yields the encoded raster back:
/// exactly for PNG (lossless), with the dimensions kept for JPEG (lossy).
pub fn decode(data: &[u8]) -> (out: Result<Raster, DecodeError>)
    ensures
        out is Ok ==> out->Ok_0.wf(),
        forall|w: int, h: int, p: Seq<u8>|
            1 <= w && 1 <= h && w * h * 4 <= 0x8000000 && p.len() == w * h * 4 && data@
                == #[trigger] png_of(w, h, p) ==> out is Ok && out->Ok_0@ == (RasterModel {
                width: w,
                height: h,
                pixels: p,
            }),
        forall|w: int, h: int, rgb: Seq<u8>|
            1 <= w <= 65535 && 1 <= h <= 65535 && w * h * 4 <= 0x8000000 && rgb.len() == w * h * 3
                && data@ == #[trigger] jpeg_of(w, h, rgb) ==> out is Ok && out->Ok_0@.width == w
                && out->Ok_0@.height == h,
{
    match decode_image(data) {
        Ok(r) => Ok(r),
        Err(message) => Err(DecodeError { message }),
    }
}

/// Drops the alpha channel, yielding the packed RGB8 samples.
#[verifier::loop_isolation(false)]
fn rgb_samples(r: &Raster) -> (out: Vec<u8>)
    requires
        r.wf(),
    ensures
        out@ == strip_alpha(r@),
{
    let ghost m = r@;
    let len: usize = r.pixels.len();
    let quarter: usize = len / 4;
    proof {
        assert(len as int == 4 * (m.width * m.height)) by (nonlinear_arith)
            requires len as int == m.width * m.height * 4;
        lemma_div_multiples_vanish(m.width * m.height, 4);
        assert(quarter == m.width * m.height);
        assert(0 <= m.width * m.height) by (nonlinear_arith)
            requires 0 <= m.width && 0 <= m.height;
    }
    let total: usize = quarter * 3;
    let mut out: Vec<u8> = Vec::new();
    let mut i: usize = 0;
    while i < total
        invariant
            i <= total,
            out@.len() == i,
            total == m.width * m.height * 3,
            forall|j: int| 0 <= j < i ==> out@[j] == m.pixels[(j / 3) * 4 + j % 3],
        decreases total - i,
    {
        proof {
            lemma_multiply_divide_lt(i as int, 3, quarter as int);
            assert((i as int / 3) * 4 + 2 < len) by (nonlinear_arith)
                requires
                    i as int / 3 < quarter as int,
                    len == quarter * 4,
                    0 <= i as int / 3,
            ;
        }
        let v: u8 = r.pixels[(i / 3) * 4 + i % 3];
        out.push(v);
        i = i + 1;
    }
    proof {
        assert(out@ =~= strip_alpha(m));
    }
    out
}

/// Encodes a raster into the requested output format. A degenerate raster
/// (zero width or height) is rejected with `EncodeError::Degenerate`. PNG is
/// lossless and always succeeds on a well-formed, non-degenerate raster.
/// JPEG carries no alpha channel, so the alpha samples are dropped (the
/// format cannot represent them), and it succeeds exactly when both
/// dimensions fit the format's 65535 bound.
pub fn encode(r: &Raster, format: OutputFormat) -> (out: Result<Vec<u8>, EncodeError>)
    requires
        r.wf(),
    ensures
        (r@.width == 0 || r@.height == 0) <==> out is Err && out->Err_0 is Degenerate,
        format is Png && r@.width > 0 && r@.height > 0 ==> out is Ok && out->Ok_0@ == png_of(
            r@.width,
            r@.height,
            r@.pixels,
        ),
        format is Jpeg && r@.width > 0 && r@.height > 0 ==> (out is Ok <==> r@.width <= 65535
            && r@.height <= 65535),
        format is Jpeg && out is Ok ==> out->Ok_0@ == jpeg_of(
            r@.width,
            r@.height,
            strip_alpha(r@),
        ),
{
    if r.width == 0 || r.height == 0 {
        return Err(EncodeError::Degenerate);
    }
    match format {
        OutputFormat::Png => Ok(encode_png_raw(r.width, r.height, &r.pixels)),
        OutputFormat::Jpeg => {
            let rgb = rgb_samples(r);
            match encode_jpeg_raw(r.width, r.height, &rgb) {
                Ok(bytes) => Ok(bytes),
                Err(message) => Err(EncodeError::Codec(message)),
            }
        },
    }
}

/// Lossless round-trip law: decoding the PNG stream encoded from a
/// well-formed, non-degenerate raster reproduces the raster exactly, pixel
/// for pixel. The size bound (128 MiB of samples) keeps the decode well
/// under the codec's default 512 MiB allocation limit.
pub fn png_round_trip(r: &Raster) -> (out: Raster)
    requires
        r.wf(),
        1 <= r@.width,
        1 <= r@.height,
        r@.width * r@.height * 4 <= 0x8000000,
    ensures
        out@ == r@,
{
    let bytes = match encode(r, OutputFormat::Png) {
        Ok(b) => b,
        Err(_) => Vec::new(),
    };
    let back = match decode(bytes.as_slice()) {
        Ok(b) => b,
        Err(_) => Raster { width: 0, height: 0, pixels: Vec::new() },
    };
    proof {
        assert(back@ == r@);
    }
    back
}

} // verus!
