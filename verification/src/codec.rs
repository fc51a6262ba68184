//! Encoding edges: base64 rendering of binary payloads and PNG
//! encoding/decoding of raster images, provided by outside crates behind
//! trusted wrappers.

use vstd::prelude::*;
use vstd::string::StrSliceExecFns;
use vstd::string::StringSliceAdditionalSpecFns;
use base64::Engine;

verus! {

/// The standard base64 rendering (with padding) of a byte sequence, as
/// `base64`'s standard engine produces it. The alphabet table is not
/// restated here; the encoding is a function of the input bytes alone.
pub uninterp spec fn base64_std_of(b: Seq<u8>) -> Seq<u8>;

/// Length of the padded base64 rendering of `n` input bytes: four output
/// bytes for every started group of three input bytes.
pub open spec fn base64_len_of(n: int) -> int {
    4 * ((n + 2) / 3)
}

/// The payload is small enough that its base64 rendering (and the data URI
/// around it) cannot overflow a byte count. A comfortable sufficient
/// bound, far above any clipboard payload that fits in memory.
pub open spec fn fits_base64(n: int) -> bool {
    8 * n <= usize::MAX as int
}

/// Runtime check of [`fits_base64`].
pub fn payload_len_fits(n: usize) -> (r: bool)
    ensures
        r == fits_base64(n as int),
{
    n <= usize::MAX / 8
}

/// Relies on base64's standard engine: `encode` returns the padded base64
/// rendering of the input, four output bytes per started group of three
/// input bytes. The input bound keeps the engine's output-size computation
/// from overflowing, on which it panics.
#[verifier::external_body]
fn base64_encode(b: &Vec<u8>) -> (r: Vec<u8>)
    requires
        fits_base64(b@.len() as int),
    ensures
        r@ == base64_std_of(b@),
        r@.len() == base64_len_of(b@.len() as int),
{
    base64::engine::general_purpose::STANDARD.encode(b.as_slice()).into_bytes()
}

/// The `data:` URI under which a PNG payload is handed to listeners.
pub open spec fn data_uri_of(b: Seq<u8>) -> Seq<u8> {
    "data:image/png;base64,".spec_bytes() + base64_std_of(b)
}

/// Renders a PNG payload as a base64 data URI.
pub fn data_uri_png(bytes: &Vec<u8>) -> (r: Vec<u8>)
    requires
        fits_base64(bytes@.len() as int),
    ensures
        r@ == data_uri_of(bytes@),
{
    let mut r = "data:image/png;base64,".as_bytes_vec();
    let encoded = base64_encode(bytes);
    let n = encoded.len();
    let mut i: usize = 0;
    while i < n
        invariant
            n == encoded.len(),
            0 <= i <= n,
            r@ == "data:image/png;base64,".spec_bytes() + encoded@.take(i as int),
        decreases n - i,
    {
        r.push(encoded[i]);
        proof {
            assert(r@ =~= "data:image/png;base64,".spec_bytes() + encoded@.take(i + 1 as int));
        }
        i += 1;
    }
    proof {
        assert(encoded@.take(n as int) =~= encoded@);
    }
    r
}

/// The PNG encoding of a `width` x `height` RGBA (8 bits per channel,
/// row-major, top-down) pixel buffer, as the `image` crate's PNG encoder
/// produces it: a function of the dimensions and pixel bytes alone.
pub uninterp spec fn png_of(width: u32, height: u32, rgba: Seq<u8>) -> Seq<u8>;

/// Relies on image's `ImageBuffer::from_raw` and `DynamicImage::write_to`
/// with the PNG format: with a buffer of exactly four bytes per pixel,
/// encoding into memory succeeds if and only if both dimensions are
/// non-zero (the PNG encoder rejects zero-dimension images; writing to a
/// vector cannot fail otherwise). The size bound keeps the buffer within
/// the PNG encoder's chunk limits.
#[verifier::external_body]
pub(crate) fn encode_png(width: u32, height: u32, rgba: &Vec<u8>) -> (r: Option<Vec<u8>>)
    requires
        rgba@.len() == 4 * (width as int) * (height as int),
        4 * (width as int) * (height as int) <= 0x7fffffff,
    ensures
        r is Some <==> (width > 0 && height > 0),
        r matches Some(png) ==> png@ == png_of(width, height, rgba@),
{
    let buffer: image::ImageBuffer<image::Rgba<u8>, Vec<u8>> = image::ImageBuffer::from_raw(
        width,
        height,
        rgba.clone(),
    )?;
    let mut cursor = std::io::Cursor::new(Vec::new());
    match image::DynamicImage::ImageRgba8(buffer).write_to(&mut cursor, image::ImageFormat::Png) {
        Ok(()) => Some(cursor.into_inner()),
        Err(_) => None,
    }
}

/// What decoding an image byte stream yields: `None` when the bytes are
/// not a decodable image, otherwise the dimensions and the RGBA (8 bits
/// per channel, row-major, top-down) pixel buffer. A function of the input
/// bytes alone.
pub uninterp spec fn decoded_image(bytes: Seq<u8>) -> Option<(u32, u32, Seq<u8>)>;

/// Relies on image's `load_from_memory` (format guessed from the bytes)
/// and `DynamicImage::to_rgba8`: decoding is a function of the bytes
/// alone, and a decoded RGBA buffer holds exactly four bytes per pixel.
#[verifier::external_body]
pub(crate) fn decode_image(bytes: &Vec<u8>) -> (r: Option<(u32, u32, Vec<u8>)>)
    ensures
        r is Some <==> decoded_image(bytes@) is Some,
        r matches Some((w, h, p)) ==> decoded_image(bytes@) == Some((w, h, p@))
            && p@.len() == 4 * (w as int) * (h as int),
{
    match image::load_from_memory(bytes.as_slice()) {
        Ok(img) => {
            let rgba = img.to_rgba8();
            let (w, h) = rgba.dimensions();
            Some((w, h, rgba.into_raw()))
        },
        Err(_) => None,
    }
}

} // verus!
