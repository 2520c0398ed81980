//! Decoding pasted clipboard bytes into an RGBA pixel buffer, through the
//! `image` crate. The clipboard service only ever hands over `image/png`
//! content, so the bytes are decoded as PNG, with the format pinned: format
//! guessing would consult the crate's process-global hook registries, whose
//! contents could change what equal bytes decode to.

use vstd::prelude::*;
use crate::geometry::MAX_DIM;

verus! {

/// A decoded RGBA8 pixel buffer: `data` holds the rows top to bottom, four
/// bytes per pixel.
#[derive(Clone, Debug)]
pub struct RawPixels {
    pub width: u32,
    pub height: u32,
    pub data: Vec<u8>,
}

impl RawPixels {
    /// The buffer covers the full extent and the extent fits the renderer's
    /// signed 32-bit coordinates.
    pub open spec fn wf(self) -> bool {
        &&& self.data@.len() >= 4 * self.width * self.height
        &&& self.width <= MAX_DIM
        &&& self.height <= MAX_DIM
    }
}

/// What decoding a byte string as PNG gives: `None` when the bytes are not a
/// decodable PNG image, and otherwise the RGBA8 width, height and pixel data.
/// With the format pinned, decoding is a pure function of the bytes.
pub uninterp spec fn decoded_png_rgba(bytes: Seq<u8>) -> Option<(nat, nat, Seq<u8>)>;

/// Relies on `image::load_from_memory_with_format` with the format pinned to
/// PNG: that path hands the bytes straight to the PNG decoder, under the
/// crate's fixed default decoding limits, and reads nothing but the bytes —
/// in particular it never consults the crate's mutable format-guessing or
/// decoding hook registries, which only unpinned or extension-named formats
/// reach. Malformed input returns an error rather than panicking. Also
/// relies on `image::DynamicImage::to_rgba8` to convert the decode to an
/// RGBA8 buffer of at least `4 * width * height` bytes, as `ImageBuffer`
/// guarantees of its backing container.
#[verifier::external_body]
fn decode_png_rgba(bytes: &Vec<u8>) -> (r: Option<RawPixels>)
    ensures
        r is Some <==> decoded_png_rgba(bytes@) is Some,
        r matches Some(p) ==> {
            &&& decoded_png_rgba(bytes@) == Some((p.width as nat, p.height as nat, p.data@))
            &&& p.data@.len() >= 4 * p.width * p.height
        },
{
    match image::load_from_memory_with_format(bytes, image::ImageFormat::Png) {
        Ok(img) => {
            let rgba = img.to_rgba8();
            let (width, height) = rgba.dimensions();
            Some(RawPixels { width, height, data: rgba.into_raw() })
        },
        Err(_) => None,
    }
}

/// Decodes the clipboard's content for a paste. `None` comes back when the
/// clipboard held no image (`bytes` is `None`), when its bytes do not decode
/// as PNG, or when the decoded extent is too large for the renderer's
/// coordinates — all treated alike, as a silent no-op. Otherwise the decoded
/// RGBA8 buffer comes back, ready to upload.
pub fn decode_pasted_image(bytes: &Option<Vec<u8>>) -> (r: Option<RawPixels>)
    ensures
        r matches Some(p) ==> {
            &&& bytes matches Some(b) && decoded_png_rgba(b@) == Some(
                (p.width as nat, p.height as nat, p.data@),
            )
            &&& p.wf()
        },
        r is None ==> match bytes {
            Some(b) => match decoded_png_rgba(b@) {
                Some(d) => d.0 > MAX_DIM || d.1 > MAX_DIM,
                None => true,
            },
            None => true,
        },
{
    match bytes {
        Some(b) => match decode_png_rgba(b) {
            Some(p) => {
                if p.width <= MAX_DIM && p.height <= MAX_DIM {
                    Some(p)
                } else {
                    None
                }
            },
            None => None,
        },
        None => None,
    }
}

} // verus!
