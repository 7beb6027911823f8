use vstd::prelude::*;
use crate::errors::DecodeError;
use crate::models::RawImage;

verus! {

/// What the image crate's error type is to this library: an opaque token.
#[verifier::external_type_specification]
#[verifier::external_body]
pub struct ExImageError(image::ImageError);

/// The PNG bytes the image crate's encoder produces for an RGBA buffer with
/// the given dimensions, or None when it refuses the buffer. A function of
/// the arguments alone: encoding is deterministic.
pub uninterp spec fn png_of(pixels: Seq<u8>, width: u32, height: u32) -> Option<Seq<u8>>;

/// What the image crate's decoder reads out of a byte stream: the RGBA
/// buffer with its dimensions, or None when the bytes do not decode. A
/// function of the bytes alone.
pub uninterp spec fn png_decode_of(bytes: Seq<u8>) -> Option<(Seq<u8>, u32, u32)>;

/// Relies on image::write_buffer_with_format with the PNG format: encodes an
/// RGBA buffer into PNG bytes, succeeding or failing on the arguments alone.
/// The encoder asserts that the buffer holds exactly four bytes per pixel,
/// so only well-formed captures may reach it.
#[verifier::external_body]
pub(crate) fn encode_png(img: &RawImage) -> (r: Result<Vec<u8>, image::ImageError>)
    requires
        img.wf(),
    ensures
        match r {
            Ok(v) => png_of(img.rgba@, img.width, img.height) == Some(v@),
            Err(_) => png_of(img.rgba@, img.width, img.height) is None,
        },
{
    let mut out: Vec<u8> = Vec::new();
    let mut cursor = std::io::Cursor::new(&mut out);
    match image::write_buffer_with_format(
        &mut cursor,
        img.rgba.as_slice(),
        img.width,
        img.height,
        image::ExtendedColorType::Rgba8,
        image::ImageFormat::Png,
    ) {
        Ok(()) => Ok(out),
        Err(e) => Err(e),
    }
}

/// Relies on image::load_from_memory and DynamicImage::to_rgba8: decodes a
/// byte stream into an RGBA buffer of exactly four bytes per pixel,
/// succeeding or failing on the bytes alone.
#[verifier::external_body]
fn decode_png(bytes: &Vec<u8>) -> (r: Result<RawImage, image::ImageError>)
    ensures
        match r {
            Ok(img) => png_decode_of(bytes@) == Some((img.rgba@, img.width, img.height))
                && img.wf(),
            Err(_) => png_decode_of(bytes@) is None,
        },
{
    match image::load_from_memory(bytes.as_slice()) {
        Ok(decoded) => {
            let buffer = decoded.to_rgba8();
            let width = buffer.width();
            let height = buffer.height();
            Ok(RawImage { rgba: buffer.into_raw(), width, height })
        },
        Err(e) => Err(e),
    }
}

/// Decodes stored image bytes for copy-out. On malformed bytes it reports
/// the failure; nothing is modified either way.
pub fn decode_image(bytes: &Vec<u8>) -> (r: Result<RawImage, DecodeError>)
    ensures
        match r {
            Ok(img) => png_decode_of(bytes@) == Some((img.rgba@, img.width, img.height))
                && img.wf(),
            Err(e) => png_decode_of(bytes@) is None && e == DecodeError::InvalidImage,
        },
{
    match decode_png(bytes) {
        Ok(img) => Ok(img),
        Err(_) => Err(DecodeError::InvalidImage),
    }
}

} // verus!
