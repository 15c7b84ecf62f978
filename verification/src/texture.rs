//! Loading an encoded image into the layout of an RGBA8 texture upload.

use vstd::prelude::*;

verus! {

#[verifier::external_type_specification]
#[verifier::external_body]
pub struct ExImageError(image::ImageError);

/// A decoded image with 8-bit RGBA pixels, row after row.
pub struct Rgba8Image {
    pub width: u32,
    pub height: u32,
    pub pixels: Vec<u8>,
}

/// What decoding `bytes` as a PNG image and converting the picture to 8-bit
/// RGBA gives: width, height and pixel bytes, or nothing where `bytes` is not
/// a PNG image the decoder reads.
pub uninterp spec fn decoded_rgba8(bytes: Seq<u8>) -> Option<(u32, u32, Seq<u8>)>;

/// Decodes `bytes` as PNG with `image::load_from_memory_with_format` and
/// converts the result with `DynamicImage::to_rgba8`. With the format fixed,
/// the decoder is chosen without the crate's process-wide detection and
/// decoding hooks, so the outcome is a function of the bytes alone, named
/// `decoded_rgba8`: an error exactly where that name gives nothing, and
/// otherwise the width, height and raw pixel buffer of the converted image.
/// The buffer holds four bytes per pixel (the decoder allocates exactly
/// `width * height` pixels and the conversion keeps that count). For a PNG
/// whose pixels are 8-bit RGBA the conversion hands the decoded buffer back
/// unchanged, alpha included; other colour types gain an opaque alpha. What
/// the decoder accepts and which pixels it produces is not stated.
#[verifier::external_body]
fn decode_rgba8(bytes: &[u8]) -> (result: Result<Rgba8Image, image::ImageError>)
    ensures
        match result {
            Ok(img) => {
                &&& decoded_rgba8(bytes@) == Some((img.width, img.height, img.pixels@))
                &&& img.pixels@.len() == 4 * img.width * img.height
            },
            Err(_) => decoded_rgba8(bytes@) is None,
        },
{
    match image::load_from_memory_with_format(bytes, image::ImageFormat::Png) {
        Ok(decoded) => {
            let rgba = decoded.to_rgba8();
            let (width, height): (u32, u32) = rgba.dimensions();
            Ok(Rgba8Image { width, height, pixels: rgba.into_raw() })
        },
        Err(e) => Err(e),
    }
}

/// Everything a texture upload needs: the extent, the byte layout of the
/// rows, and the pixels.
pub struct TextureUpload {
    pub width: u32,
    pub height: u32,
    pub bytes_per_row: u32,
    pub rows_per_image: u32,
    pub pixels: Vec<u8>,
}

/// Why an encoded texture could not be prepared for upload.
#[derive(Debug)]
pub enum TextureLoadError {
    /// The decoder rejected the bytes.
    Decode(image::ImageError),
    /// A row of the image holds more than `u32::MAX` bytes.
    RowTooWide,
}

/// The upload of an RGBA8 image: four bytes per pixel, one image of
/// `height` rows.
pub fn texture_upload(image: Rgba8Image) -> (upload: TextureUpload)
    requires
        4 * image.width <= u32::MAX,
    ensures
        upload.width == image.width,
        upload.height == image.height,
        upload.bytes_per_row == 4 * image.width,
        upload.rows_per_image == image.height,
        upload.pixels@ == image.pixels@,
        image.pixels@.len() == 4 * image.width * image.height ==> upload.pixels@.len()
            == upload.bytes_per_row * upload.rows_per_image,
{
    TextureUpload {
        width: image.width,
        height: image.height,
        bytes_per_row: 4 * image.width,
        rows_per_image: image.height,
        pixels: image.pixels,
    }
}

/// The upload of a decoded image where its rows fit the `u32` row pitch:
/// `RowTooWide` where `4 * width` exceeds `u32::MAX`, and otherwise the
/// upload of `texture_upload`.
pub fn checked_texture_upload(image: Rgba8Image) -> (result: Result<TextureUpload, TextureLoadError>)
    ensures
        4 * image.width <= u32::MAX ==> {
            &&& result is Ok
            &&& result->Ok_0.width == image.width
            &&& result->Ok_0.height == image.height
            &&& result->Ok_0.bytes_per_row == 4 * image.width
            &&& result->Ok_0.rows_per_image == image.height
            &&& result->Ok_0.pixels@ == image.pixels@
        },
        4 * image.width > u32::MAX ==> result matches Err(TextureLoadError::RowTooWide),
{
    if image.width <= u32::MAX / 4 {
        Ok(texture_upload(image))
    } else {
        Err(TextureLoadError::RowTooWide)
    }
}

/// Decodes a PNG image and lays it out for upload as an RGBA8 texture: the
/// pixels fill exactly `bytes_per_row * rows_per_image` bytes. Fails with
/// `Decode` where the decoder rejects the bytes, and with `RowTooWide` where
/// a row's byte count does not fit in `u32`.
pub fn load_rgba8_texture(bytes: &[u8]) -> (result: Result<TextureUpload, TextureLoadError>)
    ensures
        match decoded_rgba8(bytes@) {
            None => result matches Err(TextureLoadError::Decode(_)),
            Some((w, h, px)) => if 4 * w <= u32::MAX {
                &&& result is Ok
                &&& result->Ok_0.width == w
                &&& result->Ok_0.height == h
                &&& result->Ok_0.bytes_per_row == 4 * w
                &&& result->Ok_0.rows_per_image == h
                &&& result->Ok_0.pixels@ == px
            } else {
                result matches Err(TextureLoadError::RowTooWide)
            },
        },
        result is Ok ==> result->Ok_0.pixels@.len() == result->Ok_0.bytes_per_row * result->Ok_0.rows_per_image,
{
    match decode_rgba8(bytes) {
        Ok(image) => checked_texture_upload(image),
        Err(e) => Err(TextureLoadError::Decode(e)),
    }
}

} // verus!
