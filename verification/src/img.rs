//! Image preparation for embedding: decode the raw file bytes, stretch to
//! exactly 600 by 300 pixels (no aspect-ratio preservation), and re-encode
//! as PNG, a lossless raster format.
//!
//! The decoding, resampling and encoding themselves are done by the `image`
//! crate behind the trusted wrappers below; everything they return is a
//! function of their arguments alone, so each result is given a name that
//! the callers' contracts speak of.

use vstd::prelude::*;

verus! {

/// Why an image could not be prepared for embedding.
#[derive(Debug, Clone, Copy, PartialEq, Eq)]
pub enum ImageFault {
    /// The bytes are not a decodable image.
    Unreadable,
    /// The decoded image could not be re-encoded as PNG.
    Unencodable,
}

#[verifier::external_type_specification]
#[verifier::external_body]
pub struct ExDynamicImage(image::DynamicImage);

#[verifier::external_type_specification]
#[verifier::external_body]
pub struct ExImageError(image::ImageError);

/// What `image::load_from_memory` makes of these bytes: the decoded image,
/// or nothing when they are not a decodable image. Decoding guesses the
/// format from the bytes alone, so the result depends on them alone.
pub uninterp spec fn decoded_image_of(bytes: Seq<u8>) -> Option<image::DynamicImage>;

/// What `DynamicImage::resize_exact` returns for this image and target size
/// under the smooth triangle filter; a function of its arguments alone.
pub uninterp spec fn resized_image_of(
    img: image::DynamicImage,
    width: u32,
    height: u32,
) -> image::DynamicImage;

/// What `DynamicImage::width` returns: the image's width in pixels.
pub uninterp spec fn image_width_of(img: image::DynamicImage) -> u32;

/// What `DynamicImage::height` returns: the image's height in pixels.
pub uninterp spec fn image_height_of(img: image::DynamicImage) -> u32;

/// What `DynamicImage::write_to` produces for this image with the PNG
/// format into an in-memory buffer: the encoded bytes, or nothing when the
/// image's sample format has no PNG representation. The buffer never fails,
/// so the outcome is a function of the image alone.
pub uninterp spec fn png_encoding_of(img: image::DynamicImage) -> Option<Seq<u8>>;

/// Relies on `image::load_from_memory`: guesses the format from the byte
/// content and decodes, returning `Err` exactly when the bytes are not a
/// decodable image.
#[verifier::external_body]
fn decode_image(bytes: &[u8]) -> (r: Result<image::DynamicImage, image::ImageError>)
    ensures
        r is Ok <==> decoded_image_of(bytes@) is Some,
        r matches Ok(img) ==> img == decoded_image_of(bytes@)->Some_0,
{
    image::load_from_memory(bytes)
}

/// Relies on `DynamicImage::resize_exact` with the triangle filter: returns
/// a new image of exactly the requested dimensions, without preserving the
/// aspect ratio.
#[verifier::external_body]
fn resize_image(img: &image::DynamicImage, width: u32, height: u32) -> (r: image::DynamicImage)
    requires
        0 < width,
        0 < height,
    ensures
        r == resized_image_of(*img, width, height),
        image_width_of(r) == width,
        image_height_of(r) == height,
{
    img.resize_exact(width, height, image::imageops::FilterType::Triangle)
}

/// Relies on `DynamicImage::write_to` with `ImageFormat::Png` into an
/// in-memory buffer: it fails exactly when the image's sample format has no
/// PNG representation, and on success the buffer holds the PNG encoding.
#[verifier::external_body]
fn encode_png(img: &image::DynamicImage) -> (r: Result<Vec<u8>, image::ImageError>)
    ensures
        r is Ok <==> png_encoding_of(*img) is Some,
        r matches Ok(b) ==> b@ == png_encoding_of(*img)->Some_0,
{
    let mut out: Vec<u8> = Vec::new();
    match img.write_to(&mut std::io::Cursor::new(&mut out), image::ImageFormat::Png) {
        Ok(()) => Ok(out),
        Err(e) => Err(e),
    }
}

/// The image an embedded node shows: the decoded source, stretched to
/// exactly 600 by 300.
pub open spec fn embedded_image_of(bytes: Seq<u8>) -> image::DynamicImage
    recommends
        decoded_image_of(bytes) is Some,
{
    resized_image_of(decoded_image_of(bytes)->Some_0, 600, 300)
}

/// Prepares one image for embedding: decodes the raw file bytes, stretches
/// them to exactly 600 by 300 pixels, and re-encodes the result as PNG.
///
/// Succeeds exactly when the bytes decode and the stretched image has a PNG
/// representation (every ordinary 8- or 16-bit raster does); then the result
/// is that PNG, exactly 600 pixels wide and 300 high. Returns `Unreadable`
/// exactly when the bytes do not decode, and `Unencodable` exactly when they
/// decode to an image whose stretch PNG cannot carry.
pub fn transform_image(bytes: &[u8]) -> (r: Result<Vec<u8>, ImageFault>)
    ensures
        r is Ok <==> (decoded_image_of(bytes@) is Some && png_encoding_of(
            embedded_image_of(bytes@),
        ) is Some),
        match r {
            Ok(png) => {
                &&& png@ == png_encoding_of(embedded_image_of(bytes@))->Some_0
                &&& image_width_of(embedded_image_of(bytes@)) == 600
                &&& image_height_of(embedded_image_of(bytes@)) == 300
            },
            Err(ImageFault::Unreadable) => decoded_image_of(bytes@) is None,
            Err(ImageFault::Unencodable) => decoded_image_of(bytes@) is Some
                && png_encoding_of(embedded_image_of(bytes@)) is None,
        },
{
    let img = match decode_image(bytes) {
        Ok(img) => img,
        Err(_) => {
            return Err(ImageFault::Unreadable);
        },
    };
    let resized = resize_image(&img, 600, 300);
    match encode_png(&resized) {
        Ok(png) => Ok(png),
        Err(_) => Err(ImageFault::Unencodable),
    }
}

} // verus!
