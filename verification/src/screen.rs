//! Screenshots: turning a captured RGBA frame into the JPEG that is saved and uploaded.

use vstd::prelude::*;
use crate::text::concat_str;

verus! {

/// Whether `len` bytes hold a `width` x `height` RGBA image: the four bytes per pixel, counted
/// as `ImageBuffer` counts them (in `usize`, refusing on overflow), fit in `len`.
pub open spec fn rgba_fits(width: u32, height: u32, len: nat) -> bool {
    &&& 4 * width <= usize::MAX
    &&& 4 * width * height <= usize::MAX
    &&& 4 * width * height <= len
}

/// The name of what JPEG encoding (`DynamicImage::write_to` with `ImageFormat::Jpeg`, quality
/// 75) yields for a `width` x `height` RGBA frame whose pixels are the first 4 * width * height
/// bytes of `rgba`: the JPEG bytes, or the encoder error's description.
pub uninterp spec fn spec_rgba_jpeg(width: u32, height: u32, rgba: Seq<u8>) -> Result<Seq<u8>, Seq<char>>;

/// Builds the frame with `image::ImageBuffer::<Rgba<u8>, Vec<u8>>::from_raw` and encodes it with
/// `DynamicImage::write_to(.., ImageFormat::Jpeg)` into memory; the two calls share one wrapper
/// because `ImageBuffer` cannot be declared here (its `Pixel` bound is a trait of `image`), so
/// the wrapper goes from plain values to plain values. `from_raw` (its
/// `check_image_fits`) refuses exactly when the checked product 4 * width * height overflows
/// `usize` or exceeds the buffer's length: then `None`. Otherwise the encoder's outcome, named
/// `spec_rgba_jpeg`, with an error taken by its `Display` text; the JPEG encoder
/// (`encode_image`) refuses a width or height above 65535 with an error, which is stated too.
#[verifier::external_body]
fn jpeg_from_rgba(width: u32, height: u32, rgba: Vec<u8>) -> (r: Option<Result<Vec<u8>, String>>)
    ensures
        r is None <==> !rgba_fits(width, height, rgba@.len()),
        (width > 65535 || height > 65535) ==> (r matches Some(x) ==> x is Err),
        r matches Some(x) ==> match (x, spec_rgba_jpeg(width, height, rgba@)) {
            (Ok(b), Ok(s)) => b@ == s,
            (Err(m), Err(e)) => m@ == e,
            _ => false,
        },
{
    let img = image::ImageBuffer::<image::Rgba<u8>, Vec<u8>>::from_raw(width, height, rgba)?;
    let mut out = std::io::Cursor::new(Vec::new());
    match image::DynamicImage::ImageRgba8(img).write_to(&mut out, image::ImageFormat::Jpeg) {
        Ok(()) => Some(Ok(out.into_inner())),
        Err(e) => Some(Err(e.to_string())),
    }
}

/// The error when the captured pixels do not make an image.
pub open spec fn buffer_error_msg() -> Seq<char> {
    "Failed to create image buffer"@
}

/// The outcome of encoding a captured frame: refused when the pixels do not fill the frame;
/// otherwise the JPEG bytes, or the encoder's error after "Failed to encode JPEG: ".
pub open spec fn spec_encode_screenshot(width: u32, height: u32, rgba: Seq<u8>) -> Result<Seq<u8>, Seq<char>> {
    if !rgba_fits(width, height, rgba.len()) {
        Err(buffer_error_msg())
    } else {
        match spec_rgba_jpeg(width, height, rgba) {
            Ok(b) => Ok(b),
            Err(e) => Err("Failed to encode JPEG: "@ + e),
        }
    }
}

/// A frame is refused exactly when its pixels do not fill `width` x `height`; otherwise the
/// outcome is the JPEG encoding of the `width`-wide, `height`-high image (the arguments in that
/// order), or that encoder's error.
pub proof fn lemma_screenshot_is_jpeg_of_frame(width: u32, height: u32, rgba: Seq<u8>)
    ensures
        !rgba_fits(width, height, rgba.len()) ==> spec_encode_screenshot(width, height, rgba) == Err::<Seq<u8>, Seq<char>>(
            "Failed to create image buffer"@,
        ),
        rgba_fits(width, height, rgba.len()) ==> spec_encode_screenshot(width, height, rgba) == match spec_rgba_jpeg(
            width,
            height,
            rgba,
        ) {
            Ok(jpeg) => Ok(jpeg),
            Err(e) => Err("Failed to encode JPEG: "@ + e),
        },
        (rgba_fits(width, height, rgba.len()) && spec_rgba_jpeg(width, height, rgba) is Ok) ==> spec_encode_screenshot(
            width,
            height,
            rgba,
        ) == spec_rgba_jpeg(width, height, rgba),
{
}

/// Encodes a captured `width` x `height` RGBA frame as JPEG.
pub fn encode_screenshot(width: u32, height: u32, rgba: Vec<u8>) -> (r: Result<Vec<u8>, String>)
    ensures
        !rgba_fits(width, height, rgba@.len()) ==> (r matches Err(m) && m@ == "Failed to create image buffer"@),
        rgba_fits(width, height, rgba@.len()) ==> match spec_rgba_jpeg(width, height, rgba@) {
            Ok(jpeg) => r matches Ok(b) && b@ == jpeg,
            Err(e) => r matches Err(m) && m@ == "Failed to encode JPEG: "@ + e,
        },
        (width > 65535 || height > 65535) ==> r is Err,
        match (r, spec_encode_screenshot(width, height, rgba@)) {
            (Ok(b), Ok(s)) => b@ == s,
            (Err(m), Err(e)) => m@ == e,
            _ => false,
        },
{
    match jpeg_from_rgba(width, height, rgba) {
        None => Err(String::from_str("Failed to create image buffer")),
        Some(Ok(bytes)) => Ok(bytes),
        Some(Err(e)) => Err(concat_str("Failed to encode JPEG: ", e.as_str())),
    }
}

} // verus!
