//! The icon of the tray.

use vstd::prelude::*;
use vstd::string::*;

verus! {

/// The pixels of an icon, row by row, each with its red, green, blue and alpha.
#[derive(Debug)]
pub struct IconPixels {
    pub rgba: Vec<u8>,
    pub width: u32,
    pub height: u32,
}

/// What an [`IconPixels`] stands for.
#[verifier::ext_equal]
pub struct IconView {
    pub rgba: Seq<u8>,
    pub width: u32,
    pub height: u32,
}

impl View for IconPixels {
    type V = IconView;

    open spec fn view(&self) -> IconView {
        IconView { rgba: self.rgba@, width: self.width, height: self.height }
    }
}

/// The pixels, the width and the height of the image that the bytes of a PNG file hold, or else
/// what is said of bytes that hold none.
pub uninterp spec fn png_pixels(bytes: Seq<u8>) -> Result<(Seq<u8>, u32, u32), Seq<char>>;

/// `image::load_from_memory_with_format`, for the format PNG: decodes the bytes, or says why they
/// are no such image. The image is handed out as its pixels in RGBA, its width and its height, and
/// the error as its text; each is a function of the bytes.
#[verifier::external_body]
fn decode_png(bytes: &[u8]) -> (decoded: Result<IconPixels, String>)
    ensures
        png_pixels(bytes@) == match decoded {
            Ok(pixels) => Ok((pixels.rgba@, pixels.width, pixels.height)),
            Err(error) => Err(error@),
        },
{
    match image::load_from_memory_with_format(bytes, image::ImageFormat::Png) {
        Ok(decoded) => {
            let rgba = decoded.to_rgba8();
            let (width, height) = rgba.dimensions();
            Ok(IconPixels { rgba: rgba.into_raw(), width, height })
        },
        Err(error) => Err(error.to_string()),
    }
}

/// Decodes the icon from the bytes of a PNG file, or says why they are none.
pub fn load_icon(bytes: &[u8]) -> (icon: Result<IconPixels, String>)
    ensures
        match png_pixels(bytes@) {
            Ok((rgba, width, height)) => icon matches Ok(icon) && icon@ == (IconView {
                rgba,
                width,
                height,
            }),
            Err(error) => icon matches Err(said) && said@ == error,
        },
{
    decode_png(bytes)
}

/// What the pixels of an icon stand for holds the pixels and their extent.
pub proof fn icons_are_seen_whole(icon: IconPixels)
    ensures
        icon@.rgba == icon.rgba@,
        icon@.width == icon.width,
        icon@.height == icon.height,
{
}

} // verus!
