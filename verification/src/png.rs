//! Pictures in PNG.
use crate::remote_desktop::{MAX_DESKTOP_HEIGHT, MAX_DESKTOP_WIDTH};
use crate::tiles;
use image::ImageEncoder;
use vstd::prelude::*;

verus! {

/// The PNG file of a picture of four bytes per pixel.
pub uninterp spec fn png_bytes(rgba: Seq<u8>, width: u32, height: u32) -> Seq<u8>;

/// The picture in a PNG file, as its width, its height and four bytes per pixel; nothing where the
/// bytes are no such file.
pub uninterp spec fn png_picture(bytes: Seq<u8>) -> Option<(u32, u32, Seq<u8>)>;

#[verifier::external_type_specification]
#[verifier::external_body]
pub struct ExImageError(image::ImageError);

/// `image::codecs::png::PngEncoder` with fast compression and adaptive filters, writing to memory:
/// the PNG file of the picture. It panics where the pixels are not as many as the size says. A
/// picture without pixels makes no file. Of pictures no larger than a shared desktop it is claimed
/// that every other one makes a file; that reading the file gives the picture back, since PNG loses
/// nothing; and that the file is not much longer than the pixels, since the encoder stores what
/// compression would make longer, with one byte more for each row.
#[verifier::external_body]
pub(crate) fn encode_png(rgba: &[u8], width: u32, height: u32) -> (r: Result<
    Vec<u8>,
    image::ImageError,
>)
    requires
        rgba@.len() == tiles::picture_len(width, height),
    ensures
        width == 0 || height == 0 ==> r is Err,
        0 < width <= MAX_DESKTOP_WIDTH && 0 < height <= MAX_DESKTOP_HEIGHT ==> r is Ok,
        r matches Ok(bytes) ==> bytes@ == png_bytes(rgba@, width, height),
        r matches Ok(bytes) ==> (width <= MAX_DESKTOP_WIDTH && height <= MAX_DESKTOP_HEIGHT ==> {
            &&& png_picture(bytes@) == Some((width, height, rgba@))
            &&& bytes@.len() <= 2 * rgba@.len() + 1024
        }),
{
    let mut bytes = Vec::new();
    image::codecs::png::PngEncoder::new_with_quality(
        &mut bytes,
        image::codecs::png::CompressionType::Fast,
        image::codecs::png::FilterType::Adaptive,
    ).write_image(rgba, width, height, image::ColorType::Rgba8.into())?;
    Ok(bytes)
}

/// `image::load_from_memory_with_format` for PNG, and `DynamicImage::to_rgba8` of what it gives:
/// the picture in the file. What is accepted is given a name; the pixels are as many as the size
/// says.
#[verifier::external_body]
pub(crate) fn decode_png(bytes: &[u8]) -> (r: Result<(u32, u32, Vec<u8>), image::ImageError>)
    ensures
        png_picture(bytes@) == match r {
            Ok((width, height, rgba)) => Some((width, height, rgba@)),
            Err(_) => None,
        },
        r matches Ok((width, height, rgba)) ==> rgba@.len() == tiles::picture_len(width, height),
{
    let image = image::load_from_memory_with_format(bytes, image::ImageFormat::Png)?.to_rgba8();
    Ok((image.width(), image.height(), image.into_raw()))
}

}
