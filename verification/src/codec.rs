//! The calls into the `image` crate. Pixel codecs are not part of this
//! library: what they return is known by name only and, where it has to
//! have a shape, checked again by the caller.

use vstd::prelude::*;

verus! {

/// The PNG file that the `image` crate writes for a `width` by `height`
/// image of RGBA pixels, or `None` where it reports an error.
pub uninterp spec fn png_encoding(width: nat, height: nat, rgba: Seq<u8>) -> Option<Seq<u8>>;

/// The JPEG file that the `image` crate writes for a `width` by `height`
/// image of RGB pixels, or `None` where it reports an error.
pub uninterp spec fn jpeg_encoding(width: nat, height: nat, rgb: Seq<u8>) -> Option<Seq<u8>>;

/// What the `image` crate's thumbnail of a `width` by `height` image of
/// RGBA pixels is within the bounds `max_width` by `max_height`: width,
/// height and RGBA pixels, or `None` where the buffer does not hold the
/// image.
pub uninterp spec fn thumbnail_scaling(
    width: nat,
    height: nat,
    rgba: Seq<u8>,
    max_width: nat,
    max_height: nat,
) -> Option<(nat, nat, Seq<u8>)>;

/// What the `image` crate scales a `width` by `height` image of RGBA pixels
/// to when asked for `new_width` by `new_height` with the triangle filter:
/// width, height and RGBA pixels, or `None` where the buffer does not hold
/// the image.
pub uninterp spec fn resize_scaling(
    width: nat,
    height: nat,
    rgba: Seq<u8>,
    new_width: nat,
    new_height: nat,
) -> Option<(nat, nat, Seq<u8>)>;

/// Calls `image::write_buffer_with_format` with the RGBA colour type and the
/// PNG format, writing into memory. The encoder panics on a buffer whose
/// length does not fit the dimensions, so that is required. The file written
/// depends on the dimensions and the pixels alone.
#[verifier::external_body]
pub(crate) fn encode_png(width: u32, height: u32, rgba: &[u8]) -> (out: Result<
    Vec<u8>,
    ::image::ImageError,
>)
    requires
        rgba@.len() == width * height * 4,
    ensures
        match out {
            Ok(bytes) => png_encoding(width as nat, height as nat, rgba@) == Some(bytes@),
            Err(_) => png_encoding(width as nat, height as nat, rgba@) is None,
        },
{
    let mut bytes: Vec<u8> = Vec::new();
    ::image::write_buffer_with_format(
        &mut std::io::Cursor::new(&mut bytes),
        rgba,
        width,
        height,
        ::image::ExtendedColorType::Rgba8,
        ::image::ImageFormat::Png,
    )?;
    Ok(bytes)
}

/// Calls `image::write_buffer_with_format` with the RGB colour type and the
/// JPEG format, writing into memory. The encoder panics on a buffer whose
/// length does not fit the dimensions, so that is required. The file written
/// depends on the dimensions and the pixels alone.
#[verifier::external_body]
pub(crate) fn encode_jpeg(width: u32, height: u32, rgb: &[u8]) -> (out: Result<
    Vec<u8>,
    ::image::ImageError,
>)
    requires
        rgb@.len() == width * height * 3,
    ensures
        match out {
            Ok(bytes) => jpeg_encoding(width as nat, height as nat, rgb@) == Some(bytes@),
            Err(_) => jpeg_encoding(width as nat, height as nat, rgb@) is None,
        },
{
    let mut bytes: Vec<u8> = Vec::new();
    ::image::write_buffer_with_format(
        &mut std::io::Cursor::new(&mut bytes),
        rgb,
        width,
        height,
        ::image::ExtendedColorType::Rgb8,
        ::image::ImageFormat::Jpeg,
    )?;
    Ok(bytes)
}

/// Calls `image::load_from_memory`, which tells the format from the content,
/// and hands the decoded image out as width, height and RGBA pixels. The
/// JPEG decoder picks its code by the processor it runs on, and nothing
/// says that every choice gives the same pixels, so what comes back has no
/// name and nothing is claimed of it.
#[verifier::external_body]
pub(crate) fn decode_rgba(bytes: &[u8]) -> (out: Result<(u32, u32, Vec<u8>), ::image::ImageError>) {
    let decoded = ::image::load_from_memory(bytes)?.to_rgba8();
    Ok((decoded.width(), decoded.height(), decoded.into_raw()))
}

/// Calls `image::DynamicImage::thumbnail` on an RGBA image, which scales it
/// to the largest size that fits the bounds and keeps its aspect ratio.
/// The result takes at most `max(max_width, 1) * max(max_height, 1)` pixels;
/// a buffer too large for a vector makes the crate panic, so the bounds are
/// limited. The crate adds the channel values of up to all pixels of the
/// source in 32 bits, so the source is limited to as many pixels as cannot
/// overflow such a sum. What comes back depends on the arguments alone; nothing else
/// is claimed of it.
#[verifier::external_body]
pub(crate) fn thumbnail_rgba(
    width: u32,
    height: u32,
    rgba: &[u8],
    max_width: u32,
    max_height: u32,
) -> (out: Option<(u32, u32, Vec<u8>)>)
    requires
        rgba@.len() == width * height * 4,
        width >= 1,
        height >= 1,
        width * height <= 16_777_216,
        max_width >= 1,
        max_height >= 1,
        max_width * max_height * 4 <= isize::MAX,
    ensures
        match out {
            Some((w, h, pixels)) => thumbnail_scaling(
                width as nat,
                height as nat,
                rgba@,
                max_width as nat,
                max_height as nat,
            ) == Some((w as nat, h as nat, pixels@)),
            None => thumbnail_scaling(
                width as nat,
                height as nat,
                rgba@,
                max_width as nat,
                max_height as nat,
            ) is None,
        },
{
    let source = ::image::RgbaImage::from_raw(width, height, rgba.to_vec())?;
    let scaled = ::image::DynamicImage::ImageRgba8(source).thumbnail(max_width, max_height).to_rgba8();
    Some((scaled.width(), scaled.height(), scaled.into_raw()))
}

/// Calls `image::imageops::resize` with the triangle filter on an RGBA
/// image. The crate first scales the rows into a buffer of sixteen bytes per
/// pixel, then the columns; a buffer too large for a vector makes it panic,
/// so both sizes are limited. It places the pixels in 32-bit floats, which
/// is exact enough only while no side exceeds 65,535, so the sides are
/// limited too. What comes back depends on the arguments alone; nothing
/// else is claimed of it.
#[verifier::external_body]
pub(crate) fn resize_rgba(width: u32, height: u32, rgba: &[u8], new_width: u32, new_height: u32) -> (out:
    Option<(u32, u32, Vec<u8>)>)
    requires
        rgba@.len() == width * height * 4,
        width >= 1,
        height >= 1,
        new_width >= 1,
        new_height >= 1,
        width <= 65_535,
        height <= 65_535,
        new_width <= 65_535,
        new_height <= 65_535,
        width * new_height * 16 <= isize::MAX,
        new_width * new_height * 16 <= isize::MAX,
    ensures
        match out {
            Some((w, h, pixels)) => resize_scaling(
                width as nat,
                height as nat,
                rgba@,
                new_width as nat,
                new_height as nat,
            ) == Some((w as nat, h as nat, pixels@)),
            None => resize_scaling(
                width as nat,
                height as nat,
                rgba@,
                new_width as nat,
                new_height as nat,
            ) is None,
        },
{
    let source = ::image::RgbaImage::from_raw(width, height, rgba.to_vec())?;
    let scaled = ::image::imageops::resize(
        &source,
        new_width,
        new_height,
        ::image::imageops::FilterType::Triangle,
    );
    Some((scaled.width(), scaled.height(), scaled.into_raw()))
}

} // verus!
