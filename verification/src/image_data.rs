//! Decoded images: one immutable pixel buffer with its dimensions.

use vstd::prelude::*;
use vstd::arithmetic::div_mod::lemma_div_multiples_vanish;
use crate::codec::{
    decode_rgba,
    encode_jpeg,
    encode_png,
    jpeg_encoding,
    png_encoding,
    resize_rgba,
    resize_scaling,
    thumbnail_rgba,
    thumbnail_scaling,
};
use crate::dib::{dib_bytes, dib_image, encodable, is_dib};
use crate::error::ClipboardError;

verus! {

/// How the bytes of a pixel buffer are laid out: eight bits per channel,
/// red first, with or without an alpha channel.
#[derive(Debug, Clone, Copy, PartialEq, Eq, Structural)]
pub enum PixelFormat {
    Rgb8,
    Rgba8,
}

impl PixelFormat {
    /// The number of bytes that one pixel takes.
    pub open spec fn channels(self) -> nat {
        match self {
            PixelFormat::Rgb8 => 3,
            PixelFormat::Rgba8 => 4,
        }
    }

    /// The number of bytes that one pixel takes.
    pub fn bytes_per_pixel(self) -> (n: usize)
        ensures
            n == self.channels(),
    {
        match self {
            PixelFormat::Rgb8 => 3,
            PixelFormat::Rgba8 => 4,
        }
    }
}

/// The mathematical value of an image: rows from top to bottom, pixels
/// from left to right, `format.channels()` bytes per pixel.
pub struct ImageModel {
    pub width: nat,
    pub height: nat,
    pub format: PixelFormat,
    pub pixels: Seq<u8>,
}

impl ImageModel {
    /// The number of bytes that one pixel takes.
    pub open spec fn channels(self) -> nat {
        self.format.channels()
    }

    /// The buffer holds exactly one value per channel of every pixel.
    pub open spec fn wf(self) -> bool {
        self.pixels.len() == self.width * self.height * self.channels()
    }

    /// The pixels with an alpha channel: an image without one is opaque
    /// everywhere.
    pub open spec fn rgba(self) -> Seq<u8> {
        Seq::new(
            self.width * self.height * 4,
            |i: int|
                if self.format == PixelFormat::Rgba8 {
                    self.pixels[i]
                } else if i % 4 == 3 {
                    255u8
                } else {
                    self.pixels[i / 4 * 3 + i % 4]
                },
        )
    }

    /// The pixels without an alpha channel.
    pub open spec fn rgb(self) -> Seq<u8> {
        Seq::new(
            self.width * self.height * 3,
            |i: int|
                if self.format == PixelFormat::Rgb8 {
                    self.pixels[i]
                } else {
                    self.pixels[i / 3 * 4 + i % 3]
                },
        )
    }

    /// The position in the buffer of channel `c` of the pixel in column `x`
    /// of row `y`.
    pub open spec fn offset(self, x: int, y: int, c: int) -> int {
        (y * self.width + x) * self.channels() + c
    }
}

/// The RGBA image of the given size over `pixels`.
pub open spec fn rgba_image(width: nat, height: nat, pixels: Seq<u8>) -> ImageModel {
    ImageModel { width, height, format: PixelFormat::Rgba8, pixels }
}

/// The longest side that an image may have, before and after, to be
/// resized: the scaler places pixels in 32-bit floats.
pub const MAX_RESIZE_SIDE: u32 = 65_535;

/// The most pixels that an image may have to be given a thumbnail: as
/// many as cannot overflow a sum of channel values in 32 bits.
pub const MAX_THUMBNAIL_SOURCE: u64 = 16_777_216;

/// Whether `out` is what the codec's answer `answer` to a decoding request
/// gives: the decoded image where its pixels fit its size,
/// `InvalidImageData` where they do not, and the codec's error wrapped as
/// `ImageLibraryError`.
pub open spec fn decoder_gives(
    answer: Result<(u32, u32, Vec<u8>), ::image::ImageError>,
    out: Result<ImageData, ClipboardError>,
) -> bool {
    match answer {
        Ok((width, height, pixels)) => if pixels@.len() == width * height * 4 {
            out is Ok && out.unwrap()@ == rgba_image(width as nat, height as nat, pixels@)
        } else {
            out == Err::<ImageData, ClipboardError>(ClipboardError::InvalidImageData)
        },
        Err(e) => out == Err::<ImageData, ClipboardError>(ClipboardError::ImageLibraryError(e)),
    }
}

/// Whether `out` is what the scaler's answer `answer` gives under the
/// limits `max_width` by `max_height`: the scaled image where it stays
/// within the limits and its pixels fit its size, `InvalidImageData`
/// otherwise.
pub open spec fn scales_to(
    answer: Option<(nat, nat, Seq<u8>)>,
    max_width: nat,
    max_height: nat,
    out: Result<ImageData, ClipboardError>,
) -> bool {
    match answer {
        Some((width, height, pixels)) => if width <= max_width && height <= max_height
            && pixels.len() == width * height * 4 {
            out is Ok && out.unwrap()@ == rgba_image(width, height, pixels)
        } else {
            out == Err::<ImageData, ClipboardError>(ClipboardError::InvalidImageData)
        },
        None => out == Err::<ImageData, ClipboardError>(ClipboardError::InvalidImageData),
    }
}

/// A decoded image. The buffer never changes once the value exists.
#[derive(Debug)]
pub struct ImageData {
    width: u32,
    height: u32,
    format: PixelFormat,
    pixels: Vec<u8>,
}

impl View for ImageData {
    type V = ImageModel;

    closed spec fn view(&self) -> ImageModel {
        ImageModel {
            width: self.width as nat,
            height: self.height as nat,
            format: self.format,
            pixels: self.pixels@,
        }
    }
}

impl ImageData {
    #[verifier::type_invariant]
    spec fn consistent(self) -> bool {
        self.pixels@.len() == self.width * self.height * self.format.channels()
    }

    /// An image over raw pixels. The buffer must hold exactly
    /// `width * height` pixels of `format`; any other length is refused
    /// with `InvalidImageData`.
    pub fn from_raw(width: u32, height: u32, format: PixelFormat, pixels: Vec<u8>) -> (out: Result<
        ImageData,
        ClipboardError,
    >)
        ensures
            pixels@.len() == width * height * format.channels() ==> out is Ok && out.unwrap()@ == (
            ImageModel { width: width as nat, height: height as nat, format, pixels: pixels@ }),
            pixels@.len() != width * height * format.channels() ==> out
                == Err::<ImageData, ClipboardError>(ClipboardError::InvalidImageData),
    {
        assert(width * height <= 0xffff_ffff * 0xffff_ffff) by (nonlinear_arith)
            requires
                width <= 0xffff_ffff,
                height <= 0xffff_ffff,
        ;
        let area: u128 = (width as u128) * (height as u128);
        let expected: u128 = area * (format.bytes_per_pixel() as u128);
        if pixels.len() as u128 == expected {
            Ok(ImageData { width, height, format, pixels })
        } else {
            Err(ClipboardError::InvalidImageData)
        }
    }

    /// The number of pixel columns.
    pub fn width(&self) -> (w: u32)
        ensures
            w == self@.width,
            self@.wf(),
    {
        proof {
            use_type_invariant(self);
        }
        self.width
    }

    /// The number of pixel rows.
    pub fn height(&self) -> (h: u32)
        ensures
            h == self@.height,
            self@.wf(),
    {
        proof {
            use_type_invariant(self);
        }
        self.height
    }

    /// The layout of the pixel buffer.
    pub fn format(&self) -> (f: PixelFormat)
        ensures
            f == self@.format,
            self@.wf(),
    {
        proof {
            use_type_invariant(self);
        }
        self.format
    }

    /// The device-independent bitmap of this image, the transfer encoding
    /// of images on Windows. Fails with `CreateDibFailed` when the image has
    /// no bitmap.
    pub fn to_bitmap(&self) -> (out: Result<Vec<u8>, ClipboardError>)
        ensures
            encodable(self@) ==> out is Ok && out.unwrap()@ == dib_bytes(self@),
            !encodable(self@) ==> out == Err::<Vec<u8>, ClipboardError>(
                ClipboardError::CreateDibFailed,
            ),
    {
        crate::dib::encode(self)
    }

    /// The image that a device-independent bitmap stands for. Fails with
    /// `InvalidBitmapData` when `bytes` is not an accepted bitmap.
    pub fn from_bitmap(bytes: &[u8]) -> (out: Result<ImageData, ClipboardError>)
        ensures
            is_dib(bytes@) ==> out is Ok && out.unwrap()@ == dib_image(bytes@),
            !is_dib(bytes@) ==> out == Err::<ImageData, ClipboardError>(
                ClipboardError::InvalidBitmapData,
            ),
    {
        crate::dib::decode(bytes)
    }

    /// The number of pixels.
    fn pixel_count(&self) -> (n: usize)
        ensures
            n == self@.width * self@.height,
            self@.wf(),
    {
        proof {
            use_type_invariant(self);
            lemma_div_multiples_vanish(
                self.width * self.height,
                self.format.channels() as int,
            );
            assert(self.width * self.height * self.format.channels() == self.format.channels() * (
            self.width * self.height)) by (nonlinear_arith);
        }
        self.pixels.len() / self.format.bytes_per_pixel()
    }

    /// The pixels as red, green, blue and alpha.
    pub fn rgba_bytes(&self) -> (out: Vec<u8>)
        ensures
            out@ == self@.rgba(),
            self@.wf(),
    {
        let n = self.pixel_count();
        let ch = self.format.bytes_per_pixel();
        let ghost target = self@.rgba();
        let total: usize = self.pixels.len();
        let mut out: Vec<u8> = Vec::new();
        let mut p: usize = 0;
        assert(out@ =~= target.take(0));
        while p < n
            invariant
                target == self@.rgba(),
                total == self.pixels@.len(),
                n == self@.width * self@.height,
                self@.wf(),
                ch == self@.channels(),
                0 <= p <= n,
                out@ == target.take(4 * p),
            decreases n - p,
        {
            assert(n * ch == self.pixels@.len()) by (nonlinear_arith)
                requires
                    self.pixels@.len() == self.width * self.height * ch,
                    n == self.width * self.height,
            ;
            assert(0 <= p * ch && p * ch + ch <= n * ch) by (nonlinear_arith)
                requires
                    0 <= p < n,
                    ch >= 3,
            ;
            let base: usize = p * ch;
            out.push(self.pixels[base]);
            out.push(self.pixels[base + 1]);
            out.push(self.pixels[base + 2]);
            if ch == 4 {
                out.push(self.pixels[base + 3]);
            } else {
                out.push(255u8);
            }
            p += 1;
            assert(out@ =~= target.take(4 * p));
        }
        assert(target.take(4 * n) =~= target);
        out
    }

    /// The pixels as red, green and blue.
    pub fn rgb_bytes(&self) -> (out: Vec<u8>)
        ensures
            out@ == self@.rgb(),
            self@.wf(),
    {
        let n = self.pixel_count();
        let ch = self.format.bytes_per_pixel();
        let ghost target = self@.rgb();
        let total: usize = self.pixels.len();
        let mut out: Vec<u8> = Vec::new();
        let mut p: usize = 0;
        assert(out@ =~= target.take(0));
        while p < n
            invariant
                target == self@.rgb(),
                total == self.pixels@.len(),
                n == self@.width * self@.height,
                self@.wf(),
                ch == self@.channels(),
                0 <= p <= n,
                out@ == target.take(3 * p),
            decreases n - p,
        {
            assert(n * ch == self.pixels@.len()) by (nonlinear_arith)
                requires
                    self.pixels@.len() == self.width * self.height * ch,
                    n == self.width * self.height,
            ;
            assert(0 <= p * ch && p * ch + ch <= n * ch) by (nonlinear_arith)
                requires
                    0 <= p < n,
                    ch >= 3,
            ;
            let base: usize = p * ch;
            out.push(self.pixels[base]);
            out.push(self.pixels[base + 1]);
            out.push(self.pixels[base + 2]);
            p += 1;
            assert(out@ =~= target.take(3 * p));
        }
        assert(target.take(3 * n) =~= target);
        out
    }

    /// What a codec's answer to an encoding request means to the caller:
    /// the bytes, or the codec's error wrapped as `ImageLibraryError`.
    pub fn from_encoder(answer: Result<Vec<u8>, ::image::ImageError>) -> (out: Result<
        Vec<u8>,
        ClipboardError,
    >)
        ensures
            match answer {
                Ok(bytes) => out == Ok::<Vec<u8>, ClipboardError>(bytes),
                Err(e) => out == Err::<Vec<u8>, ClipboardError>(
                    ClipboardError::ImageLibraryError(e),
                ),
            },
    {
        match answer {
            Ok(bytes) => Ok(bytes),
            Err(e) => Err(ClipboardError::ImageLibraryError(e)),
        }
    }

    /// What a codec's answer to a decoding request means to the caller: an
    /// image over the RGBA pixels where they fit the dimensions,
    /// `InvalidImageData` where they do not, and the codec's error wrapped
    /// as `ImageLibraryError`.
    pub fn from_decoder(answer: Result<(u32, u32, Vec<u8>), ::image::ImageError>) -> (out: Result<
        ImageData,
        ClipboardError,
    >)
        ensures
            decoder_gives(answer, out),
    {
        match answer {
            Ok((width, height, pixels)) => ImageData::from_raw(
                width,
                height,
                PixelFormat::Rgba8,
                pixels,
            ),
            Err(e) => Err(ClipboardError::ImageLibraryError(e)),
        }
    }

    /// What a scaling request's answer means to the caller: an image over
    /// the RGBA pixels where they fit the dimensions and the dimensions stay
    /// within the limits, `InvalidImageData` otherwise.
    pub fn from_scaler(answer: Option<(u32, u32, Vec<u8>)>, max_width: u32, max_height: u32) -> (out:
        Result<ImageData, ClipboardError>)
        ensures
            match answer {
                Some((width, height, pixels)) => if width <= max_width && height <= max_height
                    && pixels@.len() == width * height * 4 {
                    out is Ok && out.unwrap()@ == (ImageModel {
                        width: width as nat,
                        height: height as nat,
                        format: PixelFormat::Rgba8,
                        pixels: pixels@,
                    })
                } else {
                    out == Err::<ImageData, ClipboardError>(ClipboardError::InvalidImageData)
                },
                None => out == Err::<ImageData, ClipboardError>(ClipboardError::InvalidImageData),
            },
    {
        match answer {
            Some((width, height, pixels)) => {
                if width <= max_width && height <= max_height {
                    ImageData::from_raw(width, height, PixelFormat::Rgba8, pixels)
                } else {
                    Err(ClipboardError::InvalidImageData)
                }
            },
            None => Err(ClipboardError::InvalidImageData),
        }
    }

    /// Decodes an image file held in memory. The format is told from the
    /// content. The image comes back as RGBA; a file that the codec refuses
    /// gives `ImageLibraryError`, and decoded pixels that do not fit the
    /// decoded size give `InvalidImageData`. What the codec answers is not
    /// known here: the result is what `from_decoder` makes of some answer.
    pub fn from_bytes(buf: &[u8]) -> (out: Result<ImageData, ClipboardError>)
        ensures
            exists|answer: Result<(u32, u32, Vec<u8>), ::image::ImageError>|
                #[trigger] decoder_gives(answer, out),
            out matches Ok(image) ==> image@.format == PixelFormat::Rgba8 && image@.wf(),
            out matches Err(e) ==> e is ImageLibraryError || e is InvalidImageData,
    {
        ImageData::from_decoder(decode_rgba(buf))
    }

    /// This image as a PNG file with an alpha channel.
    pub fn to_png(&self) -> (out: Result<Vec<u8>, ClipboardError>)
        ensures
            match png_encoding(self@.width, self@.height, self@.rgba()) {
                Some(bytes) => out is Ok && out.unwrap()@ == bytes,
                None => out matches Err(e) && e is ImageLibraryError,
            },
    {
        let rgba = self.rgba_bytes();
        ImageData::from_encoder(encode_png(self.width, self.height, rgba.as_slice()))
    }

    /// This image as a JPEG file; the alpha channel is dropped.
    pub fn to_jpeg(&self) -> (out: Result<Vec<u8>, ClipboardError>)
        ensures
            match jpeg_encoding(self@.width, self@.height, self@.rgb()) {
                Some(bytes) => out is Ok && out.unwrap()@ == bytes,
                None => out matches Err(e) && e is ImageLibraryError,
            },
    {
        let rgb = self.rgb_bytes();
        ImageData::from_encoder(encode_jpeg(self.width, self.height, rgb.as_slice()))
    }

    /// Whether an image of `width` by `height` pixels at `bytes_per_pixel`
    /// bytes each fits a buffer.
    pub open spec fn fits(width: u32, height: u32, bytes_per_pixel: nat) -> bool {
        width * height * bytes_per_pixel <= isize::MAX
    }

    fn check_fits(width: u32, height: u32, bytes_per_pixel: u8) -> (ok: bool)
        requires
            bytes_per_pixel <= 16,
        ensures
            ok == Self::fits(width, height, bytes_per_pixel as nat),
    {
        assert(width * height <= 0xffff_ffff * 0xffff_ffff) by (nonlinear_arith)
            requires
                width <= 0xffff_ffff,
                height <= 0xffff_ffff,
        ;
        let area: u128 = (width as u128) * (height as u128);
        assert(area * bytes_per_pixel <= 0xffff_ffff * 0xffff_ffff * 16) by (nonlinear_arith)
            requires
                area <= 0xffff_ffff * 0xffff_ffff,
                bytes_per_pixel <= 16,
        ;
        area * (bytes_per_pixel as u128) <= isize::MAX as u128
    }

    /// The images and bounds for which a thumbnail is made: the image is
    /// not empty and has at most `MAX_THUMBNAIL_SOURCE` pixels, and the
    /// bounds are not zero and fit a buffer.
    pub open spec fn thumbnail_admits(image: ImageModel, max_width: u32, max_height: u32) -> bool {
        &&& image.width >= 1
        &&& image.height >= 1
        &&& image.width * image.height <= MAX_THUMBNAIL_SOURCE
        &&& max_width >= 1
        &&& max_height >= 1
        &&& Self::fits(max_width, max_height, 4)
    }

    /// A copy scaled to the largest size that fits `max_width` by
    /// `max_height` and keeps the aspect ratio, as RGBA. An empty image, an
    /// image of more than `MAX_THUMBNAIL_SOURCE` pixels, a bound of zero and
    /// a bound too large for a buffer are refused with `InvalidImageData`,
    /// and so is an answer of the scaler that does not fit the bounds.
    pub fn thumbnail(&self, max_width: u32, max_height: u32) -> (out: Result<
        ImageData,
        ClipboardError,
    >)
        ensures
            !Self::thumbnail_admits(self@, max_width, max_height) ==> out == Err::<
                ImageData,
                ClipboardError,
            >(ClipboardError::InvalidImageData),
            Self::thumbnail_admits(self@, max_width, max_height) ==> scales_to(
                thumbnail_scaling(
                    self@.width,
                    self@.height,
                    self@.rgba(),
                    max_width as nat,
                    max_height as nat,
                ),
                max_width as nat,
                max_height as nat,
                out,
            ),
            out matches Ok(image) ==> {
                &&& image@.format == PixelFormat::Rgba8
                &&& image@.wf()
                &&& image@.width <= max_width
                &&& image@.height <= max_height
            },
            out matches Err(e) ==> e == ClipboardError::InvalidImageData,
    {
        if self.width == 0 || self.height == 0 || max_width == 0 || max_height == 0
            || !Self::check_fits(max_width, max_height, 4) {
            return Err(ClipboardError::InvalidImageData);
        }
        assert(self.width * self.height <= 0xffff_ffff * 0xffff_ffff) by (nonlinear_arith)
            requires
                self.width <= 0xffff_ffff,
                self.height <= 0xffff_ffff,
        ;
        if (self.width as u64) * (self.height as u64) > MAX_THUMBNAIL_SOURCE {
            return Err(ClipboardError::InvalidImageData);
        }
        let rgba = self.rgba_bytes();
        let answer = thumbnail_rgba(self.width, self.height, rgba.as_slice(), max_width, max_height);
        ImageData::from_scaler(answer, max_width, max_height)
    }

    /// The images and sizes for which a resized copy is made: neither the
    /// image nor the size is empty, no side exceeds `MAX_RESIZE_SIDE`, and
    /// the scaler's buffers fit.
    pub open spec fn resize_admits(image: ImageModel, width: u32, height: u32) -> bool {
        &&& 1 <= image.width <= MAX_RESIZE_SIDE
        &&& 1 <= image.height <= MAX_RESIZE_SIDE
        &&& 1 <= width <= MAX_RESIZE_SIDE
        &&& 1 <= height <= MAX_RESIZE_SIDE
        &&& Self::fits(width, height, 16)
        &&& Self::fits(image.width as u32, height, 16)
    }

    /// A copy scaled to exactly `width` by `height`, as RGBA. An empty
    /// image, a side of zero, a side of more than `MAX_RESIZE_SIDE` and a
    /// size too large for a buffer are refused with `InvalidImageData`, and
    /// so is an answer of the scaler of another size.
    pub fn resize(&self, width: u32, height: u32) -> (out: Result<ImageData, ClipboardError>)
        ensures
            !Self::resize_admits(self@, width, height) ==> out == Err::<ImageData, ClipboardError>(
                ClipboardError::InvalidImageData,
            ),
            Self::resize_admits(self@, width, height) ==> match resize_scaling(
                self@.width,
                self@.height,
                self@.rgba(),
                width as nat,
                height as nat,
            ) {
                Some((w, h, pixels)) => if w == width && h == height && pixels.len() == w * h * 4 {
                    out is Ok && out.unwrap()@ == rgba_image(w, h, pixels)
                } else {
                    out == Err::<ImageData, ClipboardError>(ClipboardError::InvalidImageData)
                },
                None => out == Err::<ImageData, ClipboardError>(ClipboardError::InvalidImageData),
            },
            out matches Ok(image) ==> {
                &&& image@.format == PixelFormat::Rgba8
                &&& image@.wf()
                &&& image@.width == width
                &&& image@.height == height
            },
            out matches Err(e) ==> e == ClipboardError::InvalidImageData,
    {
        if self.width == 0 || self.height == 0 || width == 0 || height == 0 || self.width
            > MAX_RESIZE_SIDE || self.height > MAX_RESIZE_SIDE || width > MAX_RESIZE_SIDE || height
            > MAX_RESIZE_SIDE || !Self::check_fits(width, height, 16) || !Self::check_fits(
            self.width,
            height,
            16,
        ) {
            return Err(ClipboardError::InvalidImageData);
        }
        let rgba = self.rgba_bytes();
        let answer = resize_rgba(self.width, self.height, rgba.as_slice(), width, height);
        match answer {
            Some((w, h, pixels)) => {
                if w == width && h == height {
                    ImageData::from_scaler(Some((w, h, pixels)), width, height)
                } else {
                    Err(ClipboardError::InvalidImageData)
                }
            },
            None => Err(ClipboardError::InvalidImageData),
        }
    }

    /// The raw pixel bytes.
    pub fn get_bytes(&self) -> (bytes: &Vec<u8>)
        ensures
            bytes@ == self@.pixels,
            self@.wf(),
    {
        proof {
            use_type_invariant(self);
        }
        &self.pixels
    }
}

} // verus!
