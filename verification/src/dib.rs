//! Device-independent bitmaps, the transfer encoding of images on the
//! Windows clipboard.
//!
//! A bitmap is a 40-byte header followed by the pixel rows. Rows are stored
//! bottom-up, every row is padded with zero bytes to a multiple of four
//! bytes, and within a pixel blue comes first. Only uncompressed bitmaps of
//! 24 or 32 bits per pixel are produced and accepted.

use vstd::prelude::*;
use vstd::arithmetic::div_mod::lemma_fundamental_div_mod_converse;
use vstd::arithmetic::div_mod::lemma_fundamental_div_mod;
use vstd::arithmetic::div_mod::lemma_mod_bound;
use vstd::arithmetic::div_mod::lemma_multiply_divide_lt;
use vstd::arithmetic::div_mod::lemma_div_pos_is_pos;
use crate::error::ClipboardError;
use crate::image_data::{ImageData, ImageModel, PixelFormat};

verus! {

/// The length of the bitmap header, which is also the value of its first field.
pub const DIB_HEADER_LEN: usize = 40;

/// The largest width or height that the signed header fields can hold.
pub const DIB_MAX_SIDE: u32 = 0x7fff_ffff;

/// The two bytes of `v`, least significant first.
pub open spec fn u16_le(v: int) -> Seq<u8> {
    seq![(v % 256) as u8, (v / 256 % 256) as u8]
}

/// The four bytes of `v`, least significant first.
pub open spec fn u32_le(v: int) -> Seq<u8> {
    seq![
        (v % 256) as u8,
        (v / 256 % 256) as u8,
        (v / 65536 % 256) as u8,
        (v / 16777216 % 256) as u8,
    ]
}

/// The number that the two bytes at `at` write, least significant first.
pub open spec fn u16_at(bytes: Seq<u8>, at: int) -> int {
    bytes[at] + 256 * bytes[at + 1]
}

/// The number that the four bytes at `at` write, least significant first.
pub open spec fn u32_at(bytes: Seq<u8>, at: int) -> int {
    bytes[at] + 256 * bytes[at + 1] + 65536 * bytes[at + 2] + 16777216 * bytes[at + 3]
}

/// The length in bytes of one stored row: the pixels of the row, rounded up
/// to a multiple of four.
pub open spec fn stride(width: nat, channels: nat) -> nat {
    ((width * channels + 3) / 4 * 4) as nat
}

/// Where channel `c` of a pixel stands inside a stored pixel: red and blue
/// change places, green and alpha stay.
pub open spec fn swapped(c: int) -> int {
    if c == 0 {
        2
    } else if c == 2 {
        0
    } else {
        c
    }
}

/// The images that have a bitmap: neither side is zero or exceeds the signed
/// header field, and the whole bitmap is at most `u32::MAX` bytes long.
pub open spec fn encodable(img: ImageModel) -> bool {
    &&& 1 <= img.width <= DIB_MAX_SIDE
    &&& 1 <= img.height <= DIB_MAX_SIDE
    &&& DIB_HEADER_LEN + stride(img.width, img.channels()) * img.height <= u32::MAX
}

/// The header of the bitmap of a `width` by `height` image: header size,
/// width, height (positive: bottom-up), one plane, bits per pixel, no
/// compression, size of the pixel data, and four fields left at zero.
pub open spec fn header(width: nat, height: nat, format: PixelFormat) -> Seq<u8> {
    u32_le(DIB_HEADER_LEN as int) + u32_le(width as int) + u32_le(height as int) + u16_le(1)
        + u16_le(8 * format.channels() as int) + u32_le(0) + u32_le(
        (stride(width, format.channels()) * height) as int,
    ) + u32_le(0) + u32_le(0) + u32_le(0) + u32_le(0)
}

/// The byte at position `k` of the pixel data of `img`'s bitmap.
pub open spec fn data_byte(img: ImageModel, k: int) -> u8 {
    let s = stride(img.width, img.channels()) as int;
    let row = k / s;
    let col = k % s;
    if col < img.width * img.channels() {
        let x = col / (img.channels() as int);
        let c = col % (img.channels() as int);
        img.pixels[img.offset(x, img.height - 1 - row, swapped(c))]
    } else {
        0u8
    }
}

/// The pixel data of `img`'s bitmap.
pub open spec fn data(img: ImageModel) -> Seq<u8> {
    Seq::new(stride(img.width, img.channels()) * img.height, |k: int| data_byte(img, k))
}

/// The bitmap of `img`.
pub open spec fn dib_bytes(img: ImageModel) -> Seq<u8> {
    header(img.width, img.height, img.format) + data(img)
}

/// The pixel layout that the header's bits-per-pixel field stands for.
pub open spec fn header_format(bytes: Seq<u8>) -> Option<PixelFormat> {
    if u16_at(bytes, 14) == 24 {
        Some(PixelFormat::Rgb8)
    } else if u16_at(bytes, 14) == 32 {
        Some(PixelFormat::Rgba8)
    } else {
        None
    }
}

/// The byte sequences that are accepted as a bitmap: a 40-byte header of an
/// uncompressed, bottom-up, single-plane bitmap of 24 or 32 bits per pixel
/// with sides of at least one, followed by at least as many bytes as its
/// rows take.
pub open spec fn is_dib(bytes: Seq<u8>) -> bool {
    &&& bytes.len() >= DIB_HEADER_LEN
    &&& u32_at(bytes, 0) == DIB_HEADER_LEN
    &&& 1 <= u32_at(bytes, 4) <= DIB_MAX_SIDE
    &&& 1 <= u32_at(bytes, 8) <= DIB_MAX_SIDE
    &&& u16_at(bytes, 12) == 1
    &&& header_format(bytes) is Some
    &&& u32_at(bytes, 16) == 0
    &&& bytes.len() >= DIB_HEADER_LEN + stride(
        u32_at(bytes, 4) as nat,
        header_format(bytes).unwrap().channels(),
    ) * u32_at(bytes, 8)
}

/// The byte at position `j` of the pixel buffer that the bitmap `bytes`
/// of a `width` by `height` image stands for.
pub open spec fn pixel_byte(bytes: Seq<u8>, width: nat, height: nat, channels: nat, j: int) -> u8 {
    let row_len = (width * channels) as int;
    let y = j / row_len;
    let rest = j % row_len;
    let x = rest / (channels as int);
    let c = rest % (channels as int);
    bytes[DIB_HEADER_LEN + (height - 1 - y) * stride(width, channels) + x * channels + swapped(c)]
}

/// The image that an accepted bitmap stands for.
pub open spec fn dib_image(bytes: Seq<u8>) -> ImageModel {
    let width = u32_at(bytes, 4) as nat;
    let height = u32_at(bytes, 8) as nat;
    let format = header_format(bytes).unwrap();
    ImageModel {
        width,
        height,
        format,
        pixels: Seq::new(
            width * height * format.channels(),
            |j: int| pixel_byte(bytes, width, height, format.channels(), j),
        ),
    }
}

proof fn lemma_u32_le(v: int)
    requires
        0 <= v <= u32::MAX,
    ensures
        u32_le(v).len() == 4,
        u32_at(u32_le(v), 0) == v,
{
}

proof fn lemma_u16_le(v: int)
    requires
        0 <= v <= u16::MAX,
    ensures
        u16_le(v).len() == 2,
        u16_at(u16_le(v), 0) == v,
{
}

/// A row's stride covers the row's pixels, exceeds them by less than four
/// bytes, and is a multiple of four.
pub proof fn lemma_stride(width: nat, channels: nat)
    ensures
        width * channels <= stride(width, channels) < width * channels + 4,
        stride(width, channels) % 4 == 0,
{
    let n = (width * channels) as int;
    assert(0 <= n) by (nonlinear_arith)
        requires
            n == width * channels,
    ;
}

/// The fields of a header read back as they were written.
pub proof fn lemma_header_fields(width: nat, height: nat, format: PixelFormat, rest: Seq<u8>)
    requires
        width <= u32::MAX,
        height <= u32::MAX,
        stride(width, format.channels()) * height <= u32::MAX,
    ensures
        header(width, height, format).len() == DIB_HEADER_LEN,
        u32_at(header(width, height, format) + rest, 0) == DIB_HEADER_LEN,
        u32_at(header(width, height, format) + rest, 4) == width,
        u32_at(header(width, height, format) + rest, 8) == height,
        u16_at(header(width, height, format) + rest, 12) == 1,
        u16_at(header(width, height, format) + rest, 14) == 8 * format.channels(),
        u32_at(header(width, height, format) + rest, 16) == 0,
        header_format(header(width, height, format) + rest) == Some(format),
{
    let size = (stride(width, format.channels()) * height) as int;
    let h = header(width, height, format);
    let a0 = u32_le(DIB_HEADER_LEN as int);
    let a1 = u32_le(width as int);
    let a2 = u32_le(height as int);
    let a3 = u16_le(1);
    let a4 = u16_le(8 * format.channels() as int);
    let a5 = u32_le(0);
    let p1 = a0 + a1;
    let p2 = p1 + a2;
    let p3 = p2 + a3;
    let p4 = p3 + a4;
    let p5 = p4 + a5;
    let tail = u32_le(size) + u32_le(0) + u32_le(0) + u32_le(0) + u32_le(0);
    assert(h =~= p5 + tail);
    lemma_u32_le(DIB_HEADER_LEN as int);
    lemma_u32_le(width as int);
    lemma_u32_le(height as int);
    lemma_u16_le(1);
    lemma_u16_le(8 * format.channels() as int);
    lemma_u32_le(0);
    assert(p5.len() == 20);
    assert(h.len() == 40);
    let all = h + rest;
    assert forall|i: int| 0 <= i < 20 implies all[i] == p5[i] by {}
    assert(u32_at(all, 0) == u32_at(a0, 0));
    assert(u32_at(all, 4) == u32_at(a1, 0));
    assert(u32_at(all, 8) == u32_at(a2, 0));
    assert(u16_at(all, 12) == u16_at(a3, 0));
    assert(u16_at(all, 14) == u16_at(a4, 0));
    assert(u32_at(all, 16) == u32_at(a5, 0));
}

/// Where a pixel's channel stands in the pixel data: row `row` from the
/// bottom, column `x`, stored channel `c`.
pub proof fn lemma_data_pixel(img: ImageModel, row: int, x: int, c: int)
    requires
        img.wf(),
        0 <= row < img.height,
        0 <= x < img.width,
        0 <= c < img.channels(),
    ensures
        0 <= row * stride(img.width, img.channels()) + x * img.channels() + c < stride(
            img.width,
            img.channels(),
        ) * img.height,
        0 <= img.offset(x, img.height - 1 - row, swapped(c)) < img.pixels.len(),
        data_byte(img, row * stride(img.width, img.channels()) + x * img.channels() + c)
            == img.pixels[img.offset(x, img.height - 1 - row, swapped(c))],
{
    let ch = img.channels() as int;
    let w = img.width as int;
    let h = img.height as int;
    let s = stride(img.width, img.channels()) as int;
    lemma_stride(img.width, img.channels());
    let col = x * ch + c;
    assert(0 <= col < w * ch) by (nonlinear_arith)
        requires
            col == x * ch + c,
            0 <= x < w,
            0 <= c < ch,
    ;
    let k = row * s + col;
    assert(0 <= k < s * h) by (nonlinear_arith)
        requires
            k == row * s + col,
            0 <= col < s,
            0 <= row < h,
    ;
    lemma_fundamental_div_mod_converse(k, s, row, col);
    lemma_fundamental_div_mod_converse(col, ch, x, c);
    lemma_offset_bound(img, x, h - 1 - row, swapped(c));
}

/// Every channel of every pixel has a place in the buffer.
pub proof fn lemma_offset_bound(img: ImageModel, x: int, y: int, c: int)
    requires
        img.wf(),
        0 <= y < img.height,
        0 <= x < img.width,
        0 <= c < img.channels(),
    ensures
        0 <= img.offset(x, y, c) < img.pixels.len(),
        img.offset(x, y, c) == y * (img.width * img.channels()) + (x * img.channels() + c),
{
    let ch = img.channels() as int;
    let w = img.width as int;
    let h = img.height as int;
    assert(0 <= (y * w + x) * ch + c < w * h * ch && (y * w + x) * ch + c == y * (w * ch) + (x * ch
        + c)) by (nonlinear_arith)
        requires
            0 <= y < h,
            0 <= x < w,
            0 <= c < ch,
    ;
}

/// The bytes between a row's pixels and its stride are zero.
pub proof fn lemma_data_pad(img: ImageModel, row: int, col: int)
    requires
        0 <= row < img.height,
        img.width * img.channels() <= col < stride(img.width, img.channels()),
    ensures
        0 <= row * stride(img.width, img.channels()) + col < stride(img.width, img.channels())
            * img.height,
        data_byte(img, row * stride(img.width, img.channels()) + col) == 0,
{
    let s = stride(img.width, img.channels()) as int;
    let h = img.height as int;
    let k = row * s + col;
    assert(0 <= k < s * h) by (nonlinear_arith)
        requires
            k == row * s + col,
            0 <= col < s,
            0 <= row < h,
    ;
    lemma_fundamental_div_mod_converse(k, s, row, col);
}

/// Where a byte of the decoded buffer is read from: the pixel in column `x`
/// of row `y` (from the top), channel `c`.
pub proof fn lemma_pixel_source(bytes: Seq<u8>, width: nat, height: nat, channels: nat, x: int, y: int, c: int)
    requires
        3 <= channels <= 4,
        0 <= y < height,
        0 <= x < width,
        0 <= c < channels,
    ensures
        0 <= (y * width + x) * channels + c < width * height * channels,
        0 <= (height - 1 - y) * stride(width, channels) + x * channels + swapped(c) < stride(
            width,
            channels,
        ) * height,
        pixel_byte(bytes, width, height, channels, (y * width + x) * channels + c)
            == bytes[DIB_HEADER_LEN + (height - 1 - y) * stride(width, channels) + x * channels
            + swapped(c)],
{
    let ch = channels as int;
    let w = width as int;
    let h = height as int;
    let s = stride(width, channels) as int;
    lemma_stride(width, channels);
    let j = (y * w + x) * ch + c;
    let rest = x * ch + c;
    assert(0 <= j < w * h * ch && j == y * (w * ch) + rest && 0 <= rest < w * ch) by (nonlinear_arith)
        requires
            j == (y * w + x) * ch + c,
            rest == x * ch + c,
            0 <= y < h,
            0 <= x < w,
            0 <= c < ch,
    ;
    lemma_fundamental_div_mod_converse(j, w * ch, y, rest);
    lemma_fundamental_div_mod_converse(rest, ch, x, c);
    let col = x * ch + swapped(c);
    assert(0 <= col < w * ch) by (nonlinear_arith)
        requires
            col == x * ch + swapped(c),
            0 <= x < w,
            0 <= swapped(c) < ch,
    ;
    assert(0 <= (h - 1 - y) * s + col < s * h) by (nonlinear_arith)
        requires
            0 <= col < s,
            0 <= y < h,
    ;
}

/// Reading a bitmap back undoes the encoding: the bitmap of an image is
/// accepted, and the image it stands for is the image it was made from.
pub proof fn lemma_round_trip(img: ImageModel)
    requires
        img.wf(),
        encodable(img),
    ensures
        is_dib(dib_bytes(img)),
        dib_image(dib_bytes(img)) == img,
{
    let bytes = dib_bytes(img);
    let w = img.width;
    let h = img.height;
    let ch = img.channels();
    let s = stride(w, ch);
    lemma_stride(w, ch);
    assert(s * h >= 0) by (nonlinear_arith)
        requires
            s >= 0,
            h >= 0,
    ;
    lemma_header_fields(w, h, img.format, data(img));
    let back = dib_image(bytes);
    assert(back.width == w);
    assert(back.height == h);
    assert(back.format == img.format);
    assert(back.pixels.len() == img.pixels.len());
    assert forall|j: int| 0 <= j < img.pixels.len() implies back.pixels[j] == img.pixels[j] by {
        let row_len = (w * ch) as int;
        assert(row_len > 0) by (nonlinear_arith)
            requires
                row_len == w * ch,
                w >= 1,
                ch >= 3,
        ;
        let y = j / row_len;
        let rest = j % row_len;
        let x = rest / (ch as int);
        let c = rest % (ch as int);
        lemma_fundamental_div_mod(j, row_len);
        lemma_mod_bound(j, row_len);
        lemma_fundamental_div_mod(rest, ch as int);
        lemma_mod_bound(rest, ch as int);
        assert(j < row_len * h) by (nonlinear_arith)
            requires
                j < w * h * ch,
                row_len == w * ch,
        ;
        lemma_multiply_divide_lt(j, row_len, h as int);
        assert(0 <= y) by {
            if j >= row_len {
                lemma_div_pos_is_pos(j, row_len);
            }
        }
        assert(0 <= x < w) by {
            if rest >= ch {
                lemma_div_pos_is_pos(rest, ch as int);
            }
            assert(rest < (ch as int) * w) by (nonlinear_arith)
                requires
                    rest < row_len,
                    row_len == w * ch,
            ;
            lemma_multiply_divide_lt(rest, ch as int, w as int);
        }
        assert(j == (y * w + x) * ch + c) by (nonlinear_arith)
            requires
                j == row_len * y + rest,
                rest == ch * x + c,
                row_len == w * ch,
        ;
        lemma_pixel_source(bytes, w, h, ch, x, y, c);
        lemma_data_pixel(img, h - 1 - y, x, swapped(c));
        let k = (h - 1 - y) * s + x * ch + swapped(c);
        assert(bytes[DIB_HEADER_LEN + k] == data(img)[k]);
        assert(img.offset(x, y, c) == j);
    }
    assert(back.pixels =~= img.pixels);
}

fn push_u16_le(out: &mut Vec<u8>, v: u16)
    ensures
        final(out)@ == old(out)@ + u16_le(v as int),
{
    out.push((v % 256) as u8);
    out.push((v / 256 % 256) as u8);
    assert(out@ =~= old(out)@ + u16_le(v as int));
}

fn push_u32_le(out: &mut Vec<u8>, v: u32)
    ensures
        final(out)@ == old(out)@ + u32_le(v as int),
{
    out.push((v % 256) as u8);
    out.push((v / 256 % 256) as u8);
    out.push((v / 65536 % 256) as u8);
    out.push((v / 16777216 % 256) as u8);
    assert(out@ =~= old(out)@ + u32_le(v as int));
}

fn read_u16_le(bytes: &[u8], at: usize) -> (v: u16)
    requires
        at + 2 <= bytes@.len(),
    ensures
        v == u16_at(bytes@, at as int),
{
    (bytes[at] as u16) + 256 * (bytes[at + 1] as u16)
}

fn read_u32_le(bytes: &[u8], at: usize) -> (v: u32)
    requires
        at + 4 <= bytes@.len(),
    ensures
        v == u32_at(bytes@, at as int),
{
    (bytes[at] as u32) + 256 * (bytes[at + 1] as u32) + 65536 * (bytes[at + 2] as u32) + 16777216
        * (bytes[at + 3] as u32)
}

/// The length in bytes of one stored row of `width` pixels.
pub fn row_stride(width: u32, format: PixelFormat) -> (s: u64)
    ensures
        s == stride(width as nat, format.channels()),
{
    let ch: u64 = format.bytes_per_pixel() as u64;
    (width as u64 * ch + 3) / 4 * 4
}

proof fn lemma_take_push(head: Seq<u8>, body: Seq<u8>, k: int, v: u8)
    requires
        0 <= k < body.len(),
        v == body[k],
    ensures
        (head + body.take(k)).push(v) == head + body.take(k + 1),
{
    assert((head + body.take(k)).push(v) =~= head + body.take(k + 1));
}

/// The bitmap of `image`. An image without a bitmap is refused with
/// `CreateDibFailed`.
pub fn encode(image: &ImageData) -> (out: Result<Vec<u8>, ClipboardError>)
    ensures
        encodable(image@) ==> out is Ok && out.unwrap()@ == dib_bytes(image@),
        !encodable(image@) ==> out == Err::<Vec<u8>, ClipboardError>(
            ClipboardError::CreateDibFailed,
        ),
{
    let width = image.width();
    let height = image.height();
    let format = image.format();
    let pixels = image.get_bytes();
    let ghost img = image@;
    if width == 0 || height == 0 || width > DIB_MAX_SIDE || height > DIB_MAX_SIDE {
        return Err(ClipboardError::CreateDibFailed);
    }
    let wide_stride: u64 = row_stride(width, format);
    proof {
        lemma_stride(img.width, img.channels());
        assert(wide_stride * height <= 0x2_0000_0000 * 0x8000_0000) by (nonlinear_arith)
            requires
                wide_stride <= 0x2_0000_0000,
                height <= 0x8000_0000,
        ;
    }
    let size: u128 = (wide_stride as u128) * (height as u128);
    if size + (DIB_HEADER_LEN as u128) > u32::MAX as u128 {
        return Err(ClipboardError::CreateDibFailed);
    }
    assert(wide_stride <= size) by (nonlinear_arith)
        requires
            size == wide_stride * height,
            height >= 1,
    ;
    let ch: usize = format.bytes_per_pixel();
    let s: usize = wide_stride as usize;
    let w: usize = width as usize;
    let h: usize = height as usize;
    let mut out: Vec<u8> = Vec::new();
    push_u32_le(&mut out, DIB_HEADER_LEN as u32);
    push_u32_le(&mut out, width);
    push_u32_le(&mut out, height);
    push_u16_le(&mut out, 1);
    push_u16_le(&mut out, (8 * ch) as u16);
    push_u32_le(&mut out, 0);
    push_u32_le(&mut out, size as u32);
    push_u32_le(&mut out, 0);
    push_u32_le(&mut out, 0);
    push_u32_le(&mut out, 0);
    push_u32_le(&mut out, 0);
    let ghost head = header(img.width, img.height, img.format);
    let ghost body = data(img);
    assert(out@ =~= head + body.take(0));
    let row_bytes: usize = w * ch;
    let mut row: usize = 0;
    while row < h
        invariant
            img == image@,
            img.wf(),
            pixels@ == img.pixels,
            w == img.width,
            h == img.height,
            ch == img.channels(),
            s == stride(img.width, img.channels()),
            row_bytes == w * ch,
            row_bytes <= s,
            s * h + DIB_HEADER_LEN <= u32::MAX,
            head == header(img.width, img.height, img.format),
            body == data(img),
            0 <= row <= h,
            out@ == head + body.take(row * s),
        decreases h - row,
    {
        let y: usize = h - 1 - row;
        let mut x: usize = 0;
        while x < w
            invariant
                img == image@,
                img.wf(),
                pixels@ == img.pixels,
                w == img.width,
                h == img.height,
                ch == img.channels(),
                s == stride(img.width, img.channels()),
                body == data(img),
                0 <= row < h,
                y == h - 1 - row,
                0 <= x <= w,
                s * h + DIB_HEADER_LEN <= u32::MAX,
                out@ == head + body.take(row * s + x * ch),
            decreases w - x,
        {
            proof {
                lemma_data_pixel(img, row as int, x as int, 0);
                lemma_data_pixel(img, row as int, x as int, 1);
                lemma_data_pixel(img, row as int, x as int, 2);
                if ch == 4 {
                    lemma_data_pixel(img, row as int, x as int, 3);
                }
                lemma_offset_bound(img, x as int, y as int, 0);
                lemma_stride(img.width, img.channels());
                assert(0 <= y * w <= (y * w + x) * ch && (y * w + x) * ch + ch <= s * h)
                    by (nonlinear_arith)
                    requires
                        0 <= y < h,
                        0 <= x < w,
                        ch >= 3,
                        w * ch <= s,
                ;
            }
            let base: usize = (y * w + x) * ch;
            let ghost k = row * s + x * ch;
            out.push(pixels[base + 2]);
            proof {
                lemma_take_push(head, body, k, pixels[base + 2]);
            }
            out.push(pixels[base + 1]);
            proof {
                lemma_take_push(head, body, k + 1, pixels[base + 1]);
            }
            out.push(pixels[base]);
            proof {
                lemma_take_push(head, body, k + 2, pixels[base as int]);
            }
            if ch == 4 {
                out.push(pixels[base + 3]);
                proof {
                    lemma_take_push(head, body, k + 3, pixels[base + 3]);
                }
            }
            x += 1;
            assert(row * s + x * ch == k + ch) by (nonlinear_arith)
                requires
                    k == row * s + (x - 1) * ch,
            ;
        }
        let mut col: usize = row_bytes;
        while col < s
            invariant
                img == image@,
                w == img.width,
                h == img.height,
                ch == img.channels(),
                s == stride(img.width, img.channels()),
                body == data(img),
                0 <= row < h,
                row_bytes == w * ch,
                row_bytes <= col <= s,
                out@ == head + body.take(row * s + col),
            decreases s - col,
        {
            proof {
                lemma_data_pad(img, row as int, col as int);
                lemma_take_push(head, body, row * s + col, 0u8);
            }
            out.push(0u8);
            col += 1;
        }
        row += 1;
        assert(row * s == (row - 1) * s + s) by (nonlinear_arith);
    }
    assert(body.take(h * s) =~= body) by {
        assert(h * s == s * h) by (nonlinear_arith);
    }
    Ok(out)
}

/// The image that the bitmap `bytes` stands for. Bytes that are not an
/// accepted bitmap are refused with `InvalidBitmapData`.
pub fn decode(bytes: &[u8]) -> (out: Result<ImageData, ClipboardError>)
    ensures
        is_dib(bytes@) ==> out is Ok && out.unwrap()@ == dib_image(bytes@),
        !is_dib(bytes@) ==> out == Err::<ImageData, ClipboardError>(
            ClipboardError::InvalidBitmapData,
        ),
{
    if bytes.len() < DIB_HEADER_LEN {
        return Err(ClipboardError::InvalidBitmapData);
    }
    let header_len = read_u32_le(bytes, 0);
    let width = read_u32_le(bytes, 4);
    let height = read_u32_le(bytes, 8);
    let planes = read_u16_le(bytes, 12);
    let bits = read_u16_le(bytes, 14);
    let compression = read_u32_le(bytes, 16);
    if header_len != DIB_HEADER_LEN as u32 || width == 0 || width > DIB_MAX_SIDE || height == 0
        || height > DIB_MAX_SIDE || planes != 1 || compression != 0 {
        return Err(ClipboardError::InvalidBitmapData);
    }
    let format = if bits == 24 {
        PixelFormat::Rgb8
    } else if bits == 32 {
        PixelFormat::Rgba8
    } else {
        return Err(ClipboardError::InvalidBitmapData);
    };
    let wide_stride: u64 = row_stride(width, format);
    proof {
        lemma_stride(width as nat, format.channels());
        assert(wide_stride * height <= 0x2_0000_0000 * 0x8000_0000) by (nonlinear_arith)
            requires
                wide_stride <= 0x2_0000_0000,
                height <= 0x8000_0000,
        ;
    }
    let size: u128 = (wide_stride as u128) * (height as u128);
    if (bytes.len() as u128) < size + (DIB_HEADER_LEN as u128) {
        return Err(ClipboardError::InvalidBitmapData);
    }
    assert(wide_stride <= size) by (nonlinear_arith)
        requires
            size == wide_stride * height,
            height >= 1,
    ;
    let ch: usize = format.bytes_per_pixel();
    let s: usize = wide_stride as usize;
    let w: usize = width as usize;
    let h: usize = height as usize;
    let ghost target = dib_image(bytes@);
    let mut pixels: Vec<u8> = Vec::new();
    assert(pixels@ =~= target.pixels.take(0));
    let mut y: usize = 0;
    assert(y * w * ch == 0) by (nonlinear_arith)
        requires
            y == 0,
    ;
    while y < h
        invariant
            target == dib_image(bytes@),
            target.width == w,
            target.height == h,
            target.format == format,
            ch == format.channels(),
            s == stride(w as nat, ch as nat),
            s * h + DIB_HEADER_LEN <= bytes@.len(),
            bytes@.len() <= usize::MAX,
            0 <= y <= h,
            w >= 1,
            pixels@ == target.pixels.take(y * w * ch),
        decreases h - y,
    {
        let from_bottom: usize = h - 1 - y;
        let mut x: usize = 0;
        assert(y * w * ch == (y * w + 0) * ch);
        while x < w
            invariant
                target == dib_image(bytes@),
                target.width == w,
                target.height == h,
                target.format == format,
                ch == format.channels(),
                s == stride(w as nat, ch as nat),
                s * h + DIB_HEADER_LEN <= bytes@.len(),
                bytes@.len() <= usize::MAX,
                0 <= y < h,
                from_bottom == h - 1 - y,
                0 <= x <= w,
                pixels@ == target.pixels.take((y * w + x) * ch),
            decreases w - x,
        {
            proof {
                lemma_pixel_source(bytes@, w as nat, h as nat, ch as nat, x as int, y as int, 0);
                lemma_pixel_source(bytes@, w as nat, h as nat, ch as nat, x as int, y as int, 1);
                lemma_pixel_source(bytes@, w as nat, h as nat, ch as nat, x as int, y as int, 2);
                if ch == 4 {
                    lemma_pixel_source(
                        bytes@,
                        w as nat,
                        h as nat,
                        ch as nat,
                        x as int,
                        y as int,
                        3,
                    );
                }
                assert(0 <= from_bottom * s <= from_bottom * s + x * ch && 0 <= x * ch
                    && from_bottom * s + x * ch + ch <= s * h) by (nonlinear_arith)
                    requires
                        0 <= from_bottom < h,
                        0 <= x < w,
                        ch >= 3,
                        w * ch <= s,
                ;
            }
            let src: usize = DIB_HEADER_LEN + from_bottom * s + x * ch;
            let ghost j = (y * w + x) * ch;
            let ghost none = Seq::<u8>::empty();
            pixels.push(bytes[src + 2]);
            proof {
                lemma_take_push(none, target.pixels, j, bytes[src + 2]);
                assert(none + target.pixels.take(j) =~= target.pixels.take(j));
                assert(none + target.pixels.take(j + 1) =~= target.pixels.take(j + 1));
            }
            pixels.push(bytes[src + 1]);
            proof {
                lemma_take_push(none, target.pixels, j + 1, bytes[src + 1]);
                assert(none + target.pixels.take(j + 2) =~= target.pixels.take(j + 2));
            }
            pixels.push(bytes[src]);
            proof {
                lemma_take_push(none, target.pixels, j + 2, bytes[src as int]);
                assert(none + target.pixels.take(j + 3) =~= target.pixels.take(j + 3));
            }
            if ch == 4 {
                pixels.push(bytes[src + 3]);
                proof {
                    lemma_take_push(none, target.pixels, j + 3, bytes[src + 3]);
                    assert(none + target.pixels.take(j + 4) =~= target.pixels.take(j + 4));
                }
            }
            x += 1;
            assert((y * w + x) * ch == j + ch) by (nonlinear_arith)
                requires
                    j == (y * w + (x - 1)) * ch,
            ;
        }
        y += 1;
        assert(y * w * ch == ((y - 1) * w + w) * ch) by (nonlinear_arith);
    }
    assert(pixels@ =~= target.pixels) by {
        assert(h * w * ch == w * h * ch) by (nonlinear_arith);
    }
    ImageData::from_raw(width, height, format, pixels)
}

} // verus!
