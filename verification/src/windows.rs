//! What the Windows clipboard is given and what it gives back: the native
//! format of each content format and the native encoding of each payload.
//!
//! Standard formats are known by number, all others by a registered name.
//! Images travel as device-independent bitmaps and HTML in the "HTML
//! Format"; text and file lists are handed over as strings, which the
//! platform layer writes in the clipboard's own encodings.

use vstd::prelude::*;
use vstd::string::StringSliceAdditionalSpecFns;
use vstd::utf8::{decode_utf8, encode_utf8, valid_utf8};
use crate::content::{copy_bytes, models, texts, ClipboardPayload, ContentFormat, FormatTag};
use crate::dib::{dib_bytes, encodable, is_dib};
use crate::error::ClipboardError;
use crate::files::{paths, reads_as, text_of};
use crate::html_format::{extract_fragment, fragment_range, html_format, wrap_html, MAX_FRAGMENT};
use crate::image_data::{decoder_gives, rgba_image, ImageData};

verus! {

/// The number of the device-independent bitmap format.
pub const CF_DIB: u32 = 8;

/// The number of the Unicode text format.
pub const CF_UNICODETEXT: u32 = 13;

/// The number of the file list format.
pub const CF_HDROP: u32 = 15;

/// How the clipboard knows a format.
#[derive(Debug)]
pub enum NativeFormat {
    /// A standard format, by its number.
    Standard(u32),
    /// A format registered under a name.
    Registered(String),
}

/// The mathematical value of a [`NativeFormat`].
pub enum NativeTag {
    Standard(u32),
    Registered(Seq<char>),
}

impl View for NativeFormat {
    type V = NativeTag;

    open spec fn view(&self) -> NativeTag {
        match self {
            NativeFormat::Standard(id) => NativeTag::Standard(*id),
            NativeFormat::Registered(name) => NativeTag::Registered(name@),
        }
    }
}

/// The native format of the content format `tag`.
pub open spec fn native_of(tag: FormatTag) -> NativeTag {
    match tag {
        FormatTag::Text => NativeTag::Standard(CF_UNICODETEXT),
        FormatTag::Image => NativeTag::Standard(CF_DIB),
        FormatTag::Files => NativeTag::Standard(CF_HDROP),
        FormatTag::Rtf => NativeTag::Registered("Rich Text Format"@),
        FormatTag::Html => NativeTag::Registered("HTML Format"@),
        FormatTag::Custom(name) => NativeTag::Registered(name),
    }
}

/// The native format of `format`.
pub fn native_format(format: &ContentFormat) -> (out: NativeFormat)
    ensures
        out@ == native_of(format@),
{
    match format {
        ContentFormat::Text => NativeFormat::Standard(CF_UNICODETEXT),
        ContentFormat::Image => NativeFormat::Standard(CF_DIB),
        ContentFormat::Files => NativeFormat::Standard(CF_HDROP),
        ContentFormat::Rtf => NativeFormat::Registered(String::from_str("Rich Text Format")),
        ContentFormat::Html => NativeFormat::Registered(String::from_str("HTML Format")),
        ContentFormat::Custom(name) => NativeFormat::Registered(name.clone()),
    }
}

/// The number under which the clipboard knows `format`: a standard format
/// has its own, a named format has the number that its registration gave,
/// and a name that could not be registered is refused with
/// `InvalidFormat`.
pub fn format_id(format: &NativeFormat, registration: Option<u32>) -> (out: Result<
    u32,
    ClipboardError,
>)
    ensures
        match (*format, registration) {
            (NativeFormat::Standard(id), _) => out == Ok::<u32, ClipboardError>(id),
            (NativeFormat::Registered(_), Some(id)) => out == Ok::<u32, ClipboardError>(id),
            (NativeFormat::Registered(name), None) => out == Err::<u32, ClipboardError>(
                ClipboardError::InvalidFormat(name),
            ),
        },
{
    match format {
        NativeFormat::Standard(id) => Ok(*id),
        NativeFormat::Registered(name) => match registration {
            Some(id) => Ok(id),
            None => Err(ClipboardError::InvalidFormat(name.clone())),
        },
    }
}

/// Whether a read may go on, given whether the clipboard holds the format:
/// a format that it does not hold is not available.
pub fn require_available(available: bool) -> (out: Result<(), ClipboardError>)
    ensures
        available ==> out == Ok::<(), ClipboardError>(()),
        !available ==> out == Err::<(), ClipboardError>(ClipboardError::FormatNotAvailable),
{
    if available {
        Ok(())
    } else {
        Err(ClipboardError::FormatNotAvailable)
    }
}

/// One native write: what is handed to the clipboard for one payload.
#[derive(Debug)]
pub enum NativeWrite {
    /// Text, which the clipboard stores as Unicode text.
    Text(String),
    /// Paths, which the clipboard stores as a file list.
    Files(Vec<String>),
    /// Bytes that are stored as they are under `format`.
    Raw { format: NativeFormat, bytes: Vec<u8> },
}

/// Whether `out` is the native write for an image payload when the codec
/// answers its decoding with `answer`: the bitmap of the decoded image,
/// `InvalidImageData` where the decoded pixels do not fit their size,
/// `CreateDibFailed` where the image has no bitmap, and the codec's error
/// wrapped as `ImageLibraryError`.
pub open spec fn bitmap_gives(
    answer: Result<(u32, u32, Vec<u8>), ::image::ImageError>,
    out: Result<NativeWrite, ClipboardError>,
) -> bool {
    match answer {
        Ok((width, height, pixels)) => if pixels@.len() != width * height * 4 {
            out == Err::<NativeWrite, ClipboardError>(ClipboardError::InvalidImageData)
        } else if encodable(rgba_image(width as nat, height as nat, pixels@)) {
            out matches Ok(NativeWrite::Raw { format, bytes: bitmap }) && format@ == native_of(
                FormatTag::Image,
            ) && bitmap@ == dib_bytes(rgba_image(width as nat, height as nat, pixels@))
        } else {
            out == Err::<NativeWrite, ClipboardError>(ClipboardError::CreateDibFailed)
        },
        Err(e) => out == Err::<NativeWrite, ClipboardError>(ClipboardError::ImageLibraryError(e)),
    }
}

/// Whether `out` is the native write for a payload of the format `tag`
/// that carries `bytes`:
/// text must be UTF-8 and a file list must hold paths, HTML is framed by
/// its header, an image becomes what follows from some answer of the
/// codec, and everything else is passed on as it is.
pub open spec fn writes_as(tag: FormatTag, bytes: Seq<u8>, out: Result<NativeWrite, ClipboardError>) -> bool {
    match tag {
        FormatTag::Text => if valid_utf8(bytes) {
            out matches Ok(NativeWrite::Text(text)) && text@ == decode_utf8(bytes)
        } else {
            out matches Err(e) && e is StringConversionError
        },
        FormatTag::Files => match out {
            Ok(NativeWrite::Files(found)) => reads_as(bytes, Ok(found)),
            Ok(_) => false,
            Err(e) => reads_as(bytes, Err(e)),
        },
        FormatTag::Html => if bytes.len() <= MAX_FRAGMENT {
            out matches Ok(NativeWrite::Raw { format, bytes: framed }) && format@ == native_of(tag)
                && framed@ == html_format(bytes)
        } else {
            out == Err::<NativeWrite, ClipboardError>(ClipboardError::InvalidHtmlOffsets)
        },
        FormatTag::Image => exists|answer: Result<(u32, u32, Vec<u8>), ::image::ImageError>|
            #[trigger] bitmap_gives(answer, out),
        _ => out matches Ok(NativeWrite::Raw { format, bytes: same }) && format@ == native_of(tag)
            && same@ == bytes,
    }
}

/// What an image payload becomes, given what its decoding gave: the
/// bitmap of the decoded image, or the error that stopped it.
pub fn bitmap_write(decoded: Result<ImageData, ClipboardError>) -> (out: Result<
    NativeWrite,
    ClipboardError,
>)
    ensures
        match decoded {
            Ok(image) => if encodable(image@) {
                out matches Ok(NativeWrite::Raw { format, bytes }) && format@ == native_of(
                    FormatTag::Image,
                ) && bytes@ == dib_bytes(image@)
            } else {
                out == Err::<NativeWrite, ClipboardError>(ClipboardError::CreateDibFailed)
            },
            Err(e) => out == Err::<NativeWrite, ClipboardError>(e),
        },
{
    match decoded {
        Ok(image) => match image.to_bitmap() {
            Ok(bytes) => Ok(NativeWrite::Raw { format: NativeFormat::Standard(CF_DIB), bytes }),
            Err(e) => Err(e),
        },
        Err(e) => Err(e),
    }
}

/// The native write for `payload`.
pub fn to_native(payload: &ClipboardPayload) -> (out: Result<NativeWrite, ClipboardError>)
    ensures
        writes_as(payload@.format, payload@.bytes, out),
{
    match &payload.format {
        ContentFormat::Text => match text_of(copy_bytes(&payload.bytes)) {
            Ok(text) => Ok(NativeWrite::Text(text)),
            Err(e) => Err(ClipboardError::StringConversionError(e)),
        },
        ContentFormat::Files => match paths(payload.bytes.as_slice()) {
            Ok(found) => Ok(NativeWrite::Files(found)),
            Err(e) => Err(e),
        },
        ContentFormat::Html => match wrap_html(payload.bytes.as_slice()) {
            Ok(bytes) => Ok(
                NativeWrite::Raw { format: native_format(&ContentFormat::Html), bytes },
            ),
            Err(e) => Err(e),
        },
        ContentFormat::Image => {
            let decoded = ImageData::from_bytes(payload.bytes.as_slice());
            let ghost answer = choose|answer: Result<(u32, u32, Vec<u8>), ::image::ImageError>|
                decoder_gives(answer, decoded);
            let out = bitmap_write(decoded);
            assert(bitmap_gives(answer, out));
            out
        },
        other => Ok(
            NativeWrite::Raw { format: native_format(other), bytes: copy_bytes(&payload.bytes) },
        ),
    }
}

/// Whether `plan` holds the native write of each of `payloads`, in order.
pub open spec fn plans(payloads: Seq<ClipboardPayload>, plan: Seq<NativeWrite>) -> bool {
    &&& plan.len() == payloads.len()
    &&& forall|i: int|
        0 <= i < plan.len() ==> writes_as(
            payloads[i]@.format,
            payloads[i]@.bytes,
            Ok(#[trigger] plan[i]),
        )
}

/// Whether `e` is the failure of the first of `payloads` that has no
/// native write: every payload before it has one.
pub open spec fn fails_first(payloads: Seq<ClipboardPayload>, e: ClipboardError) -> bool {
    exists|i: int|
        {
            &&& 0 <= i < payloads.len()
            &&& writes_as((#[trigger] payloads[i])@.format, payloads[i]@.bytes, Err(e))
            &&& exists|before: Seq<NativeWrite>| #[trigger] plans(payloads.take(i), before)
        }
}

/// The native writes for `payloads`, one for each payload and in the same
/// order. Everything is encoded before anything is written, so that a
/// payload that cannot be encoded leaves the clipboard as it was: then the
/// first such payload's error comes back and there is no plan. An empty
/// sequence is refused with `EmptyContent`.
pub fn write_plan(payloads: &Vec<ClipboardPayload>) -> (out: Result<Vec<NativeWrite>, ClipboardError>)
    ensures
        payloads@.len() == 0 ==> out == Err::<Vec<NativeWrite>, ClipboardError>(
            ClipboardError::EmptyContent,
        ),
        out matches Ok(plan) ==> payloads@.len() > 0 && plans(payloads@, plan@),
        out matches Err(e) ==> payloads@.len() == 0 || fails_first(payloads@, e),
{
    if payloads.len() == 0 {
        return Err(ClipboardError::EmptyContent);
    }
    let mut plan: Vec<NativeWrite> = Vec::new();
    let mut i: usize = 0;
    while i < payloads.len()
        invariant
            0 <= i <= payloads@.len(),
            plans(payloads@.take(i as int), plan@),
        decreases payloads@.len() - i,
    {
        match to_native(&payloads[i]) {
            Ok(write) => {
                plan.push(write);
            },
            Err(e) => {
                assert(writes_as(payloads@[i as int]@.format, payloads@[i as int]@.bytes, Err(e)));
                assert(plans(payloads@.take(i as int), plan@));
                return Err(e);
            },
        }
        i += 1;
        assert forall|j: int| 0 <= j < plan@.len() implies writes_as(
            payloads@.take(i as int)[j]@.format,
            payloads@.take(i as int)[j]@.bytes,
            Ok(#[trigger] plan@[j]),
        ) by {
            if j < i - 1 {
                assert(payloads@.take(i - 1)[j] == payloads@[j]);
            }
        }
    }
    assert(payloads@.take(i as int) =~= payloads@);
    Ok(plan)
}

/// What the clipboard gave back for one format.
#[derive(Debug)]
pub enum NativeRead {
    /// Unicode text, as a string.
    Text(String),
    /// A file list, as paths.
    Files(Vec<String>),
    /// The bytes stored under the format.
    Raw(Vec<u8>),
}

/// The UTF-8 bytes of `paths`, each followed by a line feed.
pub open spec fn joined(paths: Seq<String>) -> Seq<u8>
    decreases paths.len(),
{
    if paths.len() == 0 {
        Seq::empty()
    } else {
        joined(paths.drop_last()) + encode_utf8(paths.last()@) + seq![10u8]
    }
}

/// The file list payload that holds `paths`, one per line.
pub fn join_paths(paths: &Vec<String>) -> (out: Vec<u8>)
    ensures
        out@ == joined(paths@),
{
    let mut out: Vec<u8> = Vec::new();
    let mut i: usize = 0;
    assert(paths@.take(0) =~= Seq::<String>::empty());
    while i < paths.len()
        invariant
            0 <= i <= paths@.len(),
            out@ == joined(paths@.take(i as int)),
        decreases paths@.len() - i,
    {
        let ghost before = out@;
        crate::content::append_bytes(&mut out, paths[i].as_str().as_bytes());
        out.push(10u8);
        assert(paths@.take(i + 1).drop_last() =~= paths@.take(i as int));
        assert(paths@.take(i + 1).last() == paths@[i as int]);
        assert(out@ =~= before + encode_utf8(paths@[i as int]@) + seq![10u8]);
        i += 1;
    }
    assert(paths@.take(i as int) =~= paths@);
    out
}

/// What a bitmap from the clipboard becomes, given its decoding: the PNG
/// file of the image, or the error that stopped it.
pub fn png_of(decoded: Result<ImageData, ClipboardError>) -> (out: Result<Vec<u8>, ClipboardError>)
    ensures
        match decoded {
            Ok(image) => match crate::codec::png_encoding(
                image@.width,
                image@.height,
                image@.rgba(),
            ) {
                Some(bytes) => out is Ok && out.unwrap()@ == bytes,
                None => out matches Err(e) && e is ImageLibraryError,
            },
            Err(e) => out == Err::<Vec<u8>, ClipboardError>(e),
        },
{
    match decoded {
        Ok(image) => image.to_png(),
        Err(e) => Err(e),
    }
}

/// The payload bytes for what the clipboard gave back under `format`:
/// text as UTF-8, a file list as lines, the fragment of an HTML document,
/// a bitmap as a PNG file, and other bytes as they are. What does not fit
/// the format is refused with `DataTypeMismatch`.
pub fn from_native(format: &ContentFormat, native: NativeRead) -> (out: Result<
    Vec<u8>,
    ClipboardError,
>)
    ensures
        match (format@, native) {
            (FormatTag::Text, NativeRead::Text(text)) => out is Ok && out.unwrap()@
                == encode_utf8(text@),
            (FormatTag::Files, NativeRead::Files(found)) => out is Ok && out.unwrap()@ == joined(
                found@,
            ),
            (FormatTag::Text, _) | (FormatTag::Files, _) => out == Err::<Vec<u8>, ClipboardError>(
                ClipboardError::DataTypeMismatch,
            ),
            (FormatTag::Html, NativeRead::Raw(bytes)) => match fragment_range(bytes@) {
                Some((start, end)) => out is Ok && out.unwrap()@ == bytes@.subrange(start, end),
                None => out == Err::<Vec<u8>, ClipboardError>(ClipboardError::InvalidHtmlOffsets),
            },
            (FormatTag::Image, NativeRead::Raw(bytes)) => if is_dib(bytes@) {
                match crate::codec::png_encoding(
                    crate::dib::dib_image(bytes@).width,
                    crate::dib::dib_image(bytes@).height,
                    crate::dib::dib_image(bytes@).rgba(),
                ) {
                    Some(png) => out is Ok && out.unwrap()@ == png,
                    None => out matches Err(e) && e is ImageLibraryError,
                }
            } else {
                out == Err::<Vec<u8>, ClipboardError>(ClipboardError::InvalidBitmapData)
            },
            (_, NativeRead::Raw(bytes)) => out is Ok && out.unwrap()@ == bytes@,
            _ => out == Err::<Vec<u8>, ClipboardError>(ClipboardError::DataTypeMismatch),
        },
{
    match format {
        ContentFormat::Text => match native {
            NativeRead::Text(text) => {
                let mut out: Vec<u8> = Vec::new();
                crate::content::append_bytes(&mut out, text.as_str().as_bytes());
                assert(out@ =~= encode_utf8(text@));
                Ok(out)
            },
            _ => Err(ClipboardError::DataTypeMismatch),
        },
        ContentFormat::Files => match native {
            NativeRead::Files(found) => Ok(join_paths(&found)),
            _ => Err(ClipboardError::DataTypeMismatch),
        },
        ContentFormat::Html => match native {
            NativeRead::Raw(bytes) => extract_fragment(bytes.as_slice()),
            _ => Err(ClipboardError::DataTypeMismatch),
        },
        ContentFormat::Image => match native {
            NativeRead::Raw(bytes) => png_of(ImageData::from_bitmap(bytes.as_slice())),
            _ => Err(ClipboardError::DataTypeMismatch),
        },
        _ => match native {
            NativeRead::Raw(bytes) => Ok(bytes),
            _ => Err(ClipboardError::DataTypeMismatch),
        },
    }
}

} // verus!
