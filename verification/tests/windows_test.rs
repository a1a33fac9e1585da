use clipboard_rs::content::{ClipboardPayload, ContentFormat};
use clipboard_rs::error::ClipboardError;
use clipboard_rs::image_data::{ImageData, PixelFormat};
use clipboard_rs::windows::{
    bitmap_write, format_id, from_native, join_paths, native_format, png_of,
    require_available, to_native, write_plan,
    NativeFormat, NativeRead, NativeWrite, CF_DIB, CF_HDROP, CF_UNICODETEXT,
};

fn standard(format: &ContentFormat) -> Option<u32> {
    match native_format(format) {
        NativeFormat::Standard(id) => Some(id),
        NativeFormat::Registered(_) => None,
    }
}

fn registered(format: &ContentFormat) -> Option<String> {
    match native_format(format) {
        NativeFormat::Standard(_) => None,
        NativeFormat::Registered(name) => Some(name),
    }
}

fn small_png() -> Vec<u8> {
    ImageData::from_raw(2, 1, PixelFormat::Rgba8, vec![1, 2, 3, 4, 5, 6, 7, 8])
        .unwrap()
        .to_png()
        .unwrap()
}

#[test]
fn native_formats_of_the_content_formats() {
    assert_eq!(CF_DIB, 8);
    assert_eq!(CF_UNICODETEXT, 13);
    assert_eq!(CF_HDROP, 15);
    assert_eq!(standard(&ContentFormat::Text), Some(13));
    assert_eq!(standard(&ContentFormat::Image), Some(8));
    assert_eq!(standard(&ContentFormat::Files), Some(15));
    assert_eq!(registered(&ContentFormat::Rtf), Some("Rich Text Format".to_string()));
    assert_eq!(registered(&ContentFormat::Html), Some("HTML Format".to_string()));
    assert_eq!(
        registered(&ContentFormat::Custom("app/x".to_string())),
        Some("app/x".to_string())
    );
}

#[test]
fn text_is_written_as_a_string() {
    let payload = ClipboardPayload::new(ContentFormat::Text, "h\u{e9}llo\r\n".as_bytes().to_vec());
    match to_native(&payload) {
        Ok(NativeWrite::Text(text)) => assert_eq!(text, "h\u{e9}llo\r\n"),
        other => panic!("unexpected: {:?}", other),
    }
    let broken = ClipboardPayload::new(ContentFormat::Text, vec![b'a', 0xff]);
    assert!(matches!(
        to_native(&broken),
        Err(ClipboardError::StringConversionError(_))
    ));
}

#[test]
fn files_are_written_as_paths() {
    let payload = ClipboardPayload::new(ContentFormat::Files, b"C:\\a.txt\r\nC:\\b.txt\r\n".to_vec());
    match to_native(&payload) {
        Ok(NativeWrite::Files(paths)) => {
            assert_eq!(paths, vec!["C:\\a.txt".to_string(), "C:\\b.txt".to_string()])
        }
        other => panic!("unexpected: {:?}", other),
    }
    let empty = ClipboardPayload::new(ContentFormat::Files, b"\n".to_vec());
    assert!(matches!(to_native(&empty), Err(ClipboardError::NoFileData)));
}

#[test]
fn html_is_framed() {
    let payload = ClipboardPayload::new(ContentFormat::Html, b"<i>x</i>".to_vec());
    match to_native(&payload) {
        Ok(NativeWrite::Raw { format, bytes }) => {
            assert!(matches!(format, NativeFormat::Registered(name) if name == "HTML Format"));
            assert_eq!(bytes.len(), 173 + 8);
            assert_eq!(&bytes[..23], b"Version:0.9\r\nStartHTML:");
            assert_eq!(&bytes[139..147], b"<i>x</i>");
            let back = from_native(&ContentFormat::Html, NativeRead::Raw(bytes)).unwrap();
            assert_eq!(back, b"<i>x</i>".to_vec());
        }
        other => panic!("unexpected: {:?}", other),
    }
}

#[test]
fn images_are_written_as_bitmaps() {
    let payload = ClipboardPayload::new(ContentFormat::Image, small_png());
    match to_native(&payload) {
        Ok(NativeWrite::Raw { format, bytes }) => {
            assert!(matches!(format, NativeFormat::Standard(8)));
            assert_eq!(bytes.len(), 40 + 8);
            assert_eq!(&bytes[..16], &[40, 0, 0, 0, 2, 0, 0, 0, 1, 0, 0, 0, 1, 0, 32, 0]);
            assert_eq!(&bytes[40..], &[3, 2, 1, 4, 7, 6, 5, 8]);
            let png = from_native(&ContentFormat::Image, NativeRead::Raw(bytes)).unwrap();
            assert_eq!(png, small_png());
        }
        other => panic!("unexpected: {:?}", other),
    }
    let broken = ClipboardPayload::new(ContentFormat::Image, vec![1, 2, 3]);
    assert!(matches!(
        to_native(&broken),
        Err(ClipboardError::ImageLibraryError(_))
    ));
    assert!(matches!(
        bitmap_write(Err(ClipboardError::InvalidImageData)),
        Err(ClipboardError::InvalidImageData)
    ));
    let empty = ImageData::from_raw(0, 0, PixelFormat::Rgb8, Vec::new()).unwrap();
    assert!(matches!(bitmap_write(Ok(empty)), Err(ClipboardError::CreateDibFailed)));
}

#[test]
fn other_formats_are_written_as_they_are() {
    for format in [ContentFormat::Rtf, ContentFormat::Custom("app/x".to_string())] {
        let payload = ClipboardPayload::new(format.clone(), vec![0, 1, 255]);
        match to_native(&payload) {
            Ok(NativeWrite::Raw { format: native, bytes }) => {
                assert_eq!(bytes, vec![0, 1, 255]);
                match (native, registered(&format)) {
                    (NativeFormat::Registered(a), Some(b)) => assert_eq!(a, b),
                    other => panic!("unexpected: {:?}", other),
                }
            }
            other => panic!("unexpected: {:?}", other),
        }
    }
}

#[test]
fn the_plan_holds_one_write_for_each_payload() {
    let payloads = vec![
        ClipboardPayload::new(ContentFormat::Html, b"<b>x</b>".to_vec()),
        ClipboardPayload::new(ContentFormat::Text, b"x".to_vec()),
        ClipboardPayload::new(ContentFormat::Custom("k".to_string()), vec![9]),
    ];
    let plan = write_plan(&payloads).unwrap();
    assert_eq!(plan.len(), 3);
    assert!(matches!(&plan[0], NativeWrite::Raw { bytes, .. } if bytes.len() == 181));
    assert!(matches!(&plan[1], NativeWrite::Text(t) if t == "x"));
    assert!(matches!(&plan[2], NativeWrite::Raw { bytes, .. } if bytes == &vec![9u8]));
}

#[test]
fn there_is_no_plan_for_nothing_or_for_what_cannot_be_encoded() {
    assert!(matches!(write_plan(&Vec::new()), Err(ClipboardError::EmptyContent)));
    let payloads = vec![
        ClipboardPayload::new(ContentFormat::Text, b"fine".to_vec()),
        ClipboardPayload::new(ContentFormat::Image, b"not an image".to_vec()),
        ClipboardPayload::new(ContentFormat::Text, vec![0xff]),
    ];
    assert!(matches!(
        write_plan(&payloads),
        Err(ClipboardError::ImageLibraryError(_))
    ));
}

#[test]
fn paths_are_joined_by_line_feeds() {
    assert_eq!(join_paths(&Vec::new()), Vec::<u8>::new());
    assert_eq!(
        join_paths(&vec!["C:\\a".to_string(), "D:\\\u{e9}".to_string()]),
        "C:\\a\nD:\\\u{e9}\n".as_bytes().to_vec()
    );
    let read = from_native(
        &ContentFormat::Files,
        NativeRead::Files(vec!["/x".to_string(), "/y z".to_string()]),
    )
    .unwrap();
    assert_eq!(read, b"/x\n/y z\n".to_vec());
    assert_eq!(
        clipboard_rs::files::paths(&read).unwrap(),
        vec!["/x".to_string(), "/y z".to_string()]
    );
}

#[test]
fn what_comes_back_becomes_payload_bytes() {
    assert_eq!(
        from_native(&ContentFormat::Text, NativeRead::Text("h\u{e9}".to_string())).unwrap(),
        "h\u{e9}".as_bytes().to_vec()
    );
    assert_eq!(
        from_native(&ContentFormat::Rtf, NativeRead::Raw(vec![1, 2])).unwrap(),
        vec![1, 2]
    );
    assert_eq!(
        from_native(&ContentFormat::Custom("k".to_string()), NativeRead::Raw(Vec::new())).unwrap(),
        Vec::<u8>::new()
    );
    assert!(matches!(
        from_native(&ContentFormat::Html, NativeRead::Raw(b"<p>bare</p>".to_vec())),
        Err(ClipboardError::InvalidHtmlOffsets)
    ));
    assert!(matches!(
        from_native(&ContentFormat::Image, NativeRead::Raw(vec![0; 10])),
        Err(ClipboardError::InvalidBitmapData)
    ));
    assert!(matches!(
        png_of(Err(ClipboardError::InvalidBitmapData)),
        Err(ClipboardError::InvalidBitmapData)
    ));
}

#[test]
fn what_does_not_fit_the_format_is_a_mismatch() {
    assert!(matches!(
        from_native(&ContentFormat::Text, NativeRead::Raw(b"x".to_vec())),
        Err(ClipboardError::DataTypeMismatch)
    ));
    assert!(matches!(
        from_native(&ContentFormat::Text, NativeRead::Files(Vec::new())),
        Err(ClipboardError::DataTypeMismatch)
    ));
    assert!(matches!(
        from_native(&ContentFormat::Files, NativeRead::Text("x".to_string())),
        Err(ClipboardError::DataTypeMismatch)
    ));
    assert!(matches!(
        from_native(&ContentFormat::Html, NativeRead::Text("x".to_string())),
        Err(ClipboardError::DataTypeMismatch)
    ));
    assert!(matches!(
        from_native(&ContentFormat::Image, NativeRead::Files(Vec::new())),
        Err(ClipboardError::DataTypeMismatch)
    ));
    assert!(matches!(
        from_native(&ContentFormat::Rtf, NativeRead::Text("x".to_string())),
        Err(ClipboardError::DataTypeMismatch)
    ));
}

#[test]
fn named_formats_need_a_registration() {
    assert!(matches!(format_id(&NativeFormat::Standard(13), None), Ok(13)));
    assert!(matches!(format_id(&NativeFormat::Standard(8), Some(49500)), Ok(8)));
    assert!(matches!(
        format_id(&NativeFormat::Registered("HTML Format".to_string()), Some(49500)),
        Ok(49500)
    ));
    assert!(matches!(
        format_id(&NativeFormat::Registered("app/x".to_string()), None),
        Err(ClipboardError::InvalidFormat(name)) if name == "app/x"
    ));
}

#[test]
fn the_first_payload_that_cannot_be_encoded_stops_the_plan() {
    let payloads = vec![
        ClipboardPayload::new(ContentFormat::Text, vec![0xff]),
        ClipboardPayload::new(ContentFormat::Image, b"not an image".to_vec()),
    ];
    assert!(matches!(
        write_plan(&payloads),
        Err(ClipboardError::StringConversionError(_))
    ));
    let payloads = vec![
        ClipboardPayload::new(ContentFormat::Files, b"\n".to_vec()),
        ClipboardPayload::new(ContentFormat::Text, vec![0xff]),
    ];
    assert!(matches!(write_plan(&payloads), Err(ClipboardError::NoFileData)));
}

#[test]
fn a_format_that_is_not_held_is_not_available() {
    assert!(require_available(true).is_ok());
    assert!(matches!(
        require_available(false),
        Err(ClipboardError::FormatNotAvailable)
    ));
}
