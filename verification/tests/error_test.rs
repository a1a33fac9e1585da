use clipboard_rs::error::{ClipboardError, X11Fault};

#[test]
fn windows_code_1418_is_the_missing_message_queue() {
    assert!(matches!(
        ClipboardError::from_windows_code(1418),
        ClipboardError::ThreadNoMessageQueue
    ));
}

#[test]
fn other_windows_codes_are_carried() {
    match ClipboardError::from_windows_code(5) {
        ClipboardError::WindowsClipboardError { code } => assert_eq!(code, 5),
        other => panic!("unexpected: {:?}", other),
    }
    match ClipboardError::from_windows_code(1417) {
        ClipboardError::WindowsClipboardError { code } => assert_eq!(code, 1417),
        other => panic!("unexpected: {:?}", other),
    }
    match ClipboardError::from_windows_code(0) {
        ClipboardError::WindowsClipboardError { code } => assert_eq!(code, 0),
        other => panic!("unexpected: {:?}", other),
    }
}

#[test]
fn windows_code_is_written_in_decimal() {
    assert_eq!(
        ClipboardError::from_windows_code(5).message(),
        "Windows clipboard error: 5"
    );
    assert_eq!(
        ClipboardError::from_windows_code(0).message(),
        "Windows clipboard error: 0"
    );
    assert_eq!(
        ClipboardError::from_windows_code(-7).message(),
        "Windows clipboard error: -7"
    );
    assert_eq!(
        ClipboardError::from_windows_code(1234567890).message(),
        "Windows clipboard error: 1234567890"
    );
    assert_eq!(
        ClipboardError::from_windows_code(i32::MAX).message(),
        "Windows clipboard error: 2147483647"
    );
    assert_eq!(
        ClipboardError::from_windows_code(i32::MIN).message(),
        "Windows clipboard error: -2147483648"
    );
    assert_eq!(
        ClipboardError::WindowsClipboardError { code: 1418 }.message(),
        "Windows clipboard error: 1418"
    );
}

#[test]
fn append_decimal_keeps_what_was_there() {
    let mut out = String::from("code=");
    clipboard_rs::error::append_decimal(&mut out, 100);
    assert_eq!(out, "code=100");
    clipboard_rs::error::append_decimal(&mut out, -10);
    assert_eq!(out, "code=100-10");
}

#[test]
fn messages_of_variants_without_payload() {
    assert_eq!(ClipboardError::OpenFailed.message(), "Failed to open clipboard");
    assert_eq!(ClipboardError::ClearFailed.message(), "Failed to clear clipboard");
    assert_eq!(ClipboardError::ReadFailed.message(), "Failed to read clipboard data");
    assert_eq!(ClipboardError::WriteFailed.message(), "Failed to write clipboard data");
    assert_eq!(ClipboardError::FormatNotAvailable.message(), "Format not available");
    assert_eq!(
        ClipboardError::Timeout.message(),
        "Timeout while waiting for clipboard data"
    );
    assert_eq!(ClipboardError::InvalidImageData.message(), "Invalid image data");
    assert_eq!(ClipboardError::EmptyContent.message(), "Content is empty");
    assert_eq!(ClipboardError::NoImageData.message(), "No image data found");
    assert_eq!(ClipboardError::NoFileData.message(), "No file data found");
    assert_eq!(ClipboardError::InvalidHtmlOffsets.message(), "Invalid HTML offsets");
    assert_eq!(ClipboardError::InvalidBitmapData.message(), "Invalid bitmap data");
    assert_eq!(ClipboardError::CreateDibFailed.message(), "Failed to create DIB");
    assert_eq!(
        ClipboardError::DeviceContextFailed.message(),
        "Failed to get device context"
    );
    assert_eq!(
        ClipboardError::ThreadNoMessageQueue.message(),
        "Thread has no message queue (error 1418) - clipboard access may require a window message loop"
    );
    assert_eq!(
        ClipboardError::MonitorCreationFailed.message(),
        "Monitor creation failed"
    );
    assert_eq!(
        ClipboardError::HandlerRegistrationFailed.message(),
        "Handler registration failed"
    );
    assert_eq!(
        ClipboardError::DataTypeMismatch.message(),
        "Clipboard data type mismatch"
    );
    assert_eq!(
        ClipboardError::OwnershipFailed.message(),
        "Failed to take ownership of clipboard"
    );
    assert_eq!(ClipboardError::UnsupportedOperation.message(), "Unsupported operation");
}

#[test]
fn messages_of_variants_with_text() {
    assert_eq!(
        ClipboardError::Platform("boom".to_string()).message(),
        "Platform error: boom"
    );
    assert_eq!(
        ClipboardError::InvalidFormat("x/y".to_string()).message(),
        "Invalid format: x/y"
    );
    assert_eq!(
        ClipboardError::ImageError("bad".to_string()).message(),
        "Image processing error: bad"
    );
    assert_eq!(
        ClipboardError::X11ConnectionError("gone".to_string()).message(),
        "X11 connection error: gone"
    );
    assert_eq!(
        ClipboardError::X11AtomError("FOO".to_string()).message(),
        "X11 atom error: FOO"
    );
    assert_eq!(
        ClipboardError::X11PropertyError("p".to_string()).message(),
        "X11 property error: p"
    );
    assert_eq!(
        ClipboardError::MacOsPasteboardError("nil".to_string()).message(),
        "macOS pasteboard error: nil"
    );
    assert_eq!(
        ClipboardError::Internal(String::new()).message(),
        "Internal error: "
    );
    assert_eq!(
        ClipboardError::Internal("héllo ✓".to_string()).message(),
        "Internal error: héllo ✓"
    );
}

#[test]
fn string_becomes_internal() {
    match ClipboardError::from("something broke".to_string()) {
        ClipboardError::Internal(text) => assert_eq!(text, "something broke"),
        other => panic!("unexpected: {:?}", other),
    }
}

#[test]
fn utf8_error_becomes_encoding_error() {
    let bytes: Vec<u8> = vec![0x66, 0xff];
    let inner = std::str::from_utf8(&bytes).unwrap_err();
    let expected = format!("String encoding error: {}", inner);
    let err = ClipboardError::from(inner);
    assert!(matches!(err, ClipboardError::EncodingError(_)));
    assert_eq!(err.message(), expected);
}

#[test]
fn from_utf8_error_becomes_string_conversion_error() {
    let inner = String::from_utf8(vec![0xc3, 0x28]).unwrap_err();
    let expected = format!("String conversion error: {}", inner);
    let err = ClipboardError::from(inner);
    assert!(matches!(err, ClipboardError::StringConversionError(_)));
    assert_eq!(err.message(), expected);
}

#[test]
fn io_error_becomes_io_error() {
    let inner = std::io::Error::new(std::io::ErrorKind::NotFound, "no such clip");
    let err = ClipboardError::from(inner);
    assert!(matches!(err, ClipboardError::IoError(_)));
    assert_eq!(err.message(), "IO error: no such clip");
}

#[test]
fn image_error_becomes_image_library_error() {
    let inner = image::load_from_memory(&[1, 2, 3]).unwrap_err();
    let expected = format!("Image library error: {}", inner);
    let err = ClipboardError::from(inner);
    assert!(matches!(err, ClipboardError::ImageLibraryError(_)));
    assert_eq!(err.message(), expected);
}

#[test]
fn x11_connection_error_keeps_its_text() {
    let err = ClipboardError::from(x11rb::errors::ConnectionError::UnknownError);
    match &err {
        ClipboardError::X11ConnectionError(text) => assert_eq!(text, "Unknown connection error"),
        other => panic!("unexpected: {:?}", other),
    }
    assert_eq!(err.message(), "X11 connection error: Unknown connection error");
}

fn protocol_error(major_opcode: u8) -> x11rb::x11_utils::X11Error {
    x11rb::x11_utils::X11Error {
        error_kind: x11rb::protocol::ErrorKind::Atom,
        error_code: 5,
        sequence: 7,
        bad_value: 99,
        minor_opcode: 0,
        major_opcode,
        extension_name: None,
        request_name: None,
    }
}

#[test]
fn x11_reply_error_keeps_its_text() {
    let inner = x11rb::errors::ReplyError::ConnectionError(
        x11rb::errors::ConnectionError::UnsupportedExtension,
    );
    match ClipboardError::from(inner) {
        ClipboardError::X11ConnectionError(text) => assert_eq!(text, "Unsupported extension"),
        other => panic!("unexpected: {:?}", other),
    }
}

#[test]
fn a_refused_atom_request_is_an_atom_error() {
    for opcode in [16u8, 17] {
        let inner = x11rb::errors::ReplyError::X11Error(protocol_error(opcode));
        let expected = inner.to_string();
        match ClipboardError::from(inner) {
            ClipboardError::X11AtomError(text) => assert_eq!(text, expected),
            other => panic!("unexpected: {:?}", other),
        }
        let inner = x11rb::errors::ReplyOrIdError::X11Error(protocol_error(opcode));
        assert!(matches!(
            ClipboardError::from(inner),
            ClipboardError::X11AtomError(_)
        ));
    }
}

#[test]
fn a_refused_property_request_is_a_property_error() {
    for opcode in [18u8, 19, 20] {
        let inner = x11rb::errors::ReplyError::X11Error(protocol_error(opcode));
        let expected = inner.to_string();
        match ClipboardError::from(inner) {
            ClipboardError::X11PropertyError(text) => assert_eq!(text, expected),
            other => panic!("unexpected: {:?}", other),
        }
        let inner = x11rb::errors::ReplyOrIdError::X11Error(protocol_error(opcode));
        assert!(matches!(
            ClipboardError::from(inner),
            ClipboardError::X11PropertyError(_)
        ));
    }
}

#[test]
fn other_refused_requests_stay_connection_errors() {
    for opcode in [0u8, 15, 21, 22, 24, 114, 255] {
        let inner = x11rb::errors::ReplyError::X11Error(protocol_error(opcode));
        let expected = inner.to_string();
        match ClipboardError::from(inner) {
            ClipboardError::X11ConnectionError(text) => assert_eq!(text, expected),
            other => panic!("unexpected: {:?}", other),
        }
        let inner = x11rb::errors::ReplyOrIdError::X11Error(protocol_error(opcode));
        assert!(matches!(
            ClipboardError::from(inner),
            ClipboardError::X11ConnectionError(_)
        ));
    }
    let lost = x11rb::errors::ReplyOrIdError::ConnectionError(
        x11rb::errors::ConnectionError::InsufficientMemory,
    );
    match ClipboardError::from(lost) {
        ClipboardError::X11ConnectionError(text) => assert_eq!(text, "Insufficient memory"),
        other => panic!("unexpected: {:?}", other),
    }
}

#[test]
fn x11_faults_are_classified() {
    let text = || "t".to_string();
    assert!(matches!(
        ClipboardError::from_x11_fault(X11Fault::Connection, text()),
        ClipboardError::X11ConnectionError(t) if t == "t"
    ));
    assert!(matches!(
        ClipboardError::from_x11_fault(X11Fault::IdsExhausted, text()),
        ClipboardError::X11ConnectionError(_)
    ));
    assert!(matches!(
        ClipboardError::from_x11_fault(X11Fault::Request { major_opcode: 16 }, text()),
        ClipboardError::X11AtomError(t) if t == "t"
    ));
    assert!(matches!(
        ClipboardError::from_x11_fault(X11Fault::Request { major_opcode: 17 }, text()),
        ClipboardError::X11AtomError(_)
    ));
    assert!(matches!(
        ClipboardError::from_x11_fault(X11Fault::Request { major_opcode: 18 }, text()),
        ClipboardError::X11PropertyError(t) if t == "t"
    ));
    assert!(matches!(
        ClipboardError::from_x11_fault(X11Fault::Request { major_opcode: 20 }, text()),
        ClipboardError::X11PropertyError(_)
    ));
    assert!(matches!(
        ClipboardError::from_x11_fault(X11Fault::Request { major_opcode: 21 }, text()),
        ClipboardError::X11ConnectionError(_)
    ));
    assert!(matches!(
        ClipboardError::from_x11_fault(X11Fault::Request { major_opcode: 15 }, text()),
        ClipboardError::X11ConnectionError(_)
    ));
}

#[test]
fn conversions_hold_only_what_the_error_held() {
    for code in [0, -1, 1, 1417, 1419, i32::MIN, i32::MAX] {
        match ClipboardError::from_windows_code(code) {
            ClipboardError::WindowsClipboardError { code: kept } => assert_eq!(kept, code),
            other => panic!("unexpected: {:?}", other),
        }
    }
    for text in ["", "plain", "h\u{e9}llo \u{2713}"] {
        match ClipboardError::from(text.to_string()) {
            ClipboardError::Internal(kept) => assert_eq!(kept, text),
            other => panic!("unexpected: {:?}", other),
        }
    }
    let first = ClipboardError::from(x11rb::errors::ReplyError::X11Error(protocol_error(16)));
    let second = ClipboardError::from(x11rb::errors::ReplyOrIdError::IdsExhausted);
    let third = ClipboardError::from(x11rb::errors::ReplyError::X11Error(protocol_error(16)));
    assert_eq!(first.message(), third.message());
    assert_eq!(
        second.message(),
        "X11 connection error: X11 IDs have been exhausted"
    );
}

#[test]
fn x11_reply_or_id_error_keeps_its_text() {
    match ClipboardError::from(x11rb::errors::ReplyOrIdError::IdsExhausted) {
        ClipboardError::X11ConnectionError(text) => {
            assert_eq!(text, "X11 IDs have been exhausted")
        }
        other => panic!("unexpected: {:?}", other),
    }
}

#[test]
fn x11_connect_error_keeps_its_text() {
    match ClipboardError::from(x11rb::errors::ConnectError::InvalidScreen) {
        ClipboardError::X11ConnectionError(text) => assert_eq!(text, "Invalid screen"),
        other => panic!("unexpected: {:?}", other),
    }
    match ClipboardError::from(x11rb::errors::ConnectError::ZeroIdMask) {
        ClipboardError::X11ConnectionError(text) => assert_eq!(text, "XID mask was zero"),
        other => panic!("unexpected: {:?}", other),
    }
}

#[test]
fn connection_failure_carries_the_text() {
    match ClipboardError::connection_failure("lost".to_string()) {
        ClipboardError::X11ConnectionError(text) => assert_eq!(text, "lost"),
        other => panic!("unexpected: {:?}", other),
    }
}
