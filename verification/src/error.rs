//! The closed set of failures that clipboard operations report.
//!
//! Every backend surfaces the most specific variant it can; native error
//! codes and library errors are wrapped, never swallowed.

use vstd::prelude::*;
use vstd::std_specs::convert::FromSpecImpl;
use vstd::string::to_string_from_display_ensures;

verus! {

/// `std::str::Utf8Error`, carried through unchanged.
#[verifier::external_type_specification]
#[verifier::external_body]
pub struct ExUtf8Error(std::str::Utf8Error);

/// `std::string::FromUtf8Error`, carried through unchanged.
#[verifier::external_type_specification]
#[verifier::external_body]
pub struct ExFromUtf8Error(std::string::FromUtf8Error);

/// `std::io::Error`, carried through unchanged.
#[verifier::external_type_specification]
#[verifier::external_body]
pub struct ExIoError(std::io::Error);

/// `image::ImageError`, carried through unchanged.
#[verifier::external_type_specification]
#[verifier::external_body]
pub struct ExImageError(::image::ImageError);

/// `x11rb::errors::ReplyError`; only its rendering as text is used.
#[verifier::external_type_specification]
#[verifier::external_body]
pub struct ExReplyError(x11rb::errors::ReplyError);

/// `x11rb::errors::ConnectionError`; only its rendering as text is used.
#[verifier::external_type_specification]
#[verifier::external_body]
pub struct ExConnectionError(x11rb::errors::ConnectionError);

/// `x11rb::errors::ReplyOrIdError`; only its rendering as text is used.
#[verifier::external_type_specification]
#[verifier::external_body]
pub struct ExReplyOrIdError(x11rb::errors::ReplyOrIdError);

/// `x11rb::errors::ConnectError`; only its rendering as text is used.
#[verifier::external_type_specification]
#[verifier::external_body]
pub struct ExConnectError(x11rb::errors::ConnectError);

/// The native Windows code reported when the calling thread owns no message queue.
pub const ERROR_THREAD_NO_MESSAGE_QUEUE: i32 = 1418;

/// Why a clipboard operation failed.
#[derive(Debug)]
pub enum ClipboardError {
    /// A platform failure that has no variant of its own.
    Platform(String),
    /// The clipboard could not be opened.
    OpenFailed,
    /// The clipboard could not be cleared or ownership could not be given up.
    ClearFailed,
    /// A read did not deliver.
    ReadFailed,
    /// A write did not go through.
    WriteFailed,
    /// A format that the platform does not know and cannot register.
    InvalidFormat(String),
    /// None of the requested formats is on the clipboard.
    FormatNotAvailable,
    /// A wait ran out before the awaited event arrived.
    Timeout,
    /// An image could not be processed.
    ImageError(String),
    /// Bytes that should be an image are none, or do not fit their dimensions.
    InvalidImageData,
    /// Bytes that should be text are not UTF-8.
    EncodingError(std::str::Utf8Error),
    /// Bytes could not be made into a string.
    StringConversionError(std::string::FromUtf8Error),
    /// The image codec reported an error.
    ImageLibraryError(::image::ImageError),
    /// Reading or writing outside the clipboard failed.
    IoError(std::io::Error),
    /// A write without any payload.
    EmptyContent,
    /// No image is on the clipboard.
    NoImageData,
    /// No file list is on the clipboard.
    NoFileData,
    /// The header of an HTML document does not say validly where the fragment stands.
    InvalidHtmlOffsets,
    /// Bytes that should be a device-independent bitmap are none.
    InvalidBitmapData,
    /// An image has no device-independent bitmap.
    CreateDibFailed,
    /// No device context could be had.
    DeviceContextFailed,
    /// The connection to the X server failed; the context has to be opened again.
    X11ConnectionError(String),
    /// An atom could not be resolved.
    X11AtomError(String),
    /// A property could not be read or written.
    X11PropertyError(String),
    /// A native Windows error, by its code.
    WindowsClipboardError { code: i32 },
    /// The calling thread owns no message queue; the call can be made again from a thread that runs a message loop.
    ThreadNoMessageQueue,
    /// The pasteboard reported an error.
    MacOsPasteboardError(String),
    /// The native watch could not be created.
    MonitorCreationFailed,
    /// The handler could not be registered with the native watch.
    HandlerRegistrationFailed,
    /// What the clipboard gave back does not fit the format.
    DataTypeMismatch,
    /// Ownership of the clipboard could not be taken.
    OwnershipFailed,
    /// The operation is not possible in the present state or on this platform.
    UnsupportedOperation,
    /// A failure inside the library or its platform layer.
    Internal(String),
}

/// The character that writes the digit `d` (`0 <= d <= 9`).
pub open spec fn digit_char(d: int) -> char {
    if d == 0 {
        '0'
    } else if d == 1 {
        '1'
    } else if d == 2 {
        '2'
    } else if d == 3 {
        '3'
    } else if d == 4 {
        '4'
    } else if d == 5 {
        '5'
    } else if d == 6 {
        '6'
    } else if d == 7 {
        '7'
    } else if d == 8 {
        '8'
    } else {
        '9'
    }
}

/// The decimal digits of `n`, most significant first, without leading zeros.
pub open spec fn decimal_digits(n: nat) -> Seq<char>
    decreases n,
{
    if n < 10 {
        seq![digit_char(n as int)]
    } else {
        decimal_digits(n / 10).push(digit_char((n % 10) as int))
    }
}

/// The decimal rendering of `i`, with a leading minus sign when negative.
pub open spec fn decimal_text(i: int) -> Seq<char> {
    if i < 0 {
        seq!['-'] + decimal_digits((-i) as nat)
    } else {
        decimal_digits(i as nat)
    }
}

fn digit_str(d: u64) -> (s: &'static str)
    requires
        d < 10,
    ensures
        s@ == seq![digit_char(d as int)],
{
    proof {
        reveal_strlit("0");
        reveal_strlit("1");
        reveal_strlit("2");
        reveal_strlit("3");
        reveal_strlit("4");
        reveal_strlit("5");
        reveal_strlit("6");
        reveal_strlit("7");
        reveal_strlit("8");
        reveal_strlit("9");
    }
    let s = if d == 0 {
        "0"
    } else if d == 1 {
        "1"
    } else if d == 2 {
        "2"
    } else if d == 3 {
        "3"
    } else if d == 4 {
        "4"
    } else if d == 5 {
        "5"
    } else if d == 6 {
        "6"
    } else if d == 7 {
        "7"
    } else if d == 8 {
        "8"
    } else {
        "9"
    };
    assert(s@ =~= seq![digit_char(d as int)]);
    s
}

fn append_digits(out: &mut String, n: u64)
    ensures
        final(out)@ == old(out)@ + decimal_digits(n as nat),
    decreases n,
{
    if n >= 10 {
        append_digits(out, n / 10);
    }
    out.append(digit_str(n % 10));
    proof {
        if n >= 10 {
            assert(final(out)@ =~= old(out)@ + decimal_digits(n as nat));
        }
    }
}

/// Appends the decimal rendering of `code` to `out`.
pub fn append_decimal(out: &mut String, code: i32)
    ensures
        final(out)@ == old(out)@ + decimal_text(code as int),
{
    let wide: i64 = code as i64;
    if wide < 0 {
        proof {
            reveal_strlit("-");
        }
        out.append("-");
        let magnitude: u64 = (-wide) as u64;
        append_digits(out, magnitude);
        assert(final(out)@ =~= old(out)@ + decimal_text(code as int));
    } else {
        append_digits(out, wide as u64);
    }
}

impl ClipboardError {
    /// The error for a native Windows clipboard failure: the missing-message-queue
    /// code has a variant of its own, every other code is carried as it is.
    pub open spec fn windows_spec(code: i32) -> ClipboardError {
        if code == ERROR_THREAD_NO_MESSAGE_QUEUE {
            ClipboardError::ThreadNoMessageQueue
        } else {
            ClipboardError::WindowsClipboardError { code }
        }
    }

    /// Classifies a raw Windows error code.
    pub fn from_windows_code(code: i32) -> (ret: ClipboardError)
        ensures
            ret == Self::windows_spec(code),
    {
        if code == ERROR_THREAD_NO_MESSAGE_QUEUE {
            ClipboardError::ThreadNoMessageQueue
        } else {
            ClipboardError::WindowsClipboardError { code }
        }
    }

    /// The fixed words that open this error's message.
    pub open spec fn prefix(self) -> Seq<char> {
        match self {
            ClipboardError::Platform(_) => "Platform error: "@,
            ClipboardError::OpenFailed => "Failed to open clipboard"@,
            ClipboardError::ClearFailed => "Failed to clear clipboard"@,
            ClipboardError::ReadFailed => "Failed to read clipboard data"@,
            ClipboardError::WriteFailed => "Failed to write clipboard data"@,
            ClipboardError::InvalidFormat(_) => "Invalid format: "@,
            ClipboardError::FormatNotAvailable => "Format not available"@,
            ClipboardError::Timeout => "Timeout while waiting for clipboard data"@,
            ClipboardError::ImageError(_) => "Image processing error: "@,
            ClipboardError::InvalidImageData => "Invalid image data"@,
            ClipboardError::EncodingError(_) => "String encoding error: "@,
            ClipboardError::StringConversionError(_) => "String conversion error: "@,
            ClipboardError::ImageLibraryError(_) => "Image library error: "@,
            ClipboardError::IoError(_) => "IO error: "@,
            ClipboardError::EmptyContent => "Content is empty"@,
            ClipboardError::NoImageData => "No image data found"@,
            ClipboardError::NoFileData => "No file data found"@,
            ClipboardError::InvalidHtmlOffsets => "Invalid HTML offsets"@,
            ClipboardError::InvalidBitmapData => "Invalid bitmap data"@,
            ClipboardError::CreateDibFailed => "Failed to create DIB"@,
            ClipboardError::DeviceContextFailed => "Failed to get device context"@,
            ClipboardError::X11ConnectionError(_) => "X11 connection error: "@,
            ClipboardError::X11AtomError(_) => "X11 atom error: "@,
            ClipboardError::X11PropertyError(_) => "X11 property error: "@,
            ClipboardError::WindowsClipboardError { .. } => "Windows clipboard error: "@,
            ClipboardError::ThreadNoMessageQueue => "Thread has no message queue (error 1418) - clipboard access may require a window message loop"@,
            ClipboardError::MacOsPasteboardError(_) => "macOS pasteboard error: "@,
            ClipboardError::MonitorCreationFailed => "Monitor creation failed"@,
            ClipboardError::HandlerRegistrationFailed => "Handler registration failed"@,
            ClipboardError::DataTypeMismatch => "Clipboard data type mismatch"@,
            ClipboardError::OwnershipFailed => "Failed to take ownership of clipboard"@,
            ClipboardError::UnsupportedOperation => "Unsupported operation"@,
            ClipboardError::Internal(_) => "Internal error: "@,
        }
    }

    /// Whether `detail` is what follows the prefix in this error's message:
    /// the carried text, the decimal code, a rendering of the carried error,
    /// or nothing for a variant without a payload.
    pub open spec fn has_detail(self, detail: Seq<char>) -> bool {
        match self {
            ClipboardError::Platform(m) => detail == m@,
            ClipboardError::InvalidFormat(m) => detail == m@,
            ClipboardError::ImageError(m) => detail == m@,
            ClipboardError::X11ConnectionError(m) => detail == m@,
            ClipboardError::X11AtomError(m) => detail == m@,
            ClipboardError::X11PropertyError(m) => detail == m@,
            ClipboardError::MacOsPasteboardError(m) => detail == m@,
            ClipboardError::Internal(m) => detail == m@,
            ClipboardError::WindowsClipboardError { code } => detail == decimal_text(code as int),
            ClipboardError::EncodingError(e) => exists|s: String|
                to_string_from_display_ensures::<std::str::Utf8Error>(&e, s) && detail == s@,
            ClipboardError::StringConversionError(e) => exists|s: String|
                to_string_from_display_ensures::<std::string::FromUtf8Error>(&e, s) && detail
                    == s@,
            ClipboardError::ImageLibraryError(e) => exists|s: String|
                to_string_from_display_ensures::<::image::ImageError>(&e, s) && detail == s@,
            ClipboardError::IoError(e) => exists|s: String|
                to_string_from_display_ensures::<std::io::Error>(&e, s) && detail == s@,
            _ => detail == Seq::<char>::empty(),
        }
    }

    /// Whether `text` is this error's message: its prefix followed by its detail.
    pub open spec fn is_message(self, text: Seq<char>) -> bool {
        exists|detail: Seq<char>| #[trigger]
            self.has_detail(detail) && text == self.prefix() + detail
    }

    /// The human-readable message of this error.
    pub fn message(&self) -> (text: String)
        ensures
            self.is_message(text@),
    {
        let mut out = String::new();
        match self {
            ClipboardError::Platform(m) => {
                out.append("Platform error: ");
                out.append(m.as_str());
                proof {
                    self.lemma_message(m@, out@);
                }
            },
            ClipboardError::OpenFailed => {
                out.append("Failed to open clipboard");
                proof {
                    self.lemma_message(Seq::empty(), out@);
                }
            },
            ClipboardError::ClearFailed => {
                out.append("Failed to clear clipboard");
                proof {
                    self.lemma_message(Seq::empty(), out@);
                }
            },
            ClipboardError::ReadFailed => {
                out.append("Failed to read clipboard data");
                proof {
                    self.lemma_message(Seq::empty(), out@);
                }
            },
            ClipboardError::WriteFailed => {
                out.append("Failed to write clipboard data");
                proof {
                    self.lemma_message(Seq::empty(), out@);
                }
            },
            ClipboardError::InvalidFormat(m) => {
                out.append("Invalid format: ");
                out.append(m.as_str());
                proof {
                    self.lemma_message(m@, out@);
                }
            },
            ClipboardError::FormatNotAvailable => {
                out.append("Format not available");
                proof {
                    self.lemma_message(Seq::empty(), out@);
                }
            },
            ClipboardError::Timeout => {
                out.append("Timeout while waiting for clipboard data");
                proof {
                    self.lemma_message(Seq::empty(), out@);
                }
            },
            ClipboardError::ImageError(m) => {
                out.append("Image processing error: ");
                out.append(m.as_str());
                proof {
                    self.lemma_message(m@, out@);
                }
            },
            ClipboardError::InvalidImageData => {
                out.append("Invalid image data");
                proof {
                    self.lemma_message(Seq::empty(), out@);
                }
            },
            ClipboardError::EncodingError(e) => {
                let s = e.to_string();
                out.append("String encoding error: ");
                out.append(s.as_str());
                proof {
                    self.lemma_message(s@, out@);
                }
            },
            ClipboardError::StringConversionError(e) => {
                let s = e.to_string();
                out.append("String conversion error: ");
                out.append(s.as_str());
                proof {
                    self.lemma_message(s@, out@);
                }
            },
            ClipboardError::ImageLibraryError(e) => {
                let s = e.to_string();
                out.append("Image library error: ");
                out.append(s.as_str());
                proof {
                    self.lemma_message(s@, out@);
                }
            },
            ClipboardError::IoError(e) => {
                let s = e.to_string();
                out.append("IO error: ");
                out.append(s.as_str());
                proof {
                    self.lemma_message(s@, out@);
                }
            },
            ClipboardError::EmptyContent => {
                out.append("Content is empty");
                proof {
                    self.lemma_message(Seq::empty(), out@);
                }
            },
            ClipboardError::NoImageData => {
                out.append("No image data found");
                proof {
                    self.lemma_message(Seq::empty(), out@);
                }
            },
            ClipboardError::NoFileData => {
                out.append("No file data found");
                proof {
                    self.lemma_message(Seq::empty(), out@);
                }
            },
            ClipboardError::InvalidHtmlOffsets => {
                out.append("Invalid HTML offsets");
                proof {
                    self.lemma_message(Seq::empty(), out@);
                }
            },
            ClipboardError::InvalidBitmapData => {
                out.append("Invalid bitmap data");
                proof {
                    self.lemma_message(Seq::empty(), out@);
                }
            },
            ClipboardError::CreateDibFailed => {
                out.append("Failed to create DIB");
                proof {
                    self.lemma_message(Seq::empty(), out@);
                }
            },
            ClipboardError::DeviceContextFailed => {
                out.append("Failed to get device context");
                proof {
                    self.lemma_message(Seq::empty(), out@);
                }
            },
            ClipboardError::X11ConnectionError(m) => {
                out.append("X11 connection error: ");
                out.append(m.as_str());
                proof {
                    self.lemma_message(m@, out@);
                }
            },
            ClipboardError::X11AtomError(m) => {
                out.append("X11 atom error: ");
                out.append(m.as_str());
                proof {
                    self.lemma_message(m@, out@);
                }
            },
            ClipboardError::X11PropertyError(m) => {
                out.append("X11 property error: ");
                out.append(m.as_str());
                proof {
                    self.lemma_message(m@, out@);
                }
            },
            ClipboardError::WindowsClipboardError { code } => {
                out.append("Windows clipboard error: ");
                append_decimal(&mut out, *code);
                proof {
                    self.lemma_message(decimal_text(*code as int), out@);
                }
            },
            ClipboardError::ThreadNoMessageQueue => {
                out.append(
                    "Thread has no message queue (error 1418) - clipboard access may require a window message loop",
                );
                proof {
                    self.lemma_message(Seq::empty(), out@);
                }
            },
            ClipboardError::MacOsPasteboardError(m) => {
                out.append("macOS pasteboard error: ");
                out.append(m.as_str());
                proof {
                    self.lemma_message(m@, out@);
                }
            },
            ClipboardError::MonitorCreationFailed => {
                out.append("Monitor creation failed");
                proof {
                    self.lemma_message(Seq::empty(), out@);
                }
            },
            ClipboardError::HandlerRegistrationFailed => {
                out.append("Handler registration failed");
                proof {
                    self.lemma_message(Seq::empty(), out@);
                }
            },
            ClipboardError::DataTypeMismatch => {
                out.append("Clipboard data type mismatch");
                proof {
                    self.lemma_message(Seq::empty(), out@);
                }
            },
            ClipboardError::OwnershipFailed => {
                out.append("Failed to take ownership of clipboard");
                proof {
                    self.lemma_message(Seq::empty(), out@);
                }
            },
            ClipboardError::UnsupportedOperation => {
                out.append("Unsupported operation");
                proof {
                    self.lemma_message(Seq::empty(), out@);
                }
            },
            ClipboardError::Internal(m) => {
                out.append("Internal error: ");
                out.append(m.as_str());
                proof {
                    self.lemma_message(m@, out@);
                }
            },
        }
        out
    }

    proof fn lemma_message(self, detail: Seq<char>, text: Seq<char>)
        requires
            self.has_detail(detail),
            text =~= Seq::<char>::empty() + self.prefix() + detail,
        ensures
            self.is_message(text),
    {
        assert(text =~= self.prefix() + detail);
    }
}

impl From<String> for ClipboardError {
    fn from(err: String) -> (ret: Self) {
        ClipboardError::Internal(err)
    }
}

impl FromSpecImpl<String> for ClipboardError {
    open spec fn obeys_from_spec() -> bool {
        true
    }

    open spec fn from_spec(err: String) -> Self {
        ClipboardError::Internal(err)
    }
}

impl From<std::str::Utf8Error> for ClipboardError {
    fn from(err: std::str::Utf8Error) -> (ret: Self) {
        ClipboardError::EncodingError(err)
    }
}

impl FromSpecImpl<std::str::Utf8Error> for ClipboardError {
    open spec fn obeys_from_spec() -> bool {
        true
    }

    open spec fn from_spec(err: std::str::Utf8Error) -> Self {
        ClipboardError::EncodingError(err)
    }
}

impl From<std::string::FromUtf8Error> for ClipboardError {
    fn from(err: std::string::FromUtf8Error) -> (ret: Self) {
        ClipboardError::StringConversionError(err)
    }
}

impl FromSpecImpl<std::string::FromUtf8Error> for ClipboardError {
    open spec fn obeys_from_spec() -> bool {
        true
    }

    open spec fn from_spec(err: std::string::FromUtf8Error) -> Self {
        ClipboardError::StringConversionError(err)
    }
}

impl From<::image::ImageError> for ClipboardError {
    fn from(err: ::image::ImageError) -> (ret: Self) {
        ClipboardError::ImageLibraryError(err)
    }
}

impl FromSpecImpl<::image::ImageError> for ClipboardError {
    open spec fn obeys_from_spec() -> bool {
        true
    }

    open spec fn from_spec(err: ::image::ImageError) -> Self {
        ClipboardError::ImageLibraryError(err)
    }
}

impl From<std::io::Error> for ClipboardError {
    fn from(err: std::io::Error) -> (ret: Self) {
        ClipboardError::IoError(err)
    }
}

impl FromSpecImpl<std::io::Error> for ClipboardError {
    open spec fn obeys_from_spec() -> bool {
        true
    }

    open spec fn from_spec(err: std::io::Error) -> Self {
        ClipboardError::IoError(err)
    }
}

/// The major opcode of the request that resolves a name to an atom.
pub const INTERN_ATOM: u8 = 16;

/// The major opcode of the request that resolves an atom to its name.
pub const GET_ATOM_NAME: u8 = 17;

/// The major opcode of the request that writes a property.
pub const CHANGE_PROPERTY: u8 = 18;

/// The major opcode of the request that deletes a property.
pub const DELETE_PROPERTY: u8 = 19;

/// The major opcode of the request that reads a property.
pub const GET_PROPERTY: u8 = 20;

/// How an X11 request failed.
#[derive(Debug, Clone, Copy, PartialEq, Eq, Structural)]
pub enum X11Fault {
    /// The connection failed.
    Connection,
    /// No resource identifier is left.
    IdsExhausted,
    /// The server answered the request of this major opcode with an error;
    /// the connection is intact.
    Request { major_opcode: u8 },
}

/// Tells the variants of `x11rb::errors::ReplyError` apart and hands out
/// the major opcode that a protocol error carries. Nothing is claimed of
/// what comes back.
#[verifier::external_body]
fn reply_fault(err: &x11rb::errors::ReplyError) -> (fault: X11Fault) {
    match err {
        x11rb::errors::ReplyError::ConnectionError(_) => X11Fault::Connection,
        x11rb::errors::ReplyError::X11Error(e) => X11Fault::Request { major_opcode: e.major_opcode },
    }
}

/// Tells the variants of `x11rb::errors::ReplyOrIdError` apart and hands
/// out the major opcode that a protocol error carries. Nothing is claimed
/// of what comes back.
#[verifier::external_body]
fn reply_or_id_fault(err: &x11rb::errors::ReplyOrIdError) -> (fault: X11Fault) {
    match err {
        x11rb::errors::ReplyOrIdError::IdsExhausted => X11Fault::IdsExhausted,
        x11rb::errors::ReplyOrIdError::ConnectionError(_) => X11Fault::Connection,
        x11rb::errors::ReplyOrIdError::X11Error(e) => X11Fault::Request {
            major_opcode: e.major_opcode,
        },
    }
}

impl ClipboardError {
    /// The error for an X11 failure of the kind `fault` that renders as
    /// `text`: a refused atom request is an atom error, a refused property
    /// request is a property error, and everything else, the failures of
    /// the connection among it, is a connection error.
    pub open spec fn x11_spec(fault: X11Fault, text: String) -> ClipboardError {
        match fault {
            X11Fault::Request { major_opcode } => if major_opcode == INTERN_ATOM || major_opcode
                == GET_ATOM_NAME {
                ClipboardError::X11AtomError(text)
            } else if major_opcode == CHANGE_PROPERTY || major_opcode == DELETE_PROPERTY
                || major_opcode == GET_PROPERTY {
                ClipboardError::X11PropertyError(text)
            } else {
                ClipboardError::X11ConnectionError(text)
            },
            _ => ClipboardError::X11ConnectionError(text),
        }
    }

    /// The error for an X11 failure of the kind `fault` that renders as `text`.
    pub fn from_x11_fault(fault: X11Fault, text: String) -> (ret: ClipboardError)
        ensures
            ret == Self::x11_spec(fault, text),
    {
        match fault {
            X11Fault::Request { major_opcode } => {
                if major_opcode == INTERN_ATOM || major_opcode == GET_ATOM_NAME {
                    ClipboardError::X11AtomError(text)
                } else if major_opcode == CHANGE_PROPERTY || major_opcode == DELETE_PROPERTY
                    || major_opcode == GET_PROPERTY {
                    ClipboardError::X11PropertyError(text)
                } else {
                    ClipboardError::X11ConnectionError(text)
                }
            },
            _ => ClipboardError::X11ConnectionError(text),
        }
    }

    /// The error for a failure of the X11 connection described by `text`.
    pub fn connection_failure(text: String) -> (ret: ClipboardError)
        ensures
            ret == ClipboardError::X11ConnectionError(text),
            ret == Self::x11_spec(X11Fault::Connection, text),
    {
        ClipboardError::X11ConnectionError(text)
    }
}

/// Only a refused atom request gives an atom error, only a refused
/// property request gives a property error, and a failure of the
/// connection always gives a connection error.
pub proof fn lemma_x11_most_specific(fault: X11Fault, text: String)
    ensures
        ClipboardError::x11_spec(fault, text) is X11AtomError <==> (fault matches X11Fault::Request {
            major_opcode,
        } && (major_opcode == INTERN_ATOM || major_opcode == GET_ATOM_NAME)),
        ClipboardError::x11_spec(fault, text) is X11PropertyError <==> (fault matches X11Fault::Request {
            major_opcode,
        } && CHANGE_PROPERTY <= major_opcode <= GET_PROPERTY),
        fault == X11Fault::Connection ==> ClipboardError::x11_spec(fault, text)
            == ClipboardError::X11ConnectionError(text),
        ClipboardError::x11_spec(fault, text) is X11AtomError || ClipboardError::x11_spec(fault, text)
            is X11PropertyError || ClipboardError::x11_spec(fault, text) is X11ConnectionError,
{
}

impl From<x11rb::errors::ReplyError> for ClipboardError {
    /// A failed X11 request becomes the most specific X11 error for the
    /// way it failed, and carries the failure's own rendering as text.
    fn from(err: x11rb::errors::ReplyError) -> (ret: Self)
        ensures
            exists|fault: X11Fault, text: String|
                to_string_from_display_ensures::<x11rb::errors::ReplyError>(&err, text) && ret
                    == #[trigger] ClipboardError::x11_spec(fault, text),
    {
        let fault = reply_fault(&err);
        let text = err.to_string();
        ClipboardError::from_x11_fault(fault, text)
    }
}

impl FromSpecImpl<x11rb::errors::ReplyError> for ClipboardError {
    /// Neither the kind of an outside error nor its rendering is a
    /// function known here, so the conversion is described by the contract
    /// of `from` alone.
    open spec fn obeys_from_spec() -> bool {
        false
    }

    open spec fn from_spec(err: x11rb::errors::ReplyError) -> Self {
        ClipboardError::x11_spec(
            arbitrary(),
            choose|text: String| to_string_from_display_ensures::<x11rb::errors::ReplyError>(&err, text),
        )
    }
}

impl From<x11rb::errors::ReplyOrIdError> for ClipboardError {
    /// A failed X11 request becomes the most specific X11 error for the
    /// way it failed, and carries the failure's own rendering as text.
    fn from(err: x11rb::errors::ReplyOrIdError) -> (ret: Self)
        ensures
            exists|fault: X11Fault, text: String|
                to_string_from_display_ensures::<x11rb::errors::ReplyOrIdError>(&err, text) && ret
                    == #[trigger] ClipboardError::x11_spec(fault, text),
    {
        let fault = reply_or_id_fault(&err);
        let text = err.to_string();
        ClipboardError::from_x11_fault(fault, text)
    }
}

impl FromSpecImpl<x11rb::errors::ReplyOrIdError> for ClipboardError {
    /// Neither the kind of an outside error nor its rendering is a
    /// function known here, so the conversion is described by the contract
    /// of `from` alone.
    open spec fn obeys_from_spec() -> bool {
        false
    }

    open spec fn from_spec(err: x11rb::errors::ReplyOrIdError) -> Self {
        ClipboardError::x11_spec(
            arbitrary(),
            choose|text: String| to_string_from_display_ensures::<x11rb::errors::ReplyOrIdError>(&err, text),
        )
    }
}

impl From<x11rb::errors::ConnectionError> for ClipboardError {
    /// A failure of the connection becomes a connection error that carries
    /// the failure's own rendering as text.
    fn from(err: x11rb::errors::ConnectionError) -> (ret: Self)
        ensures
            ret matches ClipboardError::X11ConnectionError(text)
                && to_string_from_display_ensures::<x11rb::errors::ConnectionError>(&err, text),
    {
        ClipboardError::connection_failure(err.to_string())
    }
}

impl FromSpecImpl<x11rb::errors::ConnectionError> for ClipboardError {
    /// The rendering of an outside error is not a function known here, so
    /// the conversion is described by the contract of `from` alone.
    open spec fn obeys_from_spec() -> bool {
        false
    }

    open spec fn from_spec(err: x11rb::errors::ConnectionError) -> Self {
        ClipboardError::X11ConnectionError(
            choose|text: String| to_string_from_display_ensures::<x11rb::errors::ConnectionError>(&err, text),
        )
    }
}

impl From<x11rb::errors::ConnectError> for ClipboardError {
    /// A failure of the connection becomes a connection error that carries
    /// the failure's own rendering as text.
    fn from(err: x11rb::errors::ConnectError) -> (ret: Self)
        ensures
            ret matches ClipboardError::X11ConnectionError(text)
                && to_string_from_display_ensures::<x11rb::errors::ConnectError>(&err, text),
    {
        ClipboardError::connection_failure(err.to_string())
    }
}

impl FromSpecImpl<x11rb::errors::ConnectError> for ClipboardError {
    /// The rendering of an outside error is not a function known here, so
    /// the conversion is described by the contract of `from` alone.
    open spec fn obeys_from_spec() -> bool {
        false
    }

    open spec fn from_spec(err: x11rb::errors::ConnectError) -> Self {
        ClipboardError::X11ConnectionError(
            choose|text: String| to_string_from_display_ensures::<x11rb::errors::ConnectError>(&err, text),
        )
    }
}

/// The conversion of a Windows code keeps the code: the error either is
/// the missing message queue, for its own code and no other, or carries
/// exactly the code it was made from.
pub proof fn lemma_windows_code_kept(code: i32)
    ensures
        ClipboardError::windows_spec(code) is ThreadNoMessageQueue <==> code
            == ERROR_THREAD_NO_MESSAGE_QUEUE,
        code != ERROR_THREAD_NO_MESSAGE_QUEUE ==> ClipboardError::windows_spec(code)
            == (ClipboardError::WindowsClipboardError { code }),
{
}

} // verus!
