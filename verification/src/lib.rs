//! Clipboard protocol logic: content model, transfer encodings and the
//! state machines that drive the platform clipboards.

pub mod atoms;
pub mod codec;
pub mod content;
pub mod context;
pub mod dib;
pub mod error;
pub mod files;
pub mod html_format;
pub mod image_data;
pub mod incr;
pub mod monitor;
pub mod pasteboard;
pub mod selection;
pub mod windows;

pub use content::{ClipboardPayload, ContentFormat};
pub use context::ClipboardContext;
pub use error::ClipboardError;
pub use image_data::ImageData;
