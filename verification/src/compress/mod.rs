//! Compression settings: which codec a file extension calls for and how each
//! encoder and decoder is configured.
//!
//! The streams themselves are built by the program around this library from
//! these settings.

pub mod decode;
pub mod encode;
mod error;
mod format;

pub use error::{decimal, digit_char, CompressError, CompressErrorKind};
pub use format::{
    bgzf_extension, deflate_extension, extension_or_empty, format_for_extension, gzip_extension,
    path_extension_of, Format, encoder_format, decoder_format,
};
