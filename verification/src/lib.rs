//! Decoder for the NCM encrypted music-container format.
//!
//! A container holds a magic header, an encrypted per-file key block, an
//! encrypted JSON metadata block, an embedded cover image and an encrypted
//! audio payload.  Decoding recovers the per-file key and the metadata with
//! two fixed master keys, derives a 256-entry substitution table from the
//! per-file key, and strips the keystream from the audio payload.

use vstd::prelude::*;

pub mod blocks;
pub mod dump;
pub mod json;
pub mod keybox;

pub use dump::Meta;
pub use dump::Song;

verus! {

/// The error reported when a byte buffer is not a well-formed container.
/// Every failure is terminal for the file being decoded: the format carries
/// no integrity check, so the first structural violation aborts the decode.
#[derive(Clone, Copy, Debug, PartialEq, Eq, Structural)]
pub enum DumpError {
    /// The magic header is wrong, or an embedded base64 block is malformed.
    InvalidFile,
    /// A length-prefixed block or a fixed-size field reaches past the end of
    /// the buffer, or a recovered plaintext is shorter than its fixed prefix.
    Truncated,
    /// An encrypted block is not a whole number of cipher blocks, or its
    /// padding fails validation after decryption.
    InvalidPadding,
    /// The recovered metadata plaintext is not valid UTF-8.
    InvalidUtf8,
    /// The recovered metadata text is not JSON of the expected shape.
    InvalidMeta,
}

impl DumpError {
    /// A short human-readable description of the error.
    pub fn message(&self) -> (r: &'static str)
    {
        match self {
            DumpError::InvalidFile => "not valid NCM file",
            DumpError::Truncated => "container is truncated",
            DumpError::InvalidPadding => "invalid block cipher padding",
            DumpError::InvalidUtf8 => "metadata is not valid UTF-8",
            DumpError::InvalidMeta => "metadata JSON has an unexpected shape",
        }
    }
}

} // verus!
