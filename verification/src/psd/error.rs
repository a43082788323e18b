//! The error type of the PSD adapter.

use vstd::prelude::*;

use crate::text::{decimal, push_decimal, push_text};

verus! {

/// Errors produced while reading or writing a Photoshop document.
#[derive(Debug)]
pub enum PsdError {
    /// The file does not begin with the `8BPS` signature.
    BadSignature,
    /// The file is shorter than the 26-byte file header.
    Truncated(usize),
    /// The version field is not `1` (`2` is PSB, the large-document format).
    UnsupportedVersion(u16),
    /// The document uses a colour mode other than RGB or Grayscale.
    UnsupportedColorMode(String),
    /// The parser rejected the file as malformed.
    Corrupt(String),
    /// The document exceeds the 30,000-pixel-per-side limit.
    DimensionsTooLarge {
        /// Canvas width in pixels.
        width: u32,
        /// Canvas height in pixels.
        height: u32,
    },
    /// Reading or writing the bytes failed; the message of the I/O error.
    Io(String),
}

/// The message of `e`, as its `Display` text reads.
pub open spec fn psd_message(e: PsdError) -> Seq<char> {
    match e {
        PsdError::BadSignature => "not a PSD file (bad signature)"@,
        PsdError::Truncated(n) => "file too short to be a PSD ("@ + decimal(n as nat) + " bytes)"@,
        PsdError::UnsupportedVersion(v) => "unsupported PSD version "@ + decimal(v as nat)
            + " (only version 1 is supported; 2 is PSB)"@,
        PsdError::UnsupportedColorMode(m) => "unsupported PSD colour mode '"@ + m@
            + "' (Phase 1 supports RGB and Grayscale)"@,
        PsdError::Corrupt(m) => "malformed PSD: "@ + m@,
        PsdError::DimensionsTooLarge { width, height } => "document "@ + decimal(width as nat) + "×"@ + decimal(
            height as nat,
        ) + " exceeds the PSD 30000px dimension limit"@,
        PsdError::Io(m) => "I/O error: "@ + m@,
    }
}

impl PsdError {
    /// The human-readable message of this error.
    pub fn message(&self) -> (r: String)
        ensures
            r@ == psd_message(*self),
    {
        match self {
            PsdError::BadSignature => "not a PSD file (bad signature)".to_owned(),
            PsdError::Truncated(n) => {
                let mut s = "file too short to be a PSD (".to_owned();
                push_decimal(&mut s, *n as u64);
                push_text(&mut s, " bytes)");
                s
            },
            PsdError::UnsupportedVersion(v) => {
                let mut s = "unsupported PSD version ".to_owned();
                push_decimal(&mut s, *v as u64);
                push_text(&mut s, " (only version 1 is supported; 2 is PSB)");
                s
            },
            PsdError::UnsupportedColorMode(m) => {
                let mut s = "unsupported PSD colour mode '".to_owned();
                push_text(&mut s, m.as_str());
                push_text(&mut s, "' (Phase 1 supports RGB and Grayscale)");
                s
            },
            PsdError::Corrupt(m) => {
                let mut s = "malformed PSD: ".to_owned();
                push_text(&mut s, m.as_str());
                s
            },
            PsdError::DimensionsTooLarge { width, height } => {
                let mut s = "document ".to_owned();
                push_decimal(&mut s, *width as u64);
                push_text(&mut s, "×");
                push_decimal(&mut s, *height as u64);
                push_text(&mut s, " exceeds the PSD 30000px dimension limit");
                s
            },
            PsdError::Io(m) => {
                let mut s = "I/O error: ".to_owned();
                push_text(&mut s, m.as_str());
                s
            },
        }
    }
}

} // verus!
