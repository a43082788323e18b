//! The error type of the OpenRaster adapter.

use vstd::prelude::*;

use crate::text::push_text;

verus! {

/// Errors produced while reading or writing an OpenRaster archive.
#[derive(Debug)]
pub enum OraError {
    /// The archive's `mimetype` entry is missing or not `image/openraster`.
    BadMimetype,
    /// The archive does not contain the required `stack.xml`.
    MissingStackXml,
    /// `stack.xml` is missing the `<image>` width/height attributes.
    MissingImageDimensions,
    /// `stack.xml` could not be parsed; the parser's message.
    Xml(String),
    /// The ZIP container could not be read or written; its message.
    Zip(String),
    /// A layer references a `src` part that is not in the archive.
    MissingLayerData(String),
    /// A raster part failed to decode or encode; its message.
    Aif(String),
    /// Reading or writing the file failed; the message of the I/O error.
    Io(String),
}

/// The message of `e`, as its `Display` text reads.
pub open spec fn ora_message(e: OraError) -> Seq<char> {
    match e {
        OraError::BadMimetype => "not an OpenRaster file (missing or wrong mimetype)"@,
        OraError::MissingStackXml => "missing stack.xml"@,
        OraError::MissingImageDimensions => "stack.xml: missing or invalid image dimensions"@,
        OraError::Xml(m) => "stack.xml parse error: "@ + m@,
        OraError::Zip(m) => "ORA container error: "@ + m@,
        OraError::MissingLayerData(p) => "missing layer data part '"@ + p@ + "'"@,
        OraError::Aif(m) => "raster error: "@ + m@,
        OraError::Io(m) => "I/O error: "@ + m@,
    }
}

impl OraError {
    /// The human-readable message of this error.
    pub fn message(&self) -> (r: String)
        ensures
            r@ == ora_message(*self),
    {
        match self {
            OraError::BadMimetype => "not an OpenRaster file (missing or wrong mimetype)".to_owned(),
            OraError::MissingStackXml => "missing stack.xml".to_owned(),
            OraError::MissingImageDimensions => "stack.xml: missing or invalid image dimensions".to_owned(),
            OraError::Xml(m) => {
                let mut s = "stack.xml parse error: ".to_owned();
                push_text(&mut s, m.as_str());
                s
            },
            OraError::Zip(m) => {
                let mut s = "ORA container error: ".to_owned();
                push_text(&mut s, m.as_str());
                s
            },
            OraError::MissingLayerData(p) => {
                let mut s = "missing layer data part '".to_owned();
                push_text(&mut s, p.as_str());
                push_text(&mut s, "'");
                s
            },
            OraError::Aif(m) => {
                let mut s = "raster error: ".to_owned();
                push_text(&mut s, m.as_str());
                s
            },
            OraError::Io(m) => {
                let mut s = "I/O error: ".to_owned();
                push_text(&mut s, m.as_str());
                s
            },
        }
    }
}

} // verus!
