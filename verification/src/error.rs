use vstd::prelude::*;

verus! {

/// Every way a call into the engine can fail.  A call either fully succeeds
/// and returns one result, or fully fails with exactly one of these.
#[derive(Clone, Copy, Debug, PartialEq, Eq, Structural)]
pub enum EngineError {
    /// The input bytes match no recognized raster signature.
    UnknownFormat,
    /// A signature was recognized but the body is corrupt or unsupported.
    DecodeFailure,
    /// The vector input does not parse as a document tree.
    MalformedDocument,
    /// The rewritten document tree could not be written back to bytes.
    SerializationFailure,
    /// A parameter buffer expected to hold UTF-8 text is not valid UTF-8.
    InvalidEncoding,
    /// A parameter buffer has the wrong width for its fixed-width type, or
    /// its text does not parse as the expected number.
    MalformedArgument,
    /// A required flag or mode buffer is empty.
    MissingArgument,
    /// A crop rectangle exceeds the source image dimensions.
    OutOfBounds,
    /// The result pixel data could not be written to the output container.
    EncodeFailure,
}

impl EngineError {
    /// The text of the error, as surfaced to the caller across the call
    /// boundary (the wire format has no structured error codes).
    pub open spec fn text(self) -> Seq<char> {
        match self {
            EngineError::UnknownFormat => "unknown image format"@,
            EngineError::DecodeFailure => "could not decode image data"@,
            EngineError::MalformedDocument => "could not parse SVG data"@,
            EngineError::SerializationFailure => "could not write SVG bytes"@,
            EngineError::InvalidEncoding => "argument is not valid UTF-8"@,
            EngineError::MalformedArgument => "could not convert argument bytes"@,
            EngineError::MissingArgument => "required argument is empty"@,
            EngineError::OutOfBounds => "geometry exceeds image bounds"@,
            EngineError::EncodeFailure => "could not write image bytes to buffer"@,
        }
    }

    /// A human-readable description of the failure.
    pub fn message(&self) -> (r: &'static str)
        ensures
            r@ == self.text(),
    {
        match self {
            EngineError::UnknownFormat => "unknown image format",
            EngineError::DecodeFailure => "could not decode image data",
            EngineError::MalformedDocument => "could not parse SVG data",
            EngineError::SerializationFailure => "could not write SVG bytes",
            EngineError::InvalidEncoding => "argument is not valid UTF-8",
            EngineError::MalformedArgument => "could not convert argument bytes",
            EngineError::MissingArgument => "required argument is empty",
            EngineError::OutOfBounds => "geometry exceeds image bounds",
            EngineError::EncodeFailure => "could not write image bytes to buffer",
        }
    }
}

} // verus!
