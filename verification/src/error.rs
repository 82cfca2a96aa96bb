//! Decoder error classification.

use vstd::prelude::*;

verus! {

/// Everything that can go wrong while decoding an H.263 bitstream.
#[derive(Copy, Clone, Debug, PartialEq, Eq, Structural)]
pub enum Error {
    /// No picture start code was found at the current bitstream position.
    MiddleOfBitstream,

    /// A syntactically invalid prefix, a reserved value combination, or a
    /// semantic rule violation was encountered.
    InvalidBitstream,

    /// A group-of-blocks header failed to parse.
    InvalidGobHeader,

    /// A motion-vector differential was out of the representable range.
    InvalidMvd,

    /// An I-frame contained uncoded (skipped) macroblocks, which the
    /// format prohibits.
    UncodedIFrameBlocks,

    /// A picture required a source format, but neither the picture header
    /// nor any previous picture supplied one.
    PictureFormatMissing,

    /// The source format in force cannot be turned into pixel dimensions.
    PictureFormatInvalid,

    /// The bitstream is well-formed but uses an optional feature this
    /// decoder does not implement.
    UnimplementedDecoding,

    /// A contract violation inside the decoder, such as a malformed
    /// variable-length-code table.
    InternalDecoderError,

    /// The byte source ran out before the requested bits could be read.
    /// Callers may feed more bytes into the reader and retry.
    EndOfStream,
}

impl Error {
    /// Does this error mean the byte source was exhausted?
    pub fn is_eof_error(&self) -> (r: bool)
        ensures
            r == (*self == Error::EndOfStream),
    {
        matches!(self, Error::EndOfStream)
    }

    /// Is this one of the errors that macroblock-level recovery may
    /// resynchronise past?
    pub fn is_macroblock_error(&self) -> (r: bool)
        ensures
            r == (*self == Error::InvalidBitstream || *self == Error::InvalidMvd),
    {
        matches!(self, Error::InvalidBitstream | Error::InvalidMvd)
    }

    /// Does this error come from a failed group-of-blocks header parse?
    pub fn is_gob_error(&self) -> (r: bool)
        ensures
            r == (*self == Error::InvalidGobHeader),
    {
        matches!(self, Error::InvalidGobHeader)
    }

    /// A short human-readable description of the error.
    pub fn description(&self) -> String {
        match self {
            Error::MiddleOfBitstream => "not at the start of a picture".to_string(),
            Error::InvalidBitstream => "invalid bitstream".to_string(),
            Error::InvalidGobHeader => "invalid group-of-blocks header".to_string(),
            Error::InvalidMvd => "invalid motion-vector differential".to_string(),
            Error::UncodedIFrameBlocks => "uncoded blocks in an I-frame".to_string(),
            Error::PictureFormatMissing => "picture format missing".to_string(),
            Error::PictureFormatInvalid => "picture format invalid".to_string(),
            Error::UnimplementedDecoding => "unimplemented decoding feature".to_string(),
            Error::InternalDecoderError => "internal decoder error".to_string(),
            Error::EndOfStream => "end of stream".to_string(),
        }
    }
}

} // verus!
