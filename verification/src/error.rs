//! The failures that producing a sprite sheet can end in.

use vstd::prelude::*;

verus! {

/// Why no sprite sheet came out.
#[derive(Clone, Copy, Debug, PartialEq, Eq, Structural)]
pub enum SheetError {
    /// The grid was asked to have zero columns.
    InvalidLayout,
    /// A source frame has a width or a height of zero.
    InvalidFrame,
    /// There is no frame to place.
    EmptySequence,
    /// The finished raster could not be written out.
    PersistFailure,
    /// The transcoder ended with a failure status.
    TranscodeFailure,
    /// The intermediate animation could not be decoded.
    DecodeFailure,
}

impl SheetError {
    /// The text shown to the user for each failure: it names the stage that failed.
    pub open spec fn message_text(self) -> Seq<char> {
        match self {
            SheetError::InvalidLayout => "layout: the column count must be positive"@,
            SheetError::InvalidFrame => "frame: a source frame has a zero dimension"@,
            SheetError::EmptySequence => "frames: there is no frame to place"@,
            SheetError::PersistFailure => "output: the sprite sheet could not be written"@,
            SheetError::TranscodeFailure => "transcode: the video could not be converted"@,
            SheetError::DecodeFailure => "decode: the intermediate animation could not be read"@,
        }
    }

    /// The user-facing text of this failure.
    pub fn message(&self) -> (text: String)
        ensures
            text@ == self.message_text(),
    {
        match self {
            SheetError::InvalidLayout => String::from_str("layout: the column count must be positive"),
            SheetError::InvalidFrame => String::from_str("frame: a source frame has a zero dimension"),
            SheetError::EmptySequence => String::from_str("frames: there is no frame to place"),
            SheetError::PersistFailure => String::from_str("output: the sprite sheet could not be written"),
            SheetError::TranscodeFailure => String::from_str("transcode: the video could not be converted"),
            SheetError::DecodeFailure => String::from_str("decode: the intermediate animation could not be read"),
        }
    }
}

} // verus!
