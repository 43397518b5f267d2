//! What can go wrong while decoding.
use vstd::prelude::*;

verus! {

#[derive(Debug, Clone, Copy, PartialEq, Eq, Structural)]
#[non_exhaustive]
pub enum Rav2dError {
    Eof,
    Again,
    InvalidData,
    FrameTooLarge,
    InvalidParam,
    OutOfMemory,
}

pub type Result<T> = core::result::Result<T, Rav2dError>;

impl Rav2dError {
    pub open spec fn text(self) -> Seq<char> {
        match self {
            Rav2dError::Eof => "end of stream"@,
            Rav2dError::Again => "need more data"@,
            Rav2dError::InvalidData => "invalid or corrupt bitstream data"@,
            Rav2dError::FrameTooLarge => "frame dimensions exceed limit"@,
            Rav2dError::InvalidParam => "invalid parameter"@,
            Rav2dError::OutOfMemory => "out of memory"@,
        }
    }

    /// The message shown to the user.
    pub fn message(&self) -> (s: String)
        ensures
            s@ == self.text(),
    {
        match self {
            Rav2dError::Eof => String::from_str("end of stream"),
            Rav2dError::Again => String::from_str("need more data"),
            Rav2dError::InvalidData => String::from_str("invalid or corrupt bitstream data"),
            Rav2dError::FrameTooLarge => String::from_str("frame dimensions exceed limit"),
            Rav2dError::InvalidParam => String::from_str("invalid parameter"),
            Rav2dError::OutOfMemory => String::from_str("out of memory"),
        }
    }
}

} // verus!
