use vstd::prelude::*;

verus! {

/// What went wrong while decoding.
#[derive(Clone, Copy, Debug, PartialEq, Eq, Structural)]
pub enum ErrorKind {
    /// The file does not start with the ASCII tag `SNSS`.
    BadMagic,
    /// A read or a declared length reaches past the bytes available.
    Truncated,
    /// A text field is not valid UTF-8, or not valid UTF-16.
    InvalidText,
}

/// A terminal decode failure, with the absolute offset into the input buffer
/// at which it was detected.
#[derive(Clone, Copy, Debug, PartialEq, Eq, Structural)]
pub struct Error {
    pub kind: ErrorKind,
    pub offset: usize,
}

impl Error {
    pub fn kind(&self) -> (r: ErrorKind)
        ensures
            r == self.kind,
    {
        self.kind
    }

    pub fn offset(&self) -> (r: usize)
        ensures
            r == self.offset,
    {
        self.offset
    }

    /// A human-readable description of the failure kind.
    pub fn message(&self) -> (r: &'static str)
        ensures
            r@ == message_of(self.kind),
    {
        match self.kind {
            ErrorKind::BadMagic => "missing SNSS tag",
            ErrorKind::Truncated => "unexpected end of data",
            ErrorKind::InvalidText => "invalid text encoding",
        }
    }
}

pub open spec fn message_of(kind: ErrorKind) -> Seq<char> {
    match kind {
        ErrorKind::BadMagic => "missing SNSS tag"@,
        ErrorKind::Truncated => "unexpected end of data"@,
        ErrorKind::InvalidText => "invalid text encoding"@,
    }
}

} // verus!
