use vstd::prelude::*;

verus! {

/// Errors that can result from resolving a code page or converting text.
#[non_exhaustive]
#[derive(Debug, Clone, Copy, PartialEq, Eq, Structural)]
pub enum ConvertError {
    /// Could not encode string as requested.
    StringEncoding,
    /// Could not decode string as requested.
    StringDecoding,
    /// Requested a Windows code page the library doesn't understand.
    UnknownCodepage,
    /// Requested a Windows code page the library can't do.
    UnsupportedCodepage,
}

impl ConvertError {
    /// A short description of the error, for messages.
    pub fn message(&self) -> (r: &'static str)
        ensures
            *self is StringEncoding ==> r@ == "string codepage encoding error"@,
            *self is StringDecoding ==> r@ == "string decoding error"@,
            *self is UnknownCodepage ==> r@ == "invalid / unknown Windows code page"@,
            *self is UnsupportedCodepage ==> r@ == "cannot transcode this Windows code page"@,
    {
        match self {
            ConvertError::StringEncoding => "string codepage encoding error",
            ConvertError::StringDecoding => "string decoding error",
            ConvertError::UnknownCodepage => "invalid / unknown Windows code page",
            ConvertError::UnsupportedCodepage => "cannot transcode this Windows code page",
        }
    }
}

} // verus!
