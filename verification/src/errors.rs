use vstd::prelude::*;

verus! {

/// The errors of the library, each with a description.
#[derive(Debug, Clone)]
pub enum ChronosError {
    Other(String),
    EncodeError(String),
    DecodeError(String),
    CodecNotFound(String),
    RegistryError(String),
    IoError(String),
}

/// A result whose error is a `ChronosError`.
pub type ChronosResult<T> = Result<T, ChronosError>;

/// The message shown for an error: a prefix naming its kind, then its description.
pub open spec fn error_message(e: ChronosError) -> Seq<char> {
    match e {
        ChronosError::Other(s) => "an error occured: "@ + s@,
        ChronosError::EncodeError(s) => "encode error: "@ + s@,
        ChronosError::DecodeError(s) => "decode error: "@ + s@,
        ChronosError::CodecNotFound(s) => "codec not found: "@ + s@,
        ChronosError::RegistryError(s) => "registry error: "@ + s@,
        ChronosError::IoError(s) => "io error: "@ + s@,
    }
}

impl ChronosError {
    /// The message shown for the error.
    pub fn message(&self) -> (m: String)
        ensures
            m@ == error_message(*self),
    {
        let (prefix, detail) = match self {
            ChronosError::Other(s) => ("an error occured: ", s),
            ChronosError::EncodeError(s) => ("encode error: ", s),
            ChronosError::DecodeError(s) => ("decode error: ", s),
            ChronosError::CodecNotFound(s) => ("codec not found: ", s),
            ChronosError::RegistryError(s) => ("registry error: ", s),
            ChronosError::IoError(s) => ("io error: ", s),
        };
        let mut m = prefix.to_string();
        m.append(detail.as_str());
        m
    }
}

} // verus!
