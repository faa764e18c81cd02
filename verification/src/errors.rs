use vstd::prelude::*;

verus! {

/// The failure modes of the signing core.
///
/// Every failure is a deterministic rejection of the input at hand; nothing
/// is retried internally.
#[derive(Debug)]
pub enum Error {
    /// Malformed base58 text, or a wrong byte length for a key or hash.
    Decode(String),
    /// A required field is missing, or an enum-valued field holds an unknown
    /// name; the message names the offending field.
    Validation(String),
    /// An internal encoding failure; unreachable for well-formed input.
    Encoding(String),
    /// A signing-primitive failure; unreachable for a valid key.
    Signing(String),
}

impl Error {
    /// The human-readable description carried by the error.
    pub open spec fn text(&self) -> Seq<char> {
        match self {
            Error::Decode(m) => m@,
            Error::Validation(m) => m@,
            Error::Encoding(m) => m@,
            Error::Signing(m) => m@,
        }
    }

    /// A copy of the error's description.
    pub fn message(&self) -> (r: String)
        ensures
            r@ == self.text(),
    {
        match self {
            Error::Decode(m) => m.clone(),
            Error::Validation(m) => m.clone(),
            Error::Encoding(m) => m.clone(),
            Error::Signing(m) => m.clone(),
        }
    }
}

} // verus!
