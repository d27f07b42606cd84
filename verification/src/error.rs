//! The unified error type of the library.

use vstd::prelude::*;

verus! {

/// Top-level error. Outside errors (I/O, JSON) are carried as their message.
#[derive(Debug)]
pub enum Error {
    Io(String),
    Json(String),
    Crypto(String),
    Corrupt(String),
    Invalid(String),
}

/// The mathematical value of an [`Error`]: its kind and its message.
pub enum ErrorSpec {
    Io(Seq<char>),
    Json(Seq<char>),
    Crypto(Seq<char>),
    Corrupt(Seq<char>),
    Invalid(Seq<char>),
}

impl View for Error {
    type V = ErrorSpec;

    open spec fn view(&self) -> ErrorSpec {
        match self {
            Error::Io(m) => ErrorSpec::Io(m@),
            Error::Json(m) => ErrorSpec::Json(m@),
            Error::Crypto(m) => ErrorSpec::Crypto(m@),
            Error::Corrupt(m) => ErrorSpec::Corrupt(m@),
            Error::Invalid(m) => ErrorSpec::Invalid(m@),
        }
    }
}

impl ErrorSpec {
    /// The human-readable text of the error.
    pub open spec fn text(self) -> Seq<char> {
        match self {
            ErrorSpec::Io(m) => "I/O error: "@ + m,
            ErrorSpec::Json(m) => "serialization error: "@ + m,
            ErrorSpec::Crypto(m) => "cryptographic error: "@ + m,
            ErrorSpec::Corrupt(m) => "vault is corrupt or unreadable: "@ + m,
            ErrorSpec::Invalid(m) => m,
        }
    }
}

/// The view of an optional error-free result, for contracts over `Result`s.
pub open spec fn result_view<T: View>(r: Result<T, Error>) -> Result<T::V, ErrorSpec> {
    match r {
        Ok(v) => Ok(v@),
        Err(e) => Err(e@),
    }
}

impl Error {
    pub fn crypto(msg: &str) -> (e: Self)
        ensures
            e@ == ErrorSpec::Crypto(msg@),
    {
        Error::Crypto(msg.to_owned())
    }

    pub fn corrupt(msg: &str) -> (e: Self)
        ensures
            e@ == ErrorSpec::Corrupt(msg@),
    {
        Error::Corrupt(msg.to_owned())
    }

    pub fn invalid(msg: &str) -> (e: Self)
        ensures
            e@ == ErrorSpec::Invalid(msg@),
    {
        Error::Invalid(msg.to_owned())
    }

    /// The display text of this error.
    pub fn message(&self) -> (s: String)
        ensures
            s@ == self@.text(),
    {
        match self {
            Error::Io(m) => String::from_str("I/O error: ").concat(m.as_str()),
            Error::Json(m) => String::from_str("serialization error: ").concat(m.as_str()),
            Error::Crypto(m) => String::from_str("cryptographic error: ").concat(m.as_str()),
            Error::Corrupt(m) => String::from_str("vault is corrupt or unreadable: ").concat(
                m.as_str(),
            ),
            Error::Invalid(m) => m.clone(),
        }
    }
}

} // verus!
