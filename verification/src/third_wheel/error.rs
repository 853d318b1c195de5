use crate::text::owned;
use vstd::prelude::*;

verus! {

/// The mathematical value of an [`Error`]: its kind and the text it carries.
pub enum ErrorValue {
    ServerError(Seq<char>),
    RequestError(Seq<char>),
    HyperError(Seq<char>),
    IOError(Seq<char>),
    NativeTlsError(Seq<char>),
    OpenSslError(Seq<char>),
    OpenSslErrorStack(Seq<char>),
    InvalidUri(Seq<char>),
}

/// What can go wrong in the proxy.
///
/// The first two kinds are raised by the proxy itself and carry an
/// explanation. The others stand for failures of the transport, TLS and
/// URI layers and carry the message of the failure they stand for.
#[derive(Debug, Clone, PartialEq, Eq)]
pub enum Error {
    ServerError(String),
    RequestError(String),
    HyperError(String),
    IOError(String),
    NativeTlsError(String),
    OpenSslError(String),
    OpenSslErrorStack(String),
    InvalidUri(String),
}

impl View for Error {
    type V = ErrorValue;

    open spec fn view(&self) -> ErrorValue {
        match self {
            Error::ServerError(s) => ErrorValue::ServerError(s@),
            Error::RequestError(s) => ErrorValue::RequestError(s@),
            Error::HyperError(s) => ErrorValue::HyperError(s@),
            Error::IOError(s) => ErrorValue::IOError(s@),
            Error::NativeTlsError(s) => ErrorValue::NativeTlsError(s@),
            Error::OpenSslError(s) => ErrorValue::OpenSslError(s@),
            Error::OpenSslErrorStack(s) => ErrorValue::OpenSslErrorStack(s@),
            Error::InvalidUri(s) => ErrorValue::InvalidUri(s@),
        }
    }
}

impl ErrorValue {
    /// The line shown for an error: a fixed phrase for the proxy's own two
    /// kinds, and the carried message for the others.
    pub open spec fn message(self) -> Seq<char> {
        match self {
            ErrorValue::ServerError(_) => "an error handling server responses"@,
            ErrorValue::RequestError(_) => "an error handling client requests"@,
            ErrorValue::HyperError(s) => s,
            ErrorValue::IOError(s) => s,
            ErrorValue::NativeTlsError(s) => s,
            ErrorValue::OpenSslError(s) => s,
            ErrorValue::OpenSslErrorStack(s) => s,
            ErrorValue::InvalidUri(s) => s,
        }
    }
}

impl Error {
    /// A server-side failure with the given explanation.
    pub fn server(explanation: &str) -> (e: Error)
        ensures
            e@ == ErrorValue::ServerError(explanation@),
    {
        Error::ServerError(owned(explanation))
    }

    /// A failure of a client's request with the given explanation.
    pub fn request(explanation: &str) -> (e: Error)
        ensures
            e@ == ErrorValue::RequestError(explanation@),
    {
        Error::RequestError(owned(explanation))
    }

    /// The line shown for this error.
    pub fn message(&self) -> (m: String)
        ensures
            m@ == self@.message(),
    {
        match self {
            Error::ServerError(_) => owned("an error handling server responses"),
            Error::RequestError(_) => owned("an error handling client requests"),
            Error::HyperError(s) => s.clone(),
            Error::IOError(s) => s.clone(),
            Error::NativeTlsError(s) => s.clone(),
            Error::OpenSslError(s) => s.clone(),
            Error::OpenSslErrorStack(s) => s.clone(),
            Error::InvalidUri(s) => s.clone(),
        }
    }

    /// A copy of this error.
    pub fn duplicate(&self) -> (e: Error)
        ensures
            e@ == self@,
    {
        match self {
            Error::ServerError(s) => Error::ServerError(s.clone()),
            Error::RequestError(s) => Error::RequestError(s.clone()),
            Error::HyperError(s) => Error::HyperError(s.clone()),
            Error::IOError(s) => Error::IOError(s.clone()),
            Error::NativeTlsError(s) => Error::NativeTlsError(s.clone()),
            Error::OpenSslError(s) => Error::OpenSslError(s.clone()),
            Error::OpenSslErrorStack(s) => Error::OpenSslErrorStack(s.clone()),
            Error::InvalidUri(s) => Error::InvalidUri(s.clone()),
        }
    }
}

} // verus!
