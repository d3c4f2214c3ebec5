//! The library's error taxonomy, and the NSQ protocol error carried by
//! inbound error frames.

use vstd::prelude::*;

verus! {

/// An error frame sent by the broker: an ASCII code and a description.
///
/// Non-fatal codes (`E_FIN_FAILED`, `E_REQ_FAILED`, `E_TOUCH_FAILED`) are
/// delivered to the caller in-stream; every other code terminates the
/// connection.
#[derive(Debug, Clone, PartialEq, Eq)]
pub struct NsqError {
    code: String,
    description: String,
}

/// What an `NsqError` is mathematically: its two texts.
pub struct NsqErrorView {
    pub code: Seq<char>,
    pub description: Seq<char>,
}

impl View for NsqError {
    type V = NsqErrorView;

    closed spec fn view(&self) -> NsqErrorView {
        NsqErrorView { code: self.code@, description: self.description@ }
    }
}

/// Whether an error code is one of the three the protocol lets a client
/// survive.
pub open spec fn spec_is_fatal(code: Seq<char>) -> bool {
    !(code == "E_FIN_FAILED"@ || code == "E_REQ_FAILED"@ || code == "E_TOUCH_FAILED"@)
}

impl NsqError {
    pub fn new(code: String, description: String) -> (e: NsqError)
        ensures
            e@.code == code@,
            e@.description == description@,
    {
        NsqError { code, description }
    }

    /// The error code, the first word of the error body.
    pub fn code(&self) -> (r: &String)
        ensures
            r@ == self@.code,
    {
        &self.code
    }

    /// The description that follows the code.
    pub fn description(&self) -> (r: &String)
        ensures
            r@ == self@.description,
    {
        &self.description
    }

    /// False exactly for the three codes the protocol lets a client survive.
    pub fn is_fatal(&self) -> (r: bool)
        ensures
            r == spec_is_fatal(self@.code),
    {
        !(self.code == "E_FIN_FAILED".to_owned() || self.code == "E_REQ_FAILED".to_owned()
            || self.code == "E_TOUCH_FAILED".to_owned())
    }
}

/// Everything that can go wrong in the library.
///
/// Outside failures (I/O, TLS, compression, HTTP) reach the library as plain
/// message strings; the broker's own errors keep their code and description.
#[derive(Debug, Clone, PartialEq, Eq)]
pub enum Error {
    IoError(String),
    Utf8Error,
    JsonError(String),
    NsqError(NsqError),
    TlsError(String),
    InvalidDnsNameError(String),
    SnapError(String),
    DeflateCompressError(String),
    DeflateDecompressError(String),
    HttpError(String),
    Auth(String),
    UnknownError(String),
    UrlParseError(String),
}

impl Error {
    /// A short human-readable account of the error, in place of `Display`.
    pub fn message(&self) -> (r: String)
        ensures
            match self {
                Error::IoError(m) => r@ == m@,
                Error::Utf8Error => r@ == "invalid utf-8"@,
                Error::JsonError(m) => r@ == m@,
                Error::NsqError(e) => r@ == e@.code,
                Error::TlsError(m) => r@ == m@,
                Error::InvalidDnsNameError(m) => r@ == m@,
                Error::SnapError(m) => r@ == m@,
                Error::DeflateCompressError(m) => r@ == m@,
                Error::DeflateDecompressError(m) => r@ == m@,
                Error::HttpError(m) => r@ == m@,
                Error::Auth(m) => r@ == m@,
                Error::UnknownError(m) => r@ == m@,
                Error::UrlParseError(m) => r@ == m@,
            },
    {
        match self {
            Error::IoError(m) => m.clone(),
            Error::Utf8Error => "invalid utf-8".to_owned(),
            Error::JsonError(m) => m.clone(),
            Error::NsqError(e) => e.code().clone(),
            Error::TlsError(m) => m.clone(),
            Error::InvalidDnsNameError(m) => m.clone(),
            Error::SnapError(m) => m.clone(),
            Error::DeflateCompressError(m) => m.clone(),
            Error::DeflateDecompressError(m) => m.clone(),
            Error::HttpError(m) => m.clone(),
            Error::Auth(m) => m.clone(),
            Error::UnknownError(m) => m.clone(),
            Error::UrlParseError(m) => m.clone(),
        }
    }
}

} // verus!
