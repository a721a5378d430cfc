//! The errors that the request logic can report.

use vstd::prelude::*;
use vstd::string::*;

verus! {

/// `http::header::InvalidHeaderValue`: a text held a byte that a header value
/// cannot hold.
#[verifier::external_type_specification]
#[verifier::external_body]
pub struct ExInvalidHeaderValue(hyper::header::InvalidHeaderValue);

/// `chrono::format::ParseError`: a text was not a date and time.
#[verifier::external_type_specification]
#[verifier::external_body]
pub struct ExChronoParseError(chrono::format::ParseError);

/// Why a request could not be handled.
#[derive(Debug)]
pub enum Error {
    /// A failure described by a fixed message.
    Message(String),
    /// A header value could not be built from a text.
    InvalidHeaderValue(hyper::header::InvalidHeaderValue),
    /// A header value held bytes that are not visible ASCII.
    HeaderToStr,
    /// A file's modification time lies before the Unix epoch.
    ModifiedBeforeEpoch,
    /// A header did not hold a date and time.
    DateTime(chrono::format::ParseError),
}

/// An error that carries `message`.
pub fn err(message: &'static str) -> (e: Error)
    ensures
        e matches Error::Message(m) && m@ == message@,
{
    Error::Message(String::from_str(message))
}

} // verus!
