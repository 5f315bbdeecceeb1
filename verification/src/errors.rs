//! The pipeline's outcome taxonomy and its mapping to HTTP status codes.

use vstd::prelude::*;

verus! {

/// Everything that can end a request early. `NotModified` is not a fault: it
/// short-circuits the pipeline and is passed through to the client verbatim.
#[derive(Clone, Copy, PartialEq, Eq, Structural, Debug)]
pub enum Error {
    /// The origin answered with the carried status code (>= 400).
    UpstreamError(u16),
    /// The origin answered 304; no transformation is performed.
    NotModified,
    /// The source bytes were not a recognizable, well-formed image.
    DecodeError,
    /// The crop rectangle is not contained in the decoded bitmap.
    InvalidCropBounds,
    /// The codec failed writing the target format.
    EncodeError,
    /// The concurrency limiter had no free slot; the request fails fast.
    TooManyConcurrentRequests,
    /// A required configuration value was missing.
    ConfigurationError,
}

/// The HTTP status each outcome is surfaced with: 304 passes through, the
/// exhausted limiter answers 429, every transformation or upstream failure
/// is a 500.
pub open spec fn spec_status(e: Error) -> u16 {
    match e {
        Error::NotModified => 304,
        Error::TooManyConcurrentRequests => 429,
        _ => 500,
    }
}

pub fn http_status(e: &Error) -> (r: u16)
    ensures
        r == spec_status(*e),
{
    match e {
        Error::NotModified => 304,
        Error::TooManyConcurrentRequests => 429,
        _ => 500,
    }
}

/// How an upstream answer is classified: a status of 400 or above is an
/// upstream error naming that status, 304 short-circuits as not-modified,
/// anything else carries image bytes and enters the transformation path.
pub open spec fn spec_classify_upstream(status: u16) -> Option<Error> {
    if status >= 400 {
        Some(Error::UpstreamError(status))
    } else if status == 304 {
        Some(Error::NotModified)
    } else {
        None
    }
}

pub fn classify_upstream(status: u16) -> (r: Option<Error>)
    ensures
        r == spec_classify_upstream(status),
{
    if status >= 400 {
        Some(Error::UpstreamError(status))
    } else if status == 304 {
        Some(Error::NotModified)
    } else {
        None
    }
}

} // verus!
