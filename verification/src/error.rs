//! Why a request could not be signed.

use vstd::prelude::*;

verus! {

/// The ways in which signing a request fails.
#[derive(Debug, Copy, Clone, PartialEq, Eq, Structural)]
pub enum SignError {
    /// The text is not a URL.
    MalformedUrl,
    /// The URL names no host.
    MissingHost,
    /// The timestamp or the canonical request is longer than HMAC-SHA256
    /// can authenticate.
    MessageTooLong,
    /// The instant lies outside the calendar that timestamps are written in.
    ClockOutOfRange,
}

} // verus!
