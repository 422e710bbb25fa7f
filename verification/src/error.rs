//! The error type shared by every fallible operation of the library.

use vstd::prelude::*;

verus! {

/// Every failure the library reports, one variant per kind so that callers
/// can branch on it: transport failures and XML decode failures come from
/// issuing a command, the discovery variants from the discovery bridge.
#[derive(Debug, Clone, PartialEq, Eq, Structural)]
pub enum Error {
    /// Reading the response body failed.
    ReadError,
    /// No BluOS device answered a discovery request.
    NoBluOSError,
    /// The HTTP request itself failed.
    RequestError,
    /// The response body was not a well-formed response record.
    XMLError,
    /// A discovery session was started while another one was running.
    AlreadyDiscovering,
    /// The cancellation channel of a discovery session failed.
    CancelError,
}

impl Error {
    /// A short description of the error, for callers that display it.
    pub fn message(&self) -> (r: &'static str)
        ensures
            r@.len() > 0,
    {
        proof {
            reveal_strlit("could not read the response body");
            reveal_strlit("could not find a BluOS device");
            reveal_strlit("the request failed");
            reveal_strlit("the response was not valid XML");
            reveal_strlit("already discovering");
            reveal_strlit("the cancellation channel failed");
        }
        match self {
            Error::ReadError => "could not read the response body",
            Error::NoBluOSError => "could not find a BluOS device",
            Error::RequestError => "the request failed",
            Error::XMLError => "the response was not valid XML",
            Error::AlreadyDiscovering => "already discovering",
            Error::CancelError => "the cancellation channel failed",
        }
    }
}

} // verus!
