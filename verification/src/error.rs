use vstd::prelude::*;

use vstd::string::StringExecFns;

use crate::response::Status;

verus! {

/// Failure taxonomy for one request/response exchange.
///
/// Transport breakage and protocol breakage are kept apart from expected
/// "no job" outcomes, which the facade reports as `Ok(None)` rather than
/// as errors.
#[derive(Clone, Debug)]
pub enum BeanstalkdError {
    /// The transport failed or the peer closed the connection before a
    /// status line arrived.
    ConnectionError,
    /// A status line arrived but was not usable: not valid text, or the
    /// byte-count token its status requires is missing or not a decimal
    /// number the machine can hold.
    MalformedReply,
    /// The first token of the status line is outside the closed status
    /// vocabulary; carries the offending token.
    UnknownStatusError(String),
    /// The stream ended before the declared payload length plus its
    /// trailing line break could be read in full.
    ShortRead,
    /// The payload bytes are not valid text.
    PayloadDecodeFailure,
    /// A structurally well-formed reply whose status is not one the
    /// operation accepts; carries the decoded status itself.
    UnexpectedStatus(Status),
}

impl BeanstalkdError {
    /// The text `message` returns for each failure kind.
    pub open spec fn spec_message(&self) -> Seq<char> {
        match self {
            BeanstalkdError::ConnectionError => "Connection error occurred"@,
            BeanstalkdError::MalformedReply => "Malformed reply"@,
            BeanstalkdError::UnknownStatusError(status) => "Unknown status: "@ + status@,
            BeanstalkdError::ShortRead => "Short read of a reply payload"@,
            BeanstalkdError::PayloadDecodeFailure => "Reply payload is not valid text"@,
            BeanstalkdError::UnexpectedStatus(_) => "Unexpected reply status"@,
        }
    }

    /// A short description of the failure, for diagnostics.
    pub fn message(&self) -> (s: String)
        ensures
            s@ == self.spec_message(),
    {
        match self {
            BeanstalkdError::ConnectionError => "Connection error occurred".to_owned(),
            BeanstalkdError::MalformedReply => "Malformed reply".to_owned(),
            BeanstalkdError::UnknownStatusError(status) => "Unknown status: ".to_owned().concat(
                status.as_str(),
            ),
            BeanstalkdError::ShortRead => "Short read of a reply payload".to_owned(),
            BeanstalkdError::PayloadDecodeFailure => "Reply payload is not valid text".to_owned(),
            BeanstalkdError::UnexpectedStatus(_) => "Unexpected reply status".to_owned(),
        }
    }
}

/// Result type used by every operation of this crate.
pub type BeanstalkdResult<T> = Result<T, BeanstalkdError>;

} // verus!
