//! The errors a decode can surface.

use vstd::prelude::*;

verus! {

/// The mathematical shape of a [`DecodeError`].
pub enum ErrorV {
    /// The body is not valid JSON, or does not match the envelope's shape.
    MalformedResponse,
    /// A currency `value` string failed the numeric parse.
    MalformedAmount,
    /// The reply carried remote errors; the composed report text.
    RemoteError(Seq<char>),
    /// Neither campaign data nor any remote error was present.
    EmptyResponse,
}

/// Why a response body did not decode to a campaign.
#[derive(Clone, Debug, PartialEq, Eq)]
pub enum DecodeError {
    /// The body is not valid JSON, or does not match the envelope's shape.
    MalformedResponse,
    /// A currency `value` string failed the numeric parse.
    MalformedAmount,
    /// The reply carried one or more remote errors; the payload is the
    /// composed report, one formatted error per line under its heading.
    RemoteError(String),
    /// Neither campaign data nor any remote error was present.
    EmptyResponse,
}

impl View for DecodeError {
    type V = ErrorV;

    open spec fn view(&self) -> ErrorV {
        match self {
            DecodeError::MalformedResponse => ErrorV::MalformedResponse,
            DecodeError::MalformedAmount => ErrorV::MalformedAmount,
            DecodeError::RemoteError(s) => ErrorV::RemoteError(s@),
            DecodeError::EmptyResponse => ErrorV::EmptyResponse,
        }
    }
}

/// The text a caller should print for an [`ErrorV`].
pub open spec fn spec_error_message(e: ErrorV) -> Seq<char> {
    match e {
        ErrorV::MalformedResponse => "malformed response"@,
        ErrorV::MalformedAmount => "malformed amount"@,
        ErrorV::RemoteError(s) => s,
        ErrorV::EmptyResponse => "empty response"@,
    }
}

impl DecodeError {
    /// The text a caller should print for this error.
    pub fn message(&self) -> (r: String)
        ensures
            r@ == spec_error_message(self@),
    {
        match self {
            DecodeError::MalformedResponse => {
                let mut s = String::new();
                s.append("malformed response");
                proof {
                    assert(Seq::<char>::empty() + "malformed response"@ =~= "malformed response"@);
                }
                s
            },
            DecodeError::MalformedAmount => {
                let mut s = String::new();
                s.append("malformed amount");
                proof {
                    assert(Seq::<char>::empty() + "malformed amount"@ =~= "malformed amount"@);
                }
                s
            },
            DecodeError::RemoteError(s) => s.clone(),
            DecodeError::EmptyResponse => {
                let mut s = String::new();
                s.append("empty response");
                proof {
                    assert(Seq::<char>::empty() + "empty response"@ =~= "empty response"@);
                }
                s
            },
        }
    }
}

} // verus!
