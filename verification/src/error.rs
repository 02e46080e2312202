//! The typed failures of this crate.

use vstd::prelude::*;

verus! {

/// The class of response that a failure should be answered with.
#[derive(Clone, Copy, Debug, PartialEq, Eq, Structural)]
pub enum ErrorResponseType {
    BadRequest,
    Unauthorized,
}

/// Why a request was rejected or a value could not be decoded.
#[derive(Clone, Copy, Debug, PartialEq, Eq, Structural)]
pub enum ErrorKind {
    /// The transport supplied no peer address at all.
    MissingPeerAddress,
    /// A peer or forwarded address is not a valid IP literal.
    MalformedPeerAddress,
    /// A peer that is not in the trust list tried to override the client address.
    UntrustedProxy,
    /// A token without the two separators of `header.body.signature`.
    MalformedToken,
    /// A token whose body segment is not valid base64.
    MalformedTokenBody,
    /// A token whose decoded body is not structured data of the requested shape.
    MalformedTokenClaims,
    /// Text handed to one of the base64 decoders that is not valid base64.
    MalformedBase64,
}

impl ErrorKind {
    /// The response class of each kind: a token without structure is
    /// unauthorized, everything else is a bad request.
    pub open spec fn spec_response_type(self) -> ErrorResponseType {
        match self {
            ErrorKind::MalformedToken => ErrorResponseType::Unauthorized,
            _ => ErrorResponseType::BadRequest,
        }
    }

    /// The response class to answer this failure with.
    pub fn response_type(self) -> (r: ErrorResponseType)
        ensures
            r == self.spec_response_type(),
    {
        match self {
            ErrorKind::MalformedToken => ErrorResponseType::Unauthorized,
            _ => ErrorResponseType::BadRequest,
        }
    }

    /// The message shown for each kind.
    pub open spec fn spec_message(self) -> Seq<char> {
        match self {
            ErrorKind::MissingPeerAddress => "No IP Addr in Connection Info"@,
            ErrorKind::MalformedPeerAddress => "Cannot parse peer IP address"@,
            ErrorKind::UntrustedProxy => "Invalid IP Address"@,
            ErrorKind::MalformedToken => "Invalid or malformed JWT Token"@,
            ErrorKind::MalformedTokenBody => "Invalid JWT Token body"@,
            ErrorKind::MalformedTokenClaims => "Invalid JWT Token claims"@,
            ErrorKind::MalformedBase64 => "B64 decoding error"@,
        }
    }

    /// The message to show for this failure.
    pub fn message(self) -> (r: &'static str)
        ensures
            r@ == self.spec_message(),
    {
        match self {
            ErrorKind::MissingPeerAddress => "No IP Addr in Connection Info",
            ErrorKind::MalformedPeerAddress => "Cannot parse peer IP address",
            ErrorKind::UntrustedProxy => "Invalid IP Address",
            ErrorKind::MalformedToken => "Invalid or malformed JWT Token",
            ErrorKind::MalformedTokenBody => "Invalid JWT Token body",
            ErrorKind::MalformedTokenClaims => "Invalid JWT Token claims",
            ErrorKind::MalformedBase64 => "B64 decoding error",
        }
    }
}

} // verus!
