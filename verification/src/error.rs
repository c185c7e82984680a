//! What can go wrong while the client runs.

use vstd::prelude::*;

use crate::text;

verus! {

/// The kinds of operating system failure the client tells apart.
#[derive(Clone, Copy, Debug, PartialEq, Eq, Structural)]
pub enum IoErrorKind {
    WouldBlock,
    TimedOut,
    ConnectionRefused,
    ConnectionReset,
    HostUnreachable,
    NetworkUnreachable,
    NetworkDown,
    AddrNotAvailable,
    NotConnected,
    Interrupted,
    NotFound,
    Other,
}

/// An operating system failure: what kind it was and how the system words it.
#[derive(Debug)]
pub struct IoError {
    pub kind: IoErrorKind,
    pub detail: String,
}

/// Why a session could not be started or could not go on.
///
/// The failures of the layers below arrive as the text they describe
/// themselves with.
#[derive(Debug)]
pub enum ClientError {
    Crypto(String),
    DataPlane(String),
    HandshakeTimeout,
    Io(IoError),
    Protocol(String),
    Wire(String),
    Platform(String),
}

/// The wording of an error.
pub open spec fn error_text(error: ClientError) -> Seq<char> {
    match error {
        ClientError::Crypto(detail) => "cryptographic operation failed: "@ + detail@,
        ClientError::DataPlane(detail) => "packet processing failed: "@ + detail@,
        ClientError::HandshakeTimeout => "server handshake timed out"@,
        ClientError::Io(error) => "network I/O failed: "@ + error.detail@,
        ClientError::Protocol(detail) => "invalid server parameters: "@ + detail@,
        ClientError::Wire(detail) => "wire protocol failed: "@ + detail@,
        ClientError::Platform(detail) => detail@,
    }
}

/// Whether `error` is the platform failure worded `text`.
pub open spec fn is_platform(error: ClientError, text: Seq<char>) -> bool {
    error matches ClientError::Platform(detail) && detail@ == text
}

fn prefixed(prefix: &str, detail: &str) -> (result: String)
    ensures
        result@ == prefix@ + detail@,
{
    String::from_str(prefix).concat(detail)
}

impl ClientError {
    /// The wording of the error.
    pub fn message(&self) -> (message: String)
        ensures
            message@ == error_text(*self),
    {
        match self {
            ClientError::Crypto(detail) => prefixed(
                "cryptographic operation failed: ",
                detail.as_str(),
            ),
            ClientError::DataPlane(detail) => prefixed(
                "packet processing failed: ",
                detail.as_str(),
            ),
            ClientError::HandshakeTimeout => text::owned("server handshake timed out"),
            ClientError::Io(error) => prefixed("network I/O failed: ", error.detail.as_str()),
            ClientError::Protocol(detail) => prefixed(
                "invalid server parameters: ",
                detail.as_str(),
            ),
            ClientError::Wire(detail) => prefixed("wire protocol failed: ", detail.as_str()),
            ClientError::Platform(detail) => detail.clone(),
        }
    }

    /// The platform failure worded `message`.
    pub fn platform(message: &str) -> (error: ClientError)
        ensures
            is_platform(error, message@),
    {
        ClientError::Platform(text::owned(message))
    }

    /// The platform failure worded `prefix` followed by `detail`.
    pub fn platform_with(prefix: &str, detail: &str) -> (error: ClientError)
        ensures
            is_platform(error, prefix@ + detail@),
    {
        ClientError::Platform(prefixed(prefix, detail))
    }

    /// The platform failure worded `prefix` followed by a number.
    pub fn platform_code(prefix: &str, code: u32) -> (error: ClientError)
        ensures
            is_platform(error, prefix@ + text::decimal(code as nat)),
    {
        let mut message = text::owned(prefix);
        text::push_decimal(&mut message, code as u128);
        ClientError::Platform(message)
    }

    /// A failure of the secure random generator that is worded `detail`.
    pub fn random_failure(detail: &str) -> (error: ClientError)
        ensures
            is_platform(error, "secure random generator failed: "@ + detail@),
    {
        ClientError::Platform(prefixed("secure random generator failed: ", detail))
    }

    /// The failure that `getrandom` reported.
    pub fn from_random_source(error: &getrandom::Error) -> (result: ClientError)
        ensures
            exists|detail: Seq<char>|
                is_platform(result, "secure random generator failed: "@ + detail),
    {
        let detail = random_error_text(error);
        let result = ClientError::random_failure(detail.as_str());
        assert(is_platform(result, "secure random generator failed: "@ + detail@));
        result
    }
}

/// A failure of the secure random generator.
#[verifier::external_type_specification]
#[verifier::external_body]
pub struct ExRandomError(getrandom::Error);

/// Calls `ToString::to_string` on a `getrandom::Error`. How an error is worded
/// depends on the operating system, so nothing is claimed of the text.
#[verifier::external_body]
fn random_error_text(error: &getrandom::Error) -> (detail: String) {
    error.to_string()
}

/// Failures of the platform speak for themselves, and all others say first
/// what failed.
pub proof fn errors_say_what_failed(detail: String, kind: IoErrorKind)
    ensures
        error_text(ClientError::Platform(detail)) == detail@,
        error_text(ClientError::Crypto(detail)) == "cryptographic operation failed: "@ + detail@,
        error_text(ClientError::DataPlane(detail)) == "packet processing failed: "@ + detail@,
        error_text(ClientError::Io(IoError { kind, detail })) == "network I/O failed: "@ + detail@,
        error_text(ClientError::Protocol(detail)) == "invalid server parameters: "@ + detail@,
        error_text(ClientError::Wire(detail)) == "wire protocol failed: "@ + detail@,
        error_text(ClientError::HandshakeTimeout) == "server handshake timed out"@,
        is_platform(ClientError::Platform(detail), detail@),
{
}

} // verus!
