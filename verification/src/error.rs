//! Errors, and the SOCKS5 reply codes that stand for them.
use vstd::prelude::*;
use vstd::std_specs::convert::FromSpec;
use vstd::string::to_string_from_display_ensures;

verus! {

/// The request was carried out.
pub const REP_SUCCESS: u8 = 0x00;

/// The request failed for a reason that has no code of its own.
pub const REP_GENERAL_FAILURE: u8 = 0x01;

/// The connection is not allowed.
pub const REP_NOT_ALLOWED: u8 = 0x02;

/// The network cannot be reached.
pub const REP_NETWORK_UNREACHABLE: u8 = 0x03;

/// The host cannot be reached.
pub const REP_HOST_UNREACHABLE: u8 = 0x04;

/// The host refused the connection.
pub const REP_CONNECTION_REFUSED: u8 = 0x05;

/// The kinds of error that the server tells apart.
#[derive(Clone, Copy, Debug, PartialEq, Eq, Structural)]
pub enum ErrorKind {
    /// The remote side refused the connection.
    ConnectionRefused,
    /// The operation took too long.
    TimedOut,
    /// The host cannot be reached, or its name has no address.
    HostUnreachable,
    /// The network cannot be reached.
    NetworkUnreachable,
    /// The operation is not permitted, or a password was wrong.
    PermissionDenied,
    /// The client asked for something that the server does not offer.
    Unsupported,
    /// A datagram has no readable header.
    InvalidData,
    /// Any other kind.
    Other,
}

/// An error: its kind, and a message where there is one.
#[derive(Debug, PartialEq, Eq)]
pub struct Error {
    pub kind: ErrorKind,
    pub message: Option<String>,
}

impl From<ErrorKind> for Error {
    fn from(kind: ErrorKind) -> (e: Error) {
        Error { kind, message: None }
    }
}

impl vstd::std_specs::convert::FromSpecImpl<ErrorKind> for Error {
    open spec fn obeys_from_spec() -> bool {
        true
    }

    open spec fn from_spec(kind: ErrorKind) -> Error {
        Error { kind, message: None }
    }
}

/// The error of the given kind that carries no message.
pub open spec fn plain_error(kind: ErrorKind) -> Error {
    Error { kind, message: None }
}

/// The reply code that stands for an error of the given kind.
pub open spec fn reply_code(kind: ErrorKind) -> u8 {
    match kind {
        ErrorKind::ConnectionRefused => REP_CONNECTION_REFUSED,
        ErrorKind::TimedOut => REP_HOST_UNREACHABLE,
        ErrorKind::HostUnreachable => REP_HOST_UNREACHABLE,
        ErrorKind::NetworkUnreachable => REP_NETWORK_UNREACHABLE,
        ErrorKind::PermissionDenied => REP_NOT_ALLOWED,
        ErrorKind::Unsupported => REP_GENERAL_FAILURE,
        ErrorKind::InvalidData => REP_GENERAL_FAILURE,
        ErrorKind::Other => REP_GENERAL_FAILURE,
    }
}

/// The code of the reply that tells a client about `e`.
pub fn reply_for_error(e: &Error) -> (rep: u8)
    ensures
        rep == reply_code(e.kind),
{
    match e.kind {
        ErrorKind::ConnectionRefused => REP_CONNECTION_REFUSED,
        ErrorKind::TimedOut | ErrorKind::HostUnreachable => REP_HOST_UNREACHABLE,
        ErrorKind::NetworkUnreachable => REP_NETWORK_UNREACHABLE,
        ErrorKind::PermissionDenied => REP_NOT_ALLOWED,
        _ => REP_GENERAL_FAILURE,
    }
}

/// Turns any displayable error into one of kind `Other` whose message is the
/// displayed text.
pub fn io_err<E: core::fmt::Display>(e: E) -> (r: Error)
    ensures
        r.kind == ErrorKind::Other,
        r.message matches Some(text) && to_string_from_display_ensures::<E>(&e, text),
{
    Error { kind: ErrorKind::Other, message: Some(e.to_string()) }
}

/// A failure is never reported as a success.
pub proof fn law_failures_are_not_successes(kind: ErrorKind)
    ensures
        reply_code(kind) != REP_SUCCESS,
{
}

/// Every failure has its own code where the protocol has one, and the general one
/// otherwise.
pub proof fn law_codes_tell_failures_apart(kind: ErrorKind)
    ensures
        reply_code(kind) == 5 <==> kind is ConnectionRefused,
        reply_code(kind) == 4 <==> kind is TimedOut || kind is HostUnreachable,
        reply_code(kind) == 3 <==> kind is NetworkUnreachable,
        reply_code(kind) == 2 <==> kind is PermissionDenied,
        reply_code(kind) == 1 <==> kind is Unsupported || kind is InvalidData || kind is Other,
{
}

/// An error made of a kind alone is of that kind and carries no message.
pub proof fn law_plain_errors_keep_their_kind(kind: ErrorKind)
    ensures
        plain_error(kind).kind == kind,
        plain_error(kind).message is None,
        <Error as FromSpec<ErrorKind>>::obeys_from_spec(),
        <Error as FromSpec<ErrorKind>>::from_spec(kind) == plain_error(kind),
{
}

} // verus!
