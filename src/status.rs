use vstd::prelude::*;

verus! {

/// The response statuses this server sends.
#[derive(PartialEq, Eq, Debug, Clone, Copy, Structural)]
pub enum HttpStatus {
    Continue,
    OK,
    Created,
    PartialContent,
    MovedPermanently,
    BadRequest,
    PermissionDenied,
    NotFound,
    MethodNotAllowed,
    PayloadTooLarge,
    UnprocessableEntity,
    RequestHeadersTooLarge,
    ServerError,
    NotImplemented,
    ServiceUnavailable,
}

pub open spec fn status_code(s: HttpStatus) -> u16 {
    match s {
        HttpStatus::Continue => 100,
        HttpStatus::OK => 200,
        HttpStatus::Created => 201,
        HttpStatus::PartialContent => 206,
        HttpStatus::MovedPermanently => 301,
        HttpStatus::BadRequest => 400,
        HttpStatus::PermissionDenied => 403,
        HttpStatus::NotFound => 404,
        HttpStatus::MethodNotAllowed => 405,
        HttpStatus::PayloadTooLarge => 413,
        HttpStatus::UnprocessableEntity => 422,
        HttpStatus::RequestHeadersTooLarge => 431,
        HttpStatus::ServerError => 500,
        HttpStatus::NotImplemented => 501,
        HttpStatus::ServiceUnavailable => 503,
    }
}

impl HttpStatus {
    /// The numeric status code.
    pub fn code(&self) -> (r: u16)
        ensures
            r == status_code(*self),
    {
        match self {
            HttpStatus::Continue => 100,
            HttpStatus::OK => 200,
            HttpStatus::Created => 201,
            HttpStatus::PartialContent => 206,
            HttpStatus::MovedPermanently => 301,
            HttpStatus::BadRequest => 400,
            HttpStatus::PermissionDenied => 403,
            HttpStatus::NotFound => 404,
            HttpStatus::MethodNotAllowed => 405,
            HttpStatus::PayloadTooLarge => 413,
            HttpStatus::UnprocessableEntity => 422,
            HttpStatus::RequestHeadersTooLarge => 431,
            HttpStatus::ServerError => 500,
            HttpStatus::NotImplemented => 501,
            HttpStatus::ServiceUnavailable => 503,
        }
    }
}

/// The kinds of operating-system error that the server tells apart.
#[derive(PartialEq, Eq, Debug, Clone, Copy, Structural)]
pub enum IoErrorKind {
    NotFound,
    PermissionDenied,
    BrokenPipe,
    ConnectionReset,
    ConnectionAborted,
    Other,
}

/// The status an OS error is reported with, where it has one.
pub fn resolve_io_error(kind: IoErrorKind) -> (r: Option<HttpStatus>)
    ensures
        r == match kind {
            IoErrorKind::NotFound => Some(HttpStatus::NotFound),
            IoErrorKind::PermissionDenied => Some(HttpStatus::PermissionDenied),
            _ => None,
        },
{
    match kind {
        IoErrorKind::NotFound => Some(HttpStatus::NotFound),
        IoErrorKind::PermissionDenied => Some(HttpStatus::PermissionDenied),
        _ => None,
    }
}

/// Errors on the socket itself (the peer went away) close the connection
/// quietly instead of being reported.
pub fn is_socket_error(kind: IoErrorKind) -> (r: bool)
    ensures
        r == (kind == IoErrorKind::BrokenPipe || kind == IoErrorKind::ConnectionReset
            || kind == IoErrorKind::ConnectionAborted),
{
    match kind {
        IoErrorKind::BrokenPipe | IoErrorKind::ConnectionReset | IoErrorKind::ConnectionAborted => true,
        _ => false,
    }
}

} // verus!
