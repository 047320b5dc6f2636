//! The error that HTTP endpoints answer with: a status code and a message.
use vstd::prelude::*;

verus! {

pub const INTERNAL_SERVER_ERROR: u16 = 500;
pub const NOT_FOUND: u16 = 404;
pub const BAD_REQUEST: u16 = 400;
pub const BAD_GATEWAY: u16 = 502;
pub const UNAUTHORIZED: u16 = 401;

pub struct ErrorResponse {
    pub status_code: u16,
    pub message: String,
}

impl ErrorResponse {
    pub fn new(status_code: u16, message: String) -> (r: Self)
        ensures
            r.status_code == status_code,
            r.message@ == message@,
    {
        ErrorResponse { status_code, message }
    }

    pub fn error(message: String) -> (r: Self)
        ensures
            r.status_code == INTERNAL_SERVER_ERROR,
            r.message@ == message@,
    {
        Self::new(INTERNAL_SERVER_ERROR, message)
    }

    pub fn not_found(message: String) -> (r: Self)
        ensures
            r.status_code == NOT_FOUND,
            r.message@ == message@,
    {
        Self::new(NOT_FOUND, message)
    }

    pub fn bad_request(message: String) -> (r: Self)
        ensures
            r.status_code == BAD_REQUEST,
            r.message@ == message@,
    {
        Self::new(BAD_REQUEST, message)
    }

    pub fn bad_gateway(message: String) -> (r: Self)
        ensures
            r.status_code == BAD_GATEWAY,
            r.message@ == message@,
    {
        Self::new(BAD_GATEWAY, message)
    }

    pub fn unauthorized(message: String) -> (r: Self)
        ensures
            r.status_code == UNAUTHORIZED,
            r.message@ == message@,
    {
        Self::new(UNAUTHORIZED, message)
    }
}

} // verus!
