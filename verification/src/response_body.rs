//! The response envelope: every handler answers with an HTTP status
//! code and a `{status, data, message}` body.

use vstd::prelude::*;

verus! {

pub const OK: u16 = 200;

pub const CREATED: u16 = 201;

pub const BAD_REQUEST: u16 = 400;

pub const UNAUTHORIZED: u16 = 401;

pub const FORBIDDEN: u16 = 403;

pub const NOT_FOUND: u16 = 404;

pub const INTERNAL_SERVER_ERROR: u16 = 500;

/// Whether a request succeeded or failed.
#[derive(Clone, Copy, Debug, PartialEq, Eq, Structural)]
pub enum Status {
    Success,
    Failed,
}

/// The envelope around every payload: a failed request carries a
/// message and no data; a successful one carries its payload, if any.
pub struct ResponseBody<T> {
    pub status: Status,
    pub data: Option<T>,
    pub message: Option<String>,
}

impl<T> ResponseBody<T> {
    /// A method to create a success response body.
    pub fn success(data: T) -> (r: Self)
        ensures
            r.status == Status::Success,
            r.data == Some(data),
            r.message is None,
    {
        ResponseBody { status: Status::Success, data: Some(data), message: None }
    }

    /// A method to create a success response without the data field.
    pub fn success_no_data() -> (r: Self)
        ensures
            r.status == Status::Success,
            r.data is None,
            r.message is None,
    {
        ResponseBody { status: Status::Success, data: None, message: None }
    }

    /// A method to create an error response body.
    pub fn error(message: &str) -> (r: Self)
        ensures
            r.status == Status::Failed,
            r.data is None,
            r.message matches Some(m) && m@ == message@,
    {
        ResponseBody { status: Status::Failed, data: None, message: Some(message.to_owned()) }
    }
}

/// Shape of every failure reply: the given status code, a `Failed`
/// envelope without data, and some message.
pub open spec fn is_error_reply<T>(r: (u16, ResponseBody<T>), code: u16) -> bool {
    &&& r.0 == code
    &&& r.1.status == Status::Failed
    &&& r.1.data is None
    &&& r.1.message is Some
}

} // verus!
