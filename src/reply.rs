use vstd::prelude::*;

verus! {

pub const STATUS_OK: u16 = 200;

pub const STATUS_TEMPORARY_REDIRECT: u16 = 307;

pub const STATUS_BAD_REQUEST: u16 = 400;

pub const STATUS_FORBIDDEN: u16 = 403;

pub const STATUS_NOT_FOUND: u16 = 404;

pub const STATUS_INTERNAL_SERVER_ERROR: u16 = 500;

/// An HTTP response: a status, a redirect target where there is one, and the
/// body bytes.
pub struct Reply {
    pub status: u16,
    pub location: Option<String>,
    pub body: Vec<u8>,
}

impl Reply {
    /// A response with a body and no redirect.
    pub fn with_body(status: u16, body: Vec<u8>) -> (r: Reply)
        ensures
            r.status == status,
            r.location is None,
            r.body@ == body@,
    {
        Reply { status, location: None, body }
    }

    /// A `307 Temporary Redirect` to `url`, which keeps the request's method.
    pub fn redirect(url: String) -> (r: Reply)
        ensures
            r.status == STATUS_TEMPORARY_REDIRECT,
            r.location is Some && r.location->Some_0@ == url@,
            r.body@.len() == 0,
    {
        Reply { status: STATUS_TEMPORARY_REDIRECT, location: Some(url), body: Vec::new() }
    }
}

} // verus!
