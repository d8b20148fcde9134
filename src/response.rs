//! The responses that the router itself produces: a static file, and the
//! not-found response with its fallback to a bare status.

use vstd::prelude::*;

verus! {

/// Status of a served file or page.
pub const STATUS_OK: u16 = 200;

/// Status of a request that nothing serves.
pub const STATUS_NOT_FOUND: u16 = 404;

/// A response built by the router.
pub struct Response {
    pub status: u16,
    /// The `Content-Length` header, where the router sets one.
    pub content_length: Option<u64>,
    pub body: Vec<u8>,
}

/// The response for a static file: its bytes with status 200 when it could be
/// read (`Some`); `None` when it could not, which is the not-found case.
pub fn file_response(file: Option<Vec<u8>>) -> (r: Option<Response>)
    ensures
        file is None ==> r is None,
        file is Some ==> r is Some && r.unwrap().status == STATUS_OK && r.unwrap().content_length
            is None && r.unwrap().body@ == file.unwrap()@,
{
    match file {
        Some(body) => Some(Response { status: STATUS_OK, content_length: None, body }),
        None => None,
    }
}

/// The not-found response: the custom not-found page when it could be read,
/// served with status 200 and its length; else status 404 with an empty body.
pub fn not_found_response(page: Option<Vec<u8>>) -> (r: Response)
    ensures
        page is None ==> r.status == STATUS_NOT_FOUND && r.content_length is None
            && r.body@.len() == 0,
        page is Some ==> r.status == STATUS_OK && r.content_length == Some(
            page.unwrap()@.len() as u64,
        ) && r.body@ == page.unwrap()@,
{
    match page {
        Some(body) => {
            let size = body.len() as u64;
            Response { status: STATUS_OK, content_length: Some(size), body }
        },
        None => Response { status: STATUS_NOT_FOUND, content_length: None, body: Vec::new() },
    }
}

} // verus!
