//! The response envelope of the API layer.
use vstd::prelude::*;

verus! {

/// Response wrapper for consistent API responses: status "ok" with data, or
/// status "error" with a message.
#[derive(Debug)]
pub struct ApiResponse<T> {
    pub status: String,
    pub data: Option<T>,
    pub error: Option<String>,
}

impl<T> ApiResponse<T> {
    /// A successful response carrying `data`.
    pub fn ok(data: T) -> (r: ApiResponse<T>)
        ensures
            r.status@ == "ok"@,
            r.data == Some(data),
            r.error is None,
    {
        ApiResponse { status: String::from_str("ok"), data: Some(data), error: None }
    }

    /// A failed response carrying the message `error`.
    pub fn err(error: &str) -> (r: ApiResponse<T>)
        ensures
            r.status@ == "error"@,
            r.data is None,
            r.error matches Some(e) && e@ == error@,
    {
        ApiResponse { status: String::from_str("error"), data: None, error: Some(error.to_string()) }
    }
}

} // verus!
