//! The uniform response envelope: `code == 0` with message `"success"`
//! denotes success and a populated `data`; a nonzero `code` denotes failure
//! with `data` absent.

use vstd::prelude::*;

verus! {

/// The `{code, message, data}` wrapper applied at the boundary.
#[derive(Debug)]
pub struct Response<T> {
    pub code: i32,
    pub message: String,
    pub data: Option<T>,
}

impl<T> Response<T> {
    /// The success envelope: code 0, message `"success"`, data present.
    pub fn success(data: T) -> (r: Response<T>)
        ensures
            r.code == 0,
            r.message@ == "success"@,
            r.data == Some(data),
    {
        Response { code: 0, message: String::from_str("success"), data: Some(data) }
    }

    /// A failure envelope: the given nonzero code and message, data absent.
    pub fn error(code: i32, message: String) -> (r: Response<T>) where T: Default
        ensures
            r.code == code,
            r.message == message,
            r.data is None,
    {
        Response { code, message, data: None }
    }
}

} // verus!
