use vstd::prelude::*;
use vstd::string::*;

verus! {

/// Envelope of every answer the service gives: a numeric code, a message and
/// an optional payload.
pub struct BaseResponse<T> {
    pub error_code: i16,
    pub message: String,
    pub data: Option<T>,
}

/// Code of an answer to a request that could not be served.
pub const BAD_REQUEST: i16 = 400;

impl<T> BaseResponse<T> {
    pub fn create(error_code: i16, message: &str, data: T) -> (r: Self)
        ensures
            r.error_code == error_code,
            r.message@ == message@,
            r.data == Some(data),
    {
        BaseResponse { error_code, message: String::from_str(message), data: Some(data) }
    }

    pub fn bad_request(message: &str) -> (r: Self)
        ensures
            r.error_code == BAD_REQUEST,
            r.message@ == message@,
            r.data.is_none(),
    {
        BaseResponse { error_code: BAD_REQUEST, message: String::from_str(message), data: None }
    }

    pub fn ok(data: T) -> (r: Self)
        ensures
            r.error_code == 0,
            r.message@ == "ok"@,
            r.data == Some(data),
    {
        BaseResponse { error_code: 0, message: String::from_str("ok"), data: Some(data) }
    }
}

} // verus!
