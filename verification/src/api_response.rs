//! Validation of raw HTTP responses.
//!
//! The transport hands back a numeric status and a body text; the
//! functions here classify the status and decode the body, so that no
//! response-handling decision lives in unverified code.

use vstd::prelude::*;

use crate::activitymap::rsp::{response_of_jval, Response};
use crate::error::{error_body_message, ErrorBody, RestError};
use crate::json::json_of_text;

verus! {

/// Whether a status code counts as success: the 2xx range.
pub open spec fn is_success(status: u16) -> bool {
    200 <= status < 300
}

/// Checks if the status code is in the 2xx range. If not, the body is
/// decoded as a structured application error, best-effort: a body that
/// does not hold the documented `{"error_message": ...}` shape merely
/// leaves the message absent, it never masks the failing status.
pub fn validate_status(status: u16, body: &str) -> (r: Result<(), RestError>)
    ensures
        match r {
            Result::Ok(u) => is_success(status),
            Result::Err(e) => !is_success(status) && e.status_spec() == status
                && e.message_spec() == error_body_message(json_of_text(body@)),
        },
{
    if 200 <= status && status < 300 {
        Result::Ok(())
    } else {
        let message: Option<String> = match ErrorBody::from_json_text(body) {
            Option::Some(b) => Option::Some(b.message().to_owned()),
            Option::None => Option::None,
        };
        Result::Err(RestError::from_status(status, message))
    }
}

/// Chains status validation with typed decoding of an activity-map
/// response: a failing status surfaces the application error, a
/// successful status whose body does not decode is a decode error, and
/// otherwise the typed response is returned.
pub fn validate_and_read(status: u16, body: &str) -> (r: Result<Response, crate::error::Error>)
    ensures
        match r {
            Result::Ok(rsp) => is_success(status) && json_of_text(body@) is Some
                && response_of_jval(json_of_text(body@)->0) == Option::Some(rsp@),
            Result::Err(e) => match e {
                crate::error::Error::Rest(re) => !is_success(status) && re.status_spec()
                    == status && re.message_spec() == error_body_message(json_of_text(body@)),
                crate::error::Error::Decode => is_success(status) && (json_of_text(
                    body@,
                ) is None || response_of_jval(json_of_text(body@)->0) is None),
                _ => false,
            },
        },
{
    match validate_status(status, body) {
        Result::Ok(u) => match Response::from_json_text(body) {
            Option::Some(rsp) => Result::Ok(rsp),
            Option::None => Result::Err(crate::error::Error::Decode),
        },
        Result::Err(e) => Result::Err(crate::error::Error::Rest(e)),
    }
}

} // verus!
