//! What the control plane decides: the page that a request asks for, and
//! the status and envelope that answer a request.

use crate::clock::utc_now_rfc3339;
use crate::record::{error_message, status_of, RecordError};
use crate::text::{parse_usize, parse_usize_spec};
use crate::update::ApiResponse;
use vstd::prelude::*;

verus! {

/// The page that is listed where the request names none.
pub const DEFAULT_PAGE: usize = 1;

/// The number of records on a page where the request names none.
pub const DEFAULT_PER_PAGE: usize = 50;

/// Status of a record that was read, listed or updated.
pub const STATUS_OK: u16 = 200;

/// Status of a record that was created.
pub const STATUS_CREATED: u16 = 201;

/// Status of a record that was deleted.
pub const STATUS_NO_CONTENT: u16 = 204;

/// The number that a parameter of the query string asks for: the number
/// that it writes, or the default where it is absent or writes none.
pub open spec fn number_or(raw: Option<Seq<char>>, default: usize) -> usize {
    match raw {
        Some(text) => match parse_usize_spec(text) {
            Some(n) => n,
            None => default,
        },
        None => default,
    }
}

/// The number that a parameter of the query string asks for.
pub fn page_param(raw: Option<&str>, default: usize) -> (n: usize)
    ensures
        n == number_or(
            match raw {
                Some(text) => Some(text@),
                None => None,
            },
            default,
        ),
{
    match raw {
        Some(text) => match parse_usize(text) {
            Some(n) => n,
            None => default,
        },
        None => default,
    }
}

/// The status and the envelope that answer a request, stamped with
/// `timestamp`: on success the given status, with the data; on failure the
/// status that stands for the error, with its message.
pub fn respond_at<T>(result: Result<T, RecordError>, success_status: u16, timestamp: String) -> (answer:
    (u16, ApiResponse<T>))
    ensures
        answer.1.timestamp@ == timestamp@,
        match result {
            Ok(data) => {
                &&& answer.0 == success_status
                &&& answer.1.success
                &&& answer.1.data == Some(data)
                &&& answer.1.error is None
            },
            Err(e) => {
                &&& answer.0 == status_of(e@)
                &&& !answer.1.success
                &&& answer.1.data is None
                &&& answer.1.error is Some
                &&& answer.1.error->0@ == error_message(e@)
            },
        },
{
    match result {
        Ok(data) => (success_status, ApiResponse::success_at(data, timestamp)),
        Err(e) => {
            let status = e.to_status_code();
            (status, ApiResponse::error_at(e.message(), timestamp))
        },
    }
}

/// The status and the envelope that answer a request, stamped with the
/// current instant: see `respond_at`.
pub fn respond<T>(result: Result<T, RecordError>, success_status: u16) -> (answer: (
    u16,
    ApiResponse<T>,
))
    ensures
        match result {
            Ok(data) => {
                &&& answer.0 == success_status
                &&& answer.1.success
                &&& answer.1.data == Some(data)
                &&& answer.1.error is None
            },
            Err(e) => {
                &&& answer.0 == status_of(e@)
                &&& !answer.1.success
                &&& answer.1.data is None
                &&& answer.1.error is Some
                &&& answer.1.error->0@ == error_message(e@)
            },
        },
{
    respond_at(result, success_status, utc_now_rfc3339())
}

} // verus!
