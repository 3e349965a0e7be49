//! What the HTTP client's request treatments report.
//!
//! A request goes out with the valid headers among those given (see
//! `outgoing_headers`); what comes back, or the failure to get it, decides
//! what the treatment sends.
use vstd::prelude::*;
use crate::data::StringMap;
use super::headers::{received_headers, received_view, textual};
use super::status::HttpStatus;

verus! {

/// How a request ended.
pub enum RequestOutcome {
    /// The URL, joined to the client's base if it has one, is not valid.
    InvalidUrl(String),
    /// The connection failed.
    ConnectionFailed(String),
    /// The server answered, with a status code if one was read, and its
    /// headers, each value given where it is text.
    Responded { status: Option<u16>, headers: Vec<(String, Option<String>)> },
}

/// What a request treatment sends: the status and the response headers, the
/// response body as data, then `completed`; or `failed` with an `error`
/// message; and `finished` in every case.
pub struct RequestReport {
    pub status: Option<HttpStatus>,
    pub headers: Option<StringMap>,
    pub body: bool,
    pub completed: bool,
    pub failed: bool,
    pub error: Option<String>,
    pub finished: bool,
}

/// What a request treatment (`request`, `request_with_body`) sends for how
/// its request ended. A response without a status sends nothing but
/// `finished`.
pub fn request(outcome: RequestOutcome) -> (r: RequestReport)
    ensures
        r.finished,
        r.failed <==> !(outcome is Responded),
        match outcome {
            RequestOutcome::InvalidUrl(m) => r.error == Some(m) && r.status is None
                && r.headers is None && !r.body && !r.completed,
            RequestOutcome::ConnectionFailed(m) => r.error == Some(m) && r.status is None
                && r.headers is None && !r.body && !r.completed,
            RequestOutcome::Responded { status, headers } => r.error is None && match status {
                Some(code) => r.status == Some(HttpStatus { code }) && r.body && r.completed && (
                r.headers matches Some(h) && h.view() == textual(received_view(headers@))),
                None => r.status is None && r.headers is None && !r.body && !r.completed,
            },
        },
{
    match outcome {
        RequestOutcome::InvalidUrl(m) => RequestReport {
            status: None,
            headers: None,
            body: false,
            completed: false,
            failed: true,
            error: Some(m),
            finished: true,
        },
        RequestOutcome::ConnectionFailed(m) => RequestReport {
            status: None,
            headers: None,
            body: false,
            completed: false,
            failed: true,
            error: Some(m),
            finished: true,
        },
        RequestOutcome::Responded { status, headers } => match status {
            Some(code) => RequestReport {
                status: Some(HttpStatus { code }),
                headers: Some(received_headers(headers)),
                body: true,
                completed: true,
                failed: false,
                error: None,
                finished: true,
            },
            None => RequestReport {
                status: None,
                headers: None,
                body: false,
                completed: false,
                failed: false,
                error: None,
                finished: true,
            },
        },
    }
}

} // verus!
