//! HTTP response statuses.
use vstd::prelude::*;
use vstd::string::StringExecFns;
use crate::text::{decimal, push_char, push_decimal};

verus! {

/// An HTTP response status, by its numeric code.
#[derive(Clone, Copy)]
pub struct HttpStatus {
    pub code: u16,
}

/// Whether `trillium` knows the status with numeric code `code`.
pub uninterp spec fn status_known(code: u16) -> bool;

/// The canonical reason phrase `trillium` gives for the status `code`.
pub uninterp spec fn reason_phrase(code: u16) -> Seq<char>;

/// `Status::try_from(code)` then `canonical_reason`. Claims the named
/// results: a status exactly for the known codes, and its phrase.
#[verifier::external_body]
fn status_reason(code: u16) -> (r: Option<String>)
    ensures
        r is Some <==> status_known(code),
        r matches Some(p) ==> p@ == reason_phrase(code),
{
    match ::trillium::Status::try_from(code) {
        Ok(s) => Some(s.canonical_reason().to_string()),
        Err(_) => None,
    }
}

/// The text of a status: its code, then a space and its reason phrase.
pub open spec fn status_text(code: u16) -> Seq<char> {
    if status_known(code) {
        decimal(code as nat) + seq![' '] + reason_phrase(code)
    } else {
        decimal(code as nat)
    }
}

impl HttpStatus {
    /// The numeric code followed by the canonical reason phrase, such as
    /// `200 OK` or `404 Not Found`.
    pub fn to_string(&self) -> (r: String)
        ensures
            r@ == status_text(self.code),
    {
        let mut r = String::new();
        push_decimal(&mut r, self.code as u64);
        match status_reason(self.code) {
            Some(reason) => {
                push_char(&mut r, ' ');
                r.append(reason.as_str());
            },
            None => {},
        }
        r
    }
}

/// The status with numeric code `code`; `None` if it is not a recognised
/// HTTP status.
pub fn status(code: u16) -> (r: Option<HttpStatus>)
    ensures
        r is Some <==> status_known(code),
        r matches Some(s) ==> s.code == code,
{
    match status_reason(code) {
        Some(_) => Some(HttpStatus { code }),
        None => None,
    }
}

/// Status `200 OK`.
pub fn ok() -> (r: HttpStatus)
    ensures
        r.code == 200,
{
    HttpStatus { code: 200 }
}

/// Status `301 Moved Permanently`.
pub fn moved_permanently() -> (r: HttpStatus)
    ensures
        r.code == 301,
{
    HttpStatus { code: 301 }
}

/// Status `307 Temporary Redirect`.
pub fn temporary_redirect() -> (r: HttpStatus)
    ensures
        r.code == 307,
{
    HttpStatus { code: 307 }
}

/// Status `308 Permanent Redirect`.
pub fn permanent_redirect() -> (r: HttpStatus)
    ensures
        r.code == 308,
{
    HttpStatus { code: 308 }
}

/// Status `403 Forbidden`.
pub fn forbidden() -> (r: HttpStatus)
    ensures
        r.code == 403,
{
    HttpStatus { code: 403 }
}

/// Status `404 Not Found`.
pub fn not_found() -> (r: HttpStatus)
    ensures
        r.code == 404,
{
    HttpStatus { code: 404 }
}

} // verus!
