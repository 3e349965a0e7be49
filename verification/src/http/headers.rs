//! Which headers an HTTP request or response carries.
//!
//! Headers given by a user go out only where `trillium` finds both the name
//! and the value valid; headers received are kept where their value is text.
use vstd::prelude::*;
use crate::data::{StringMap, pairs_view};

verus! {

/// A character of an HTTP token (`tchar` of RFC 9110).
pub open spec fn is_tchar(c: char) -> bool {
    ||| ('a' <= c && c <= 'z')
    ||| ('A' <= c && c <= 'Z')
    ||| ('0' <= c && c <= '9')
    ||| c == '!' || c == '#' || c == '$' || c == '%' || c == '&' || c == '\''
    ||| c == '*' || c == '+' || c == '-' || c == '.' || c == '^' || c == '_'
    ||| c == '`' || c == '|' || c == '~'
}

/// An HTTP token: at least one character, all of them `tchar`.
pub open spec fn is_token(s: Seq<char>) -> bool {
    s.len() > 0 && forall|i: int| 0 <= i < s.len() ==> is_tchar(#[trigger] s[i])
}

/// A header value holds no carriage return, line feed or NUL character.
pub open spec fn header_value_ok(value: Seq<char>) -> bool {
    forall|i: int| 0 <= i < value.len() ==> #[trigger] value[i] != '\r' && value[i] != '\n' && value[i] != '\0'
}

/// `HeaderName::from(name).is_valid()`: a name the crate does not know is
/// valid exactly when it is a token, and every name it knows (matched
/// ignoring ASCII case) is a token and valid; the contract claims that the
/// name is valid exactly when it is a token.
#[verifier::external_body]
fn header_name_valid(name: &str) -> (r: bool)
    ensures
        r == is_token(name@),
{
    ::trillium::HeaderName::from(name).is_valid()
}

/// `HeaderValue::from(value).is_valid()`: the crate finds a text value
/// valid exactly when its bytes hold no `\r`, `\n` or NUL, which in UTF-8
/// are the bytes of those characters only.
#[verifier::external_body]
fn header_value_valid(value: &str) -> (r: bool)
    ensures
        r == header_value_ok(value@),
{
    ::trillium::HeaderValue::from(value.to_string()).is_valid()
}

/// The headers that go out of `entries`: those whose name and value are
/// both valid, in order.
pub open spec fn sendable(entries: Seq<(Seq<char>, Seq<char>)>) -> Seq<(Seq<char>, Seq<char>)>
    decreases entries.len(),
{
    if entries.len() == 0 {
        Seq::empty()
    } else {
        let rest = sendable(entries.drop_last());
        let e = entries.last();
        if is_token(e.0) && header_value_ok(e.1) {
            rest.push(e)
        } else {
            rest
        }
    }
}

/// The headers of `headers` that are sent: those whose name and value
/// `trillium` finds valid, in order.
pub fn outgoing_headers(headers: &StringMap) -> (r: Vec<(String, String)>)
    ensures
        pairs_view(r@) == sendable(headers.view()),
{
    let mut r: Vec<(String, String)> = Vec::new();
    let mut i: usize = 0;
    while i < headers.entries.len()
        invariant
            i <= headers.entries@.len(),
            pairs_view(r@) == sendable(headers.view().subrange(0, i as int)),
        decreases headers.entries@.len() - i,
    {
        let ghost before = r@;
        let ghost prefix = headers.view().subrange(0, i + 1);
        assert(prefix.drop_last() =~= headers.view().subrange(0, i as int));
        assert(prefix.last() == (headers.entries@[i as int].0@, headers.entries@[i as int].1@));
        let name = &headers.entries[i].0;
        let value = &headers.entries[i].1;
        if header_name_valid(name.as_str()) && header_value_valid(value.as_str()) {
            r.push((name.clone(), value.clone()));
            assert(pairs_view(r@) =~= pairs_view(before).push((name@, value@)));
        }
        i = i + 1;
    }
    assert(headers.view().subrange(0, headers.view().len() as int) =~= headers.view());
    r
}

/// The received headers that are kept: those whose value is text.
pub open spec fn textual(entries: Seq<(Seq<char>, Option<Seq<char>>)>) -> Seq<(Seq<char>, Seq<char>)>
    decreases entries.len(),
{
    if entries.len() == 0 {
        Seq::empty()
    } else {
        let rest = textual(entries.drop_last());
        match entries.last().1 {
            Some(v) => rest.push((entries.last().0, v)),
            None => rest,
        }
    }
}

/// The view of received headers, each value text or not.
pub open spec fn received_view(headers: Seq<(String, Option<String>)>) -> Seq<(Seq<char>, Option<Seq<char>>)> {
    headers.map_values(|h: (String, Option<String>)| (h.0@, match h.1 { Some(v) => Some(v@), None => None }))
}

/// The received headers as a map: each header whose value is text, in
/// order; the others are left out.
pub fn received_headers(headers: Vec<(String, Option<String>)>) -> (r: StringMap)
    ensures
        r.view() == textual(received_view(headers@)),
{
    let mut entries: Vec<(String, String)> = Vec::new();
    let mut i: usize = 0;
    while i < headers.len()
        invariant
            i <= headers@.len(),
            pairs_view(entries@) == textual(received_view(headers@).subrange(0, i as int)),
        decreases headers@.len() - i,
    {
        let ghost before = entries@;
        let ghost prefix = received_view(headers@).subrange(0, i + 1);
        assert(prefix.drop_last() =~= received_view(headers@).subrange(0, i as int));
        assert(prefix.last() == received_view(headers@)[i as int]);
        match &headers[i].1 {
            Some(v) => {
                entries.push((headers[i].0.clone(), v.clone()));
                assert(pairs_view(entries@) =~= pairs_view(before).push((headers@[i as int].0@, v@)));
            },
            None => {},
        }
        i = i + 1;
    }
    assert(received_view(headers@).subrange(0, headers@.len() as int) =~= received_view(headers@));
    StringMap { entries }
}

} // verus!
