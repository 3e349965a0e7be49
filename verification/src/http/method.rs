//! HTTP request methods.
use vstd::prelude::*;

verus! {

/// An HTTP request method, by its standard uppercase name.
#[derive(Clone)]
pub struct HttpMethod {
    pub name: String,
}

/// `c` with an ASCII lowercase letter made uppercase.
pub open spec fn ascii_upper_char(c: char) -> char {
    if 'a' <= c && c <= 'z' {
        ((c as u32) - 32) as char
    } else {
        c
    }
}

/// `s` with its ASCII lowercase letters made uppercase.
pub open spec fn ascii_upper(s: Seq<char>) -> Seq<char> {
    s.map_values(|c: char| ascii_upper_char(c))
}

/// Whether `upper` is the name of a method `trillium` knows: the methods of
/// RFC 9110 and of the WebDAV and other registered extensions it lists.
pub open spec fn method_known(upper: Seq<char>) -> bool {
    ||| upper == seq!['G', 'E', 'T']
    ||| upper == seq!['O', 'P', 'T', 'I', 'O', 'N', 'S']
    ||| upper == seq!['P', 'O', 'S', 'T']
    ||| upper == seq!['P', 'U', 'T']
    ||| upper == seq!['P', 'A', 'T', 'C', 'H']
    ||| upper == seq!['D', 'E', 'L', 'E', 'T', 'E']
    ||| upper == seq!['H', 'E', 'A', 'D']
    ||| upper == seq!['A', 'C', 'L']
    ||| upper == seq!['B', 'A', 'S', 'E', 'L', 'I', 'N', 'E', '-', 'C', 'O', 'N', 'T', 'R', 'O', 'L']
    ||| upper == seq!['B', 'I', 'N', 'D']
    ||| upper == seq!['C', 'H', 'E', 'C', 'K', 'I', 'N']
    ||| upper == seq!['C', 'H', 'E', 'C', 'K', 'O', 'U', 'T']
    ||| upper == seq!['C', 'O', 'N', 'N', 'E', 'C', 'T']
    ||| upper == seq!['C', 'O', 'P', 'Y']
    ||| upper == seq!['L', 'A', 'B', 'E', 'L']
    ||| upper == seq!['L', 'I', 'N', 'K']
    ||| upper == seq!['L', 'O', 'C', 'K']
    ||| upper == seq!['M', 'E', 'R', 'G', 'E']
    ||| upper == seq!['M', 'K', 'A', 'C', 'T', 'I', 'V', 'I', 'T', 'Y']
    ||| upper == seq!['M', 'K', 'C', 'A', 'L', 'E', 'N', 'D', 'A', 'R']
    ||| upper == seq!['M', 'K', 'C', 'O', 'L']
    ||| upper == seq!['M', 'K', 'R', 'E', 'D', 'I', 'R', 'E', 'C', 'T', 'R', 'E', 'F']
    ||| upper == seq!['M', 'K', 'W', 'O', 'R', 'K', 'S', 'P', 'A', 'C', 'E']
    ||| upper == seq!['M', 'O', 'V', 'E']
    ||| upper == seq!['O', 'R', 'D', 'E', 'R', 'P', 'A', 'T', 'C', 'H']
    ||| upper == seq!['P', 'R', 'I']
    ||| upper == seq!['P', 'R', 'O', 'P', 'F', 'I', 'N', 'D']
    ||| upper == seq!['P', 'R', 'O', 'P', 'P', 'A', 'T', 'C', 'H']
    ||| upper == seq!['Q', 'U', 'E', 'R', 'Y']
    ||| upper == seq!['R', 'E', 'B', 'I', 'N', 'D']
    ||| upper == seq!['R', 'E', 'P', 'O', 'R', 'T']
    ||| upper == seq!['S', 'E', 'A', 'R', 'C', 'H']
    ||| upper == seq!['T', 'R', 'A', 'C', 'E']
    ||| upper == seq!['U', 'N', 'B', 'I', 'N', 'D']
    ||| upper == seq!['U', 'N', 'C', 'H', 'E', 'C', 'K', 'O', 'U', 'T']
    ||| upper == seq!['U', 'N', 'L', 'I', 'N', 'K']
    ||| upper == seq!['U', 'N', 'L', 'O', 'C', 'K']
    ||| upper == seq!['U', 'P', 'D', 'A', 'T', 'E']
    ||| upper == seq!['U', 'P', 'D', 'A', 'T', 'E', 'R', 'E', 'D', 'I', 'R', 'E', 'C', 'T', 'R', 'E', 'F']
    ||| upper == seq!['V', 'E', 'R', 'S', 'I', 'O', 'N', '-', 'C', 'O', 'N', 'T', 'R', 'O', 'L']
}

/// `Method::try_from` on `name`, giving the method's name (`as_str`).
/// The crate upper-cases the ASCII letters of `name` and looks the result up
/// in its list of methods, whose names it gives back as they are; the
/// contract claims that, with the list as `method_known` states it.
#[verifier::external_body]
fn parse_method(name: &str) -> (r: Option<String>)
    ensures
        r is Some <==> method_known(ascii_upper(name@)),
        r matches Some(n) ==> n@ == ascii_upper(name@),
{
    match ::trillium::Method::try_from(name) {
        Ok(m) => Some(m.as_str().to_string()),
        Err(_) => None,
    }
}

impl HttpMethod {
    /// The standard uppercase name of the method.
    pub fn to_string(&self) -> (r: String)
        ensures
            r@ == self.name@,
    {
        self.name.clone()
    }
}

/// The method named `name`, in any ASCII case; `None` if it is not a
/// recognised HTTP method.
pub fn method(name: &str) -> (r: Option<HttpMethod>)
    ensures
        r is Some <==> method_known(ascii_upper(name@)),
        r matches Some(m) ==> m.name@ == ascii_upper(name@),
{
    match parse_method(name) {
        Some(n) => Some(HttpMethod { name: n }),
        None => None,
    }
}

/// The `DELETE` method.
pub fn delete() -> (r: HttpMethod)
    ensures
        r.name@ == seq!['D', 'E', 'L', 'E', 'T', 'E'],
{
    let r = HttpMethod { name: "DELETE".to_string() };
    proof {
        reveal_strlit("DELETE");
    }
    r
}

/// The `GET` method.
pub fn get() -> (r: HttpMethod)
    ensures
        r.name@ == seq!['G', 'E', 'T'],
{
    let r = HttpMethod { name: "GET".to_string() };
    proof {
        reveal_strlit("GET");
    }
    r
}

/// The `HEAD` method.
pub fn head() -> (r: HttpMethod)
    ensures
        r.name@ == seq!['H', 'E', 'A', 'D'],
{
    let r = HttpMethod { name: "HEAD".to_string() };
    proof {
        reveal_strlit("HEAD");
    }
    r
}

/// The `OPTIONS` method.
pub fn options() -> (r: HttpMethod)
    ensures
        r.name@ == seq!['O', 'P', 'T', 'I', 'O', 'N', 'S'],
{
    let r = HttpMethod { name: "OPTIONS".to_string() };
    proof {
        reveal_strlit("OPTIONS");
    }
    r
}

/// The `PATCH` method.
pub fn patch() -> (r: HttpMethod)
    ensures
        r.name@ == seq!['P', 'A', 'T', 'C', 'H'],
{
    let r = HttpMethod { name: "PATCH".to_string() };
    proof {
        reveal_strlit("PATCH");
    }
    r
}

/// The `POST` method.
pub fn post() -> (r: HttpMethod)
    ensures
        r.name@ == seq!['P', 'O', 'S', 'T'],
{
    let r = HttpMethod { name: "POST".to_string() };
    proof {
        reveal_strlit("POST");
    }
    r
}

/// The `PUT` method.
pub fn put() -> (r: HttpMethod)
    ensures
        r.name@ == seq!['P', 'U', 'T'],
{
    let r = HttpMethod { name: "PUT".to_string() };
    proof {
        reveal_strlit("PUT");
    }
    r
}

/// The `TRACE` method.
pub fn trace() -> (r: HttpMethod)
    ensures
        r.name@ == seq!['T', 'R', 'A', 'C', 'E'],
{
    let r = HttpMethod { name: "TRACE".to_string() };
    proof {
        reveal_strlit("TRACE");
    }
    r
}

} // verus!
