//! Stream forms of the IP address functions.
use vstd::prelude::*;
use super::ip::{self, Ip, Ipv4, Ipv6, dotted_decimal, is_ipv4_text};
use super::ipv6_text::ipv6_text_value;

verus! {

/// `Ip` values of a stream of `Ipv4` addresses.
pub fn from_ipv4(ipv4: &Vec<Ipv4>) -> (r: Vec<Ip>)
    ensures
        r.len() == ipv4.len(),
        forall|i: int| #![trigger r[i]] 0 <= i < r.len() ==> r[i] == Ip::V4(ipv4[i]),
{
    let mut r: Vec<Ip> = Vec::new();
    let mut i: usize = 0;
    while i < ipv4.len()
        invariant
            i <= ipv4.len(),
            r.len() == i,
            forall|j: int| #![trigger r[j]] 0 <= j < i ==> r[j] == Ip::V4(ipv4[j]),
        decreases ipv4.len() - i,
    {
        r.push(ip::from_ipv4(ipv4[i]));
        i = i + 1;
    }
    r
}

/// `Ip` values of a stream of `Ipv6` addresses.
pub fn from_ipv6(ipv6: &Vec<Ipv6>) -> (r: Vec<Ip>)
    ensures
        r.len() == ipv6.len(),
        forall|i: int| #![trigger r[i]] 0 <= i < r.len() ==> r[i] == Ip::V6(ipv6[i]),
{
    let mut r: Vec<Ip> = Vec::new();
    let mut i: usize = 0;
    while i < ipv6.len()
        invariant
            i <= ipv6.len(),
            r.len() == i,
            forall|j: int| #![trigger r[j]] 0 <= j < i ==> r[j] == Ip::V6(ipv6[j]),
        decreases ipv6.len() - i,
    {
        r.push(ip::from_ipv6(ipv6[i]));
        i = i + 1;
    }
    r
}

/// `Ipv4` addresses of a stream of `Ip`, `None` for each IPv6 one.
pub fn as_ipv4(ips: &Vec<Ip>) -> (r: Vec<Option<Ipv4>>)
    ensures
        r.len() == ips.len(),
        forall|i: int| #![trigger r[i]] 0 <= i < r.len() ==> r[i] == (match ips[i] { Ip::V4(v4) => Some(v4), Ip::V6(_) => None }),
{
    let mut r: Vec<Option<Ipv4>> = Vec::new();
    let mut i: usize = 0;
    while i < ips.len()
        invariant
            i <= ips.len(),
            r.len() == i,
            forall|j: int| #![trigger r[j]] 0 <= j < i ==> r[j] == (match ips[j] { Ip::V4(v4) => Some(v4), Ip::V6(_) => None }),
        decreases ips.len() - i,
    {
        r.push(ip::as_ipv4(ips[i]));
        i = i + 1;
    }
    r
}

/// `Ipv6` addresses of a stream of `Ip`, `None` for each IPv4 one.
pub fn as_ipv6(ips: &Vec<Ip>) -> (r: Vec<Option<Ipv6>>)
    ensures
        r.len() == ips.len(),
        forall|i: int| #![trigger r[i]] 0 <= i < r.len() ==> r[i] == (match ips[i] { Ip::V4(_) => None, Ip::V6(v6) => Some(v6) }),
{
    let mut r: Vec<Option<Ipv6>> = Vec::new();
    let mut i: usize = 0;
    while i < ips.len()
        invariant
            i <= ips.len(),
            r.len() == i,
            forall|j: int| #![trigger r[j]] 0 <= j < i ==> r[j] == (match ips[j] { Ip::V4(_) => None, Ip::V6(v6) => Some(v6) }),
        decreases ips.len() - i,
    {
        r.push(ip::as_ipv6(ips[i]));
        i = i + 1;
    }
    r
}

/// Whether each `Ip` of a stream is an IPv4 address.
pub fn is_ipv4(ips: &Vec<Ip>) -> (r: Vec<bool>)
    ensures
        r.len() == ips.len(),
        forall|i: int| #![trigger r[i]] 0 <= i < r.len() ==> r[i] == (ips[i] is V4),
{
    let mut r: Vec<bool> = Vec::new();
    let mut i: usize = 0;
    while i < ips.len()
        invariant
            i <= ips.len(),
            r.len() == i,
            forall|j: int| #![trigger r[j]] 0 <= j < i ==> r[j] == (ips[j] is V4),
        decreases ips.len() - i,
    {
        r.push(ip::is_ipv4(ips[i]));
        i = i + 1;
    }
    r
}

/// Whether each `Ip` of a stream is an IPv6 address.
pub fn is_ipv6(ips: &Vec<Ip>) -> (r: Vec<bool>)
    ensures
        r.len() == ips.len(),
        forall|i: int| #![trigger r[i]] 0 <= i < r.len() ==> r[i] == (ips[i] is V6),
{
    let mut r: Vec<bool> = Vec::new();
    let mut i: usize = 0;
    while i < ips.len()
        invariant
            i <= ips.len(),
            r.len() == i,
            forall|j: int| #![trigger r[j]] 0 <= j < i ==> r[j] == (ips[j] is V6),
        decreases ips.len() - i,
    {
        r.push(ip::is_ipv6(ips[i]));
        i = i + 1;
    }
    r
}

/// `Ipv4` addresses read from a stream of texts, `None` for each text that is not one.
pub fn to_ipv4(text: &Vec<String>) -> (r: Vec<Option<Ipv4>>)
    ensures
        r.len() == text.len(),
        forall|i: int| #![trigger r[i]] 0 <= i < r.len() ==> (match r[i] { Some(v4) => text[i]@ == dotted_decimal(v4.a, v4.b, v4.c, v4.d), None => !is_ipv4_text(text[i]@) }),
{
    let mut r: Vec<Option<Ipv4>> = Vec::new();
    let mut i: usize = 0;
    while i < text.len()
        invariant
            i <= text.len(),
            r.len() == i,
            forall|j: int| #![trigger r[j]] 0 <= j < i ==> (match r[j] { Some(v4) => text[j]@ == dotted_decimal(v4.a, v4.b, v4.c, v4.d), None => !is_ipv4_text(text[j]@) }),
        decreases text.len() - i,
    {
        r.push(ip::to_ipv4(text[i].as_str()));
        i = i + 1;
    }
    r
}

/// `Ipv6` addresses read from a stream of texts, `None` for each text that is not one.
pub fn to_ipv6(text: &Vec<String>) -> (r: Vec<Option<Ipv6>>)
    ensures
        r.len() == text.len(),
        forall|i: int| 0 <= i < r.len() ==> #[trigger] r[i] == ipv6_text_value(text[i]@),
{
    let mut r: Vec<Option<Ipv6>> = Vec::new();
    let mut i: usize = 0;
    while i < text.len()
        invariant
            i <= text.len(),
            r.len() == i,
            forall|j: int| 0 <= j < i ==> #[trigger] r[j] == ipv6_text_value(text[j]@),
        decreases text.len() - i,
    {
        r.push(ip::to_ipv6(text[i].as_str()));
        i = i + 1;
    }
    r
}

} // verus!
