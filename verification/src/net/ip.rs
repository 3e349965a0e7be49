//! IP addresses.
//!
//! An `Ipv4` holds its four octets, an `Ipv6` its eight 16-bit segments, and
//! an `Ip` either of them. IPv4 text is the dotted decimal notation, each
//! octet written in decimal without leading zeros; IPv6 text is read by
//! `to_ipv6` (see the `ipv6_text` module).
use vstd::prelude::*;
pub use super::ipv6_text::to_ipv6;
use super::ipv6_text::ipv6_text;
use crate::text::{
    canonical_digits, chars_of, decimal, digits_value, is_digit, lemma_canonical_is_decimal,
    lemma_decimal, push_char, push_decimal, run_ends, scan_digits, small_decimal_value,
};

verus! {

/// An IP v4 address `a.b.c.d`.
#[derive(Debug, Clone, Copy, PartialEq, Eq, Structural)]
pub struct Ipv4 {
    pub a: u8,
    pub b: u8,
    pub c: u8,
    pub d: u8,
}

/// An IP v6 address `a:b:c:d:e:f:g:h`.
#[derive(Debug, Clone, Copy, PartialEq, Eq, Structural)]
pub struct Ipv6 {
    pub a: u16,
    pub b: u16,
    pub c: u16,
    pub d: u16,
    pub e: u16,
    pub f: u16,
    pub g: u16,
    pub h: u16,
}

/// An IP address, v4 or v6.
#[derive(Debug, Clone, Copy, PartialEq, Eq, Structural)]
pub enum Ip {
    V4(Ipv4),
    V6(Ipv6),
}

/// Dotted decimal rendering `a.b.c.d` of four octets.
pub open spec fn dotted_decimal(a: u8, b: u8, c: u8, d: u8) -> Seq<char> {
    decimal(a as nat) + seq!['.'] + decimal(b as nat) + seq!['.'] + decimal(c as nat) + seq!['.']
        + decimal(d as nat)
}

impl Ipv4 {
    /// The four octets.
    pub open spec fn octets(self) -> (u8, u8, u8, u8) {
        (self.a, self.b, self.c, self.d)
    }

    /// Dotted decimal rendering, such as `127.0.0.1`.
    pub fn to_string(&self) -> (r: String)
        ensures
            r@ == dotted_decimal(self.a, self.b, self.c, self.d),
    {
        let mut s = String::new();
        push_decimal(&mut s, self.a as u64);
        push_char(&mut s, '.');
        push_decimal(&mut s, self.b as u64);
        push_char(&mut s, '.');
        push_decimal(&mut s, self.c as u64);
        push_char(&mut s, '.');
        push_decimal(&mut s, self.d as u64);
        s
    }
}

/// Wraps an `Ipv4` into an `Ip`.
pub fn from_ipv4(ipv4: Ipv4) -> (r: Ip)
    ensures
        r == Ip::V4(ipv4),
{
    Ip::V4(ipv4)
}

/// Wraps an `Ipv6` into an `Ip`.
pub fn from_ipv6(ipv6: Ipv6) -> (r: Ip)
    ensures
        r == Ip::V6(ipv6),
{
    Ip::V6(ipv6)
}

/// The `Ipv4` address of `ip`, or `None` if it is an IPv6 address.
pub fn as_ipv4(ip: Ip) -> (r: Option<Ipv4>)
    ensures
        r == (match ip {
            Ip::V4(v4) => Some(v4),
            Ip::V6(_) => None,
        }),
{
    match ip {
        Ip::V4(v4) => Some(v4),
        Ip::V6(_) => None,
    }
}

/// The `Ipv6` address of `ip`, or `None` if it is an IPv4 address.
pub fn as_ipv6(ip: Ip) -> (r: Option<Ipv6>)
    ensures
        r == (match ip {
            Ip::V4(_) => None,
            Ip::V6(v6) => Some(v6),
        }),
{
    match ip {
        Ip::V4(_) => None,
        Ip::V6(v6) => Some(v6),
    }
}

/// Whether `ip` is an IPv4 address.
pub fn is_ipv4(ip: Ip) -> (r: bool)
    ensures
        r == (ip is V4),
{
    match ip {
        Ip::V4(_) => true,
        Ip::V6(_) => false,
    }
}

/// Whether `ip` is an IPv6 address.
pub fn is_ipv6(ip: Ip) -> (r: bool)
    ensures
        r == (ip is V6),
{
    match ip {
        Ip::V4(_) => false,
        Ip::V6(_) => true,
    }
}

/// The `Ipv4` address `a.b.c.d`.
pub fn ipv4(a: u8, b: u8, c: u8, d: u8) -> (r: Ipv4)
    ensures
        r == (Ipv4 { a, b, c, d }),
{
    Ipv4 { a, b, c, d }
}

/// `s` is the dotted decimal rendering of some IPv4 address.
pub open spec fn is_ipv4_text(s: Seq<char>) -> bool {
    exists|a: u8, b: u8, c: u8, d: u8| s == #[trigger] dotted_decimal(a, b, c, d)
}

/// The address whose rendering `s` is.
pub open spec fn ipv4_witness(s: Seq<char>) -> (u8, u8, u8, u8) {
    choose|a: u8, b: u8, c: u8, d: u8| s == #[trigger] dotted_decimal(a, b, c, d)
}

/// The fields of a dotted decimal rendering, where the runs of digits stop
/// and what they hold.
proof fn lemma_dotted_fields(s: Seq<char>, a: u8, b: u8, c: u8, d: u8)
    requires
        s == dotted_decimal(a, b, c, d),
    ensures
        ({
            let l0 = decimal(a as nat).len() as int;
            let l1 = l0 + 1 + decimal(b as nat).len();
            let l2 = l1 + 1 + decimal(c as nat).len();
            &&& run_ends(s, 0, l0)
            &&& s[l0] == '.'
            &&& run_ends(s, l0 + 1, l1)
            &&& s[l1] == '.'
            &&& run_ends(s, l1 + 1, l2)
            &&& s[l2] == '.'
            &&& run_ends(s, l2 + 1, s.len() as int)
            &&& s.subrange(0, l0) == decimal(a as nat)
            &&& s.subrange(l0 + 1, l1) == decimal(b as nat)
            &&& s.subrange(l1 + 1, l2) == decimal(c as nat)
            &&& s.subrange(l2 + 1, s.len() as int) == decimal(d as nat)
        }),
{
    let da = decimal(a as nat);
    let db = decimal(b as nat);
    let dc = decimal(c as nat);
    let dd = decimal(d as nat);
    lemma_decimal(a as nat);
    lemma_decimal(b as nat);
    lemma_decimal(c as nat);
    lemma_decimal(d as nat);
    let l0 = da.len() as int;
    let l1 = l0 + 1 + db.len();
    let l2 = l1 + 1 + dc.len();
    assert(s == da + seq!['.'] + db + seq!['.'] + dc + seq!['.'] + dd);
    assert(s.len() == l2 + 1 + dd.len());
    assert(s.subrange(0, l0) =~= da);
    assert(s.subrange(l0 + 1, l1) =~= db);
    assert(s.subrange(l1 + 1, l2) =~= dc);
    assert(s.subrange(l2 + 1, s.len() as int) =~= dd);
    assert(s[l0] == '.');
    assert(s[l1] == '.');
    assert(s[l2] == '.');
    assert forall|i: int| 0 <= i < l0 implies is_digit(#[trigger] s[i]) by {
        assert(s[i] == da[i]);
    }
    assert forall|i: int| l0 + 1 <= i < l1 implies is_digit(#[trigger] s[i]) by {
        assert(s[i] == db[i - l0 - 1]);
    }
    assert forall|i: int| l1 + 1 <= i < l2 implies is_digit(#[trigger] s[i]) by {
        assert(s[i] == dc[i - l1 - 1]);
    }
    assert forall|i: int| l2 + 1 <= i < s.len() implies is_digit(#[trigger] s[i]) by {
        assert(s[i] == dd[i - l2 - 1]);
    }
}

/// Two digit runs starting at the same place stop at the same place.
proof fn lemma_run_unique(s: Seq<char>, p: int, q1: int, q2: int)
    requires
        run_ends(s, p, q1),
        run_ends(s, p, q2),
    ensures
        q1 == q2,
{
    if q1 < q2 {
        assert(is_digit(s[q1]));
    } else if q2 < q1 {
        assert(is_digit(s[q2]));
    }
}

/// Different addresses have different renderings.
pub proof fn lemma_dotted_decimal_injective(x: Ipv4, y: Ipv4)
    requires
        dotted_decimal(x.a, x.b, x.c, x.d) == dotted_decimal(y.a, y.b, y.c, y.d),
    ensures
        x == y,
{
    let s = dotted_decimal(x.a, x.b, x.c, x.d);
    lemma_dotted_fields(s, x.a, x.b, x.c, x.d);
    lemma_dotted_fields(s, y.a, y.b, y.c, y.d);
    lemma_decimal(x.a as nat);
    lemma_decimal(x.b as nat);
    lemma_decimal(x.c as nat);
    lemma_decimal(x.d as nat);
    lemma_decimal(y.a as nat);
    lemma_decimal(y.b as nat);
    lemma_decimal(y.c as nat);
    lemma_decimal(y.d as nat);
    let lx0 = decimal(x.a as nat).len() as int;
    let ly0 = decimal(y.a as nat).len() as int;
    lemma_run_unique(s, 0, lx0, ly0);
    let lx1 = lx0 + 1 + decimal(x.b as nat).len();
    let ly1 = ly0 + 1 + decimal(y.b as nat).len();
    lemma_run_unique(s, lx0 + 1, lx1, ly1);
    let lx2 = lx1 + 1 + decimal(x.c as nat).len();
    let ly2 = ly1 + 1 + decimal(y.c as nat).len();
    lemma_run_unique(s, lx1 + 1, lx2, ly2);
    assert(digits_value(decimal(x.a as nat)) == digits_value(decimal(y.a as nat)));
    assert(digits_value(decimal(x.b as nat)) == digits_value(decimal(y.b as nat)));
    assert(digits_value(decimal(x.c as nat)) == digits_value(decimal(y.c as nat)));
    assert(digits_value(decimal(x.d as nat)) == digits_value(decimal(y.d as nat)));
}

/// Whether the characters `s[start..end]` are the decimal rendering of an
/// octet, and which.
fn octet_field(s: &Vec<char>, start: usize, end: usize) -> (r: Option<u8>)
    requires
        run_ends(s@, start as int, end as int),
    ensures
        match r {
            Some(v) => s@.subrange(start as int, end as int) == decimal(v as nat),
            None => forall|v: u8| s@.subrange(start as int, end as int) != #[trigger] decimal(v as nat),
        },
{
    match small_decimal_value(s, start, end, 255) {
        Some(v) => {
            proof {
                lemma_canonical_is_decimal(s@.subrange(start as int, end as int));
            }
            Some(v as u8)
        },
        None => {
            proof {
                assert forall|v: u8| s@.subrange(start as int, end as int) != #[trigger] decimal(
                    v as nat,
                ) by {
                    lemma_decimal(v as nat);
                }
            }
            None
        },
    }
}

/// Parses `text` as an `Ipv4` address in dotted decimal notation, each
/// octet in decimal without leading zeros; `None` if `text` is not one.
pub fn to_ipv4(text: &str) -> (r: Option<Ipv4>)
    ensures
        match r {
            Some(ip) => text@ == dotted_decimal(ip.a, ip.b, ip.c, ip.d),
            None => !is_ipv4_text(text@),
        },
        forall|ip: Ipv4| text@ == #[trigger] dotted_decimal(ip.a, ip.b, ip.c, ip.d) ==> r == Some(ip),
{
    let r = parse_ipv4(text);
    proof {
        assert forall|ip: Ipv4| text@ == #[trigger] dotted_decimal(ip.a, ip.b, ip.c, ip.d) implies r == Some(ip) by {
            match r {
                Some(x) => lemma_dotted_decimal_injective(x, ip),
                None => {},
            }
        }
    }
    r
}

/// Dotted decimal parser behind `to_ipv4`.
fn parse_ipv4(text: &str) -> (r: Option<Ipv4>)
    ensures
        match r {
            Some(ip) => text@ == dotted_decimal(ip.a, ip.b, ip.c, ip.d),
            None => !is_ipv4_text(text@),
        },
{
    let s = chars_of(text);
    let n = s.len();
    proof {
        if is_ipv4_text(s@) {
            let (a, b, c, d) = ipv4_witness(s@);
            lemma_dotted_fields(s@, a, b, c, d);
        }
    }
    let e0 = scan_digits(&s, 0);
    let a = match octet_field(&s, 0, e0) {
        Some(a) => a,
        None => return None,
    };
    if e0 >= n || s[e0] != '.' {
        return None;
    }
    let e1 = scan_digits(&s, e0 + 1);
    let b = match octet_field(&s, e0 + 1, e1) {
        Some(b) => b,
        None => return None,
    };
    if e1 >= n || s[e1] != '.' {
        return None;
    }
    let e2 = scan_digits(&s, e1 + 1);
    let c = match octet_field(&s, e1 + 1, e2) {
        Some(c) => c,
        None => return None,
    };
    if e2 >= n || s[e2] != '.' {
        return None;
    }
    let e3 = scan_digits(&s, e2 + 1);
    let d = match octet_field(&s, e2 + 1, e3) {
        Some(d) => d,
        None => return None,
    };
    if e3 != n {
        return None;
    }
    proof {
        assert(s@ =~= s@.subrange(0, e0 as int) + seq!['.'] + s@.subrange(e0 + 1, e1 as int)
            + seq!['.'] + s@.subrange(e1 + 1, e2 as int) + seq!['.'] + s@.subrange(
            e2 + 1,
            n as int,
        ));
    }
    Some(Ipv4 { a, b, c, d })
}

/// The IPv4 loopback address `127.0.0.1`.
pub fn localhost_ipv4() -> (r: Ipv4)
    ensures
        r == (Ipv4 { a: 127, b: 0, c: 0, d: 1 }),
{
    Ipv4 { a: 127, b: 0, c: 0, d: 1 }
}

/// The IPv4 unspecified address `0.0.0.0`.
pub fn unspecified_ipv4() -> (r: Ipv4)
    ensures
        r == (Ipv4 { a: 0, b: 0, c: 0, d: 0 }),
{
    Ipv4 { a: 0, b: 0, c: 0, d: 0 }
}

/// The `Ipv6` address `a:b:c:d:e:f:g:h`.
pub fn ipv6(a: u16, b: u16, c: u16, d: u16, e: u16, f: u16, g: u16, h: u16) -> (r: Ipv6)
    ensures
        r == (Ipv6 { a, b, c, d, e, f, g, h }),
{
    Ipv6 { a, b, c, d, e, f, g, h }
}

/// The IPv6 loopback address `::1`.
pub fn localhost_ipv6() -> (r: Ipv6)
    ensures
        r == (Ipv6 { a: 0, b: 0, c: 0, d: 0, e: 0, f: 0, g: 0, h: 1 }),
{
    Ipv6 { a: 0, b: 0, c: 0, d: 0, e: 0, f: 0, g: 0, h: 1 }
}

/// The IPv6 unspecified address `::`.
pub fn unspecified_ipv6() -> (r: Ipv6)
    ensures
        r == (Ipv6 { a: 0, b: 0, c: 0, d: 0, e: 0, f: 0, g: 0, h: 0 }),
{
    Ipv6 { a: 0, b: 0, c: 0, d: 0, e: 0, f: 0, g: 0, h: 0 }
}

impl Ip {
    /// The text of the address: dotted decimal for IPv4, the shortest form
    /// for IPv6.
    pub fn to_string(&self) -> (r: String)
        ensures
            r@ == match *self {
                Ip::V4(a) => dotted_decimal(a.a, a.b, a.c, a.d),
                Ip::V6(a) => ipv6_text(a),
            },
    {
        match self {
            Ip::V4(a) => a.to_string(),
            Ip::V6(a) => a.to_string(),
        }
    }
}

} // verus!
