//! IPv6 addresses in text: eight groups of one to four hexadecimal digits
//! separated by `:`, where one `::` may stand for one or more groups of
//! zeros and the last two groups may be written as an IPv4 address in
//! dotted decimal (`::ffff:192.0.2.1`).
//!
//! An address is written in its shortest form: lowercase digits without
//! leading zeros, its first longest run of two or more zero groups written
//! `::`, and an IPv4-mapped address (`::ffff:a.b.c.d`) with its IPv4 part in
//! dotted decimal.
use vstd::prelude::*;
use crate::text::{decimal, is_digit, lemma_decimal};
use super::ip::{Ipv4, Ipv6, dotted_decimal, is_ipv4_text, ipv4_witness, lemma_dotted_decimal_injective, to_ipv4};
use crate::text::push_char;

verus! {

/// `c` is a hexadecimal digit, in either case.
pub open spec fn is_hex(c: char) -> bool {
    ('0' <= c && c <= '9') || ('a' <= c && c <= 'f') || ('A' <= c && c <= 'F')
}

/// The value of the hexadecimal digit `c`.
pub open spec fn hex_value(c: char) -> int {
    if '0' <= c && c <= '9' {
        c as int - '0' as int
    } else if 'a' <= c && c <= 'f' {
        c as int - 'a' as int + 10
    } else {
        c as int - 'A' as int + 10
    }
}

/// The value of the hexadecimal digits `s`.
pub open spec fn hex_digits_value(s: Seq<char>) -> int
    decreases s.len(),
{
    if s.len() == 0 {
        0
    } else {
        hex_digits_value(s.drop_last()) * 16 + hex_value(s.last())
    }
}

/// `s` is a group: one to four hexadecimal digits.
pub open spec fn is_group(s: Seq<char>) -> bool {
    1 <= s.len() <= 4 && forall|i: int| 0 <= i < s.len() ==> is_hex(#[trigger] s[i])
}

/// The fields of `s` between its `:` characters, in order (one empty field
/// for the empty text).
pub open spec fn fields(s: Seq<char>) -> Seq<Seq<char>>
    decreases s.len(),
{
    if s.len() == 0 {
        seq![Seq::empty()]
    } else {
        let f = fields(s.drop_last());
        if s.last() == ':' {
            f.push(Seq::empty())
        } else {
            f.update(f.len() - 1, f.last().push(s.last()))
        }
    }
}

/// The fields of `s`, none for the empty text.
pub open spec fn parts(s: Seq<char>) -> Seq<Seq<char>> {
    if s.len() == 0 {
        Seq::empty()
    } else {
        fields(s)
    }
}

/// Every field is a group.
pub open spec fn all_groups(fs: Seq<Seq<char>>) -> bool {
    forall|i: int| 0 <= i < fs.len() ==> is_group(#[trigger] fs[i])
}

/// The values of the groups `fs`.
pub open spec fn group_values(fs: Seq<Seq<char>>) -> Seq<u16> {
    fs.map_values(|f: Seq<char>| hex_digits_value(f) as u16)
}

/// The two groups an IPv4 address written in dotted decimal stands for.
pub open spec fn ipv4_groups(s: Seq<char>) -> Seq<u16> {
    let (a, b, c, d) = ipv4_witness(s);
    seq![(a as int * 256 + b as int) as u16, (c as int * 256 + d as int) as u16]
}

/// The groups the fields `fs` stand for: each a group, or all but the last
/// a group and the last an IPv4 address; none otherwise.
pub open spec fn fields_values(fs: Seq<Seq<char>>) -> Option<Seq<u16>> {
    if all_groups(fs) {
        Some(group_values(fs))
    } else if fs.len() > 0 && all_groups(fs.drop_last()) && is_ipv4_text(fs.last()) {
        Some(group_values(fs.drop_last()) + ipv4_groups(fs.last()))
    } else {
        None
    }
}

/// The position of the first `::` in `s` from `i` on, or `-1`.
pub open spec fn double_colon_from(s: Seq<char>, i: int) -> int
    decreases s.len() - i,
{
    if i < 0 || i + 1 >= s.len() {
        -1
    } else if s[i] == ':' && s[i + 1] == ':' {
        i
    } else {
        double_colon_from(s, i + 1)
    }
}

/// The eight groups the IPv6 text `s` stands for, or none if it is not an
/// IPv6 text. Without `::` its fields give the eight groups; with `::`
/// (its first one), the fields before it are groups, those after it give
/// the last groups, and the zeros between are at least one group.
pub open spec fn ipv6_groups(s: Seq<char>) -> Option<Seq<u16>> {
    let p = double_colon_from(s, 0);
    if p < 0 {
        match fields_values(fields(s)) {
            Some(v) => if v.len() == 8 {
                Some(v)
            } else {
                None
            },
            None => None,
        }
    } else {
        let h = parts(s.subrange(0, p));
        let t = parts(s.subrange(p + 2, s.len() as int));
        if !all_groups(h) {
            None
        } else {
            match fields_values(t) {
                Some(v) => if h.len() + v.len() <= 7 {
                    Some(group_values(h) + Seq::new((8 - h.len() - v.len()) as nat, |i: int| 0u16) + v)
                } else {
                    None
                },
                None => None,
            }
        }
    }
}


/// `16` to the power `k`, for `k` up to `4`.
spec fn power16(k: int) -> int {
    if k <= 0 {
        1
    } else if k == 1 {
        16
    } else if k == 2 {
        256
    } else if k == 3 {
        4096
    } else {
        65536
    }
}

/// The value of the hexadecimal digit `c`, if it is one.
fn hex_digit(c: char) -> (r: Option<u32>)
    ensures
        r is Some <==> is_hex(c),
        r matches Some(d) ==> d == hex_value(c) && d < 16,
{
    if '0' <= c && c <= '9' {
        Some((c as u32) - ('0' as u32))
    } else if 'a' <= c && c <= 'f' {
        Some((c as u32) - ('a' as u32) + 10)
    } else if 'A' <= c && c <= 'F' {
        Some((c as u32) - ('A' as u32) + 10)
    } else {
        None
    }
}

/// The value of the group `s`, if it is one.
fn group_value(s: &Vec<char>) -> (r: Option<u16>)
    ensures
        r is Some <==> is_group(s@),
        r matches Some(v) ==> v == hex_digits_value(s@),
{
    if s.len() == 0 || s.len() > 4 {
        return None;
    }
    let mut acc: u32 = 0;
    let mut k: usize = 0;
    while k < s.len()
        invariant
            1 <= s@.len() <= 4,
            k <= s@.len(),
            acc == hex_digits_value(s@.subrange(0, k as int)),
            0 <= acc < power16(k as int),
            forall|i: int| 0 <= i < k ==> is_hex(#[trigger] s@[i]),
        decreases s@.len() - k,
    {
        match hex_digit(s[k]) {
            Some(d) => {
                assert(s@.subrange(0, k + 1).drop_last() =~= s@.subrange(0, k as int));
                acc = acc * 16 + d;
                k = k + 1;
            },
            None => {
                return None;
            },
        }
    }
    assert(s@.subrange(0, k as int) =~= s@);
    Some(acc as u16)
}

/// The text of the characters `c`.
fn string_of(c: &Vec<char>) -> (r: String)
    ensures
        r@ == c@,
{
    let mut r = String::new();
    let mut k: usize = 0;
    while k < c.len()
        invariant
            k <= c@.len(),
            r@ == c@.subrange(0, k as int),
        decreases c@.len() - k,
    {
        push_char(&mut r, c[k]);
        k = k + 1;
        assert(r@ =~= c@.subrange(0, k as int));
    }
    assert(r@ =~= c@);
    r
}

/// The view of a list of fields.
pub open spec fn fields_view(fs: Seq<Vec<char>>) -> Seq<Seq<char>> {
    fs.map_values(|f: Vec<char>| f@)
}

/// The fields of `s[start..end]`.
fn split_fields(s: &Vec<char>, start: usize, end: usize) -> (r: Vec<Vec<char>>)
    requires
        start <= end <= s@.len(),
    ensures
        fields_view(r@) == fields(s@.subrange(start as int, end as int)),
{
    let mut done: Vec<Vec<char>> = Vec::new();
    let mut cur: Vec<char> = Vec::new();
    let mut i: usize = start;
    assert(s@.subrange(start as int, start as int).len() == 0);
    assert(fields_view(done@).push(cur@) =~= fields(s@.subrange(start as int, start as int)));
    while i < end
        invariant
            start <= i <= end <= s@.len(),
            fields_view(done@).push(cur@) == fields(s@.subrange(start as int, i as int)),
        decreases end - i,
    {
        let ghost sub = s@.subrange(start as int, i + 1);
        assert(sub.drop_last() =~= s@.subrange(start as int, i as int));
        assert(sub.last() == s@[i as int]);
        let ghost d0 = fields_view(done@);
        let ghost c0 = cur@;
        if s[i] == ':' {
            let old_cur = cur;
            done.push(old_cur);
            cur = Vec::new();
            assert(fields_view(done@) =~= d0.push(c0));
            assert(fields_view(done@).push(cur@) =~= d0.push(c0).push(Seq::empty()));
        } else {
            cur.push(s[i]);
            assert(fields_view(done@).push(cur@) =~= d0.push(c0).update(d0.len() as int, c0.push(s@[i as int])));
        }
        i = i + 1;
    }
    let ghost d1 = fields_view(done@);
    let last = cur;
    done.push(last);
    assert(fields_view(done@) =~= d1.push(last@));
    done
}

/// The values of the groups `fs` if all of them are groups.
fn groups_of(fs: &Vec<Vec<char>>, n: usize) -> (r: Option<Vec<u16>>)
    requires
        n <= fs@.len(),
    ensures
        r is Some <==> all_groups(fields_view(fs@).subrange(0, n as int)),
        r matches Some(v) ==> v@ == group_values(fields_view(fs@).subrange(0, n as int)),
{
    let ghost all = fields_view(fs@).subrange(0, n as int);
    let mut v: Vec<u16> = Vec::new();
    let mut k: usize = 0;
    while k < n
        invariant
            n <= fs@.len(),
            k <= n,
            all == fields_view(fs@).subrange(0, n as int),
            all_groups(all.subrange(0, k as int)),
            v@ == group_values(all.subrange(0, k as int)),
        decreases n - k,
    {
        match group_value(&fs[k]) {
            Some(g) => {
                assert(all[k as int] == fs@[k as int]@);
                assert(all.subrange(0, k + 1) =~= all.subrange(0, k as int).push(all[k as int]));
                v.push(g);
                assert(v@ =~= group_values(all.subrange(0, k + 1)));
                k = k + 1;
            },
            None => {
                assert(all[k as int] == fs@[k as int]@);
                assert(!is_group(all[k as int]));
                return None;
            },
        }
    }
    assert(all.subrange(0, k as int) =~= all);
    Some(v)
}


/// The groups the fields `fs` stand for (see `fields_values`).
fn values_of_fields(fs: &Vec<Vec<char>>) -> (r: Option<Vec<u16>>)
    ensures
        match r {
            Some(v) => fields_values(fields_view(fs@)) == Some(v@),
            None => fields_values(fields_view(fs@)) is None,
        },
{
    let ghost all = fields_view(fs@);
    assert(all.subrange(0, all.len() as int) =~= all);
    match groups_of(fs, fs.len()) {
        Some(v) => {
            return Some(v);
        },
        None => {},
    }
    if fs.len() == 0 {
        return None;
    }
    let last = fs.len() - 1;
    assert(all.subrange(0, last as int) =~= all.drop_last());
    let head = match groups_of(fs, last) {
        Some(h) => h,
        None => {
            return None;
        },
    };
    let text = string_of(&fs[last]);
    assert(text@ == all.last());
    match to_ipv4(text.as_str()) {
        Some(ip) => {
            proof {
                let w = ipv4_witness(text@);
                let wi = Ipv4 { a: w.0, b: w.1, c: w.2, d: w.3 };
                assert(text@ == dotted_decimal(ip.a, ip.b, ip.c, ip.d));
                assert(is_ipv4_text(text@));
                lemma_dotted_decimal_injective(wi, ip);
            }
            let hi: u16 = (ip.a as u16) * 256 + (ip.b as u16);
            let lo: u16 = (ip.c as u16) * 256 + (ip.d as u16);
            let mut v = head;
            v.push(hi);
            v.push(lo);
            proof {
                assert(ipv4_groups(all.last()) =~= seq![hi, lo]);
                assert(v@ =~= group_values(all.drop_last()) + ipv4_groups(all.last()));
            }
            Some(v)
        },
        None => None,
    }
}

/// The position of the first `::` in `s`, if any.
fn find_double_colon(s: &Vec<char>) -> (r: Option<usize>)
    ensures
        match r {
            Some(p) => double_colon_from(s@, 0) == p && p + 1 < s@.len(),
            None => double_colon_from(s@, 0) < 0,
        },
{
    let mut i: usize = 0;
    while i < s.len() && s.len() - i >= 2
        invariant
            i <= s@.len(),
            double_colon_from(s@, 0) == double_colon_from(s@, i as int),
        decreases s@.len() - i,
    {
        if s[i] == ':' && s[i + 1] == ':' {
            return Some(i);
        }
        i = i + 1;
    }
    None
}

/// `n` groups of zeros.
fn zeros(n: usize) -> (r: Vec<u16>)
    ensures
        r@ == Seq::new(n as nat, |i: int| 0u16),
{
    let mut r: Vec<u16> = Vec::new();
    let mut k: usize = 0;
    while k < n
        invariant
            k <= n,
            r@ == Seq::new(k as nat, |i: int| 0u16),
        decreases n - k,
    {
        r.push(0);
        k = k + 1;
        assert(r@ =~= Seq::new(k as nat, |i: int| 0u16));
    }
    r
}

/// The fields of `s[start..end]`, none where it is empty.
fn split_parts(s: &Vec<char>, start: usize, end: usize) -> (r: Vec<Vec<char>>)
    requires
        start <= end <= s@.len(),
    ensures
        fields_view(r@) == parts(s@.subrange(start as int, end as int)),
{
    if start == end {
        let r: Vec<Vec<char>> = Vec::new();
        assert(fields_view(r@) =~= Seq::<Seq<char>>::empty());
        r
    } else {
        split_fields(s, start, end)
    }
}

/// The eight groups of the IPv6 text `s`, if it is one.
fn groups_of_text(s: &Vec<char>) -> (r: Option<Vec<u16>>)
    ensures
        match r {
            Some(v) => ipv6_groups(s@) == Some(v@),
            None => ipv6_groups(s@) is None,
        },
{
    match find_double_colon(s) {
        None => {
            let fs = split_fields(s, 0, s.len());
            assert(s@.subrange(0, s@.len() as int) =~= s@);
            match values_of_fields(&fs) {
                Some(v) => if v.len() == 8 {
                    Some(v)
                } else {
                    None
                },
                None => None,
            }
        },
        Some(p) => {
            let h = split_parts(s, 0, p);
            let n = s.len();
            let t = split_parts(s, p + 2, n);
            let hl = h.len();
            let head = match groups_of(&h, hl) {
                Some(g) => g,
                None => {
                    assert(fields_view(h@).subrange(0, hl as int) =~= fields_view(h@));
                    return None;
                },
            };
            assert(fields_view(h@).subrange(0, hl as int) =~= fields_view(h@));
            match values_of_fields(&t) {
                Some(tail) => {
                    if hl <= 7 && tail.len() <= 7 - hl {
                        let mut v = head;
                        let mut z = zeros(8 - hl - tail.len());
                        let ghost v0 = v@;
                        let ghost z0 = z@;
                        v.append(&mut z);
                        let mut tl = tail;
                        let ghost t0 = tl@;
                        v.append(&mut tl);
                        assert(v@ =~= v0 + z0 + t0);
                        Some(v)
                    } else {
                        None
                    }
                },
                None => None,
            }
        },
    }
}

/// Parses `text` as an IPv6 address: eight groups of one to four
/// hexadecimal digits (either case) separated by `:`, where one `::` stands
/// for one or more groups of zeros and the last two groups may be written
/// as an IPv4 address in dotted decimal; `None` if `text` is not one.
pub fn to_ipv6(text: &str) -> (r: Option<Ipv6>)
    ensures
        r == ipv6_text_value(text@),
{
    let s = crate::text::chars_of(text);
    match groups_of_text(&s) {
        Some(v) => Some(Ipv6 { a: v[0], b: v[1], c: v[2], d: v[3], e: v[4], f: v[5], g: v[6], h: v[7] }),
        None => None,
    }
}


/// The lowercase hexadecimal digit for `d` (`0 <= d < 16`).
pub open spec fn hex_char(d: int) -> char {
    if d < 10 {
        ('0' as int + d) as char
    } else {
        ('a' as int + d - 10) as char
    }
}

/// Lowercase hexadecimal rendering of `n`, without leading zeros.
pub open spec fn hex_text(n: nat) -> Seq<char>
    decreases n,
{
    if n < 16 {
        seq![hex_char(n as int)]
    } else {
        hex_text(n / 16).push(hex_char((n % 16) as int))
    }
}

/// The groups `v` in hexadecimal, separated by `:`.
pub open spec fn joined_hex(v: Seq<u16>) -> Seq<char>
    decreases v.len(),
{
    if v.len() == 0 {
        Seq::empty()
    } else if v.len() == 1 {
        hex_text(v[0] as nat)
    } else {
        joined_hex(v.drop_last()) + seq![':'] + hex_text(v.last() as nat)
    }
}

/// The number of zero groups of `v` from `i` on, up to the first non-zero
/// one.
pub open spec fn zeros_from(v: Seq<u16>, i: int) -> int
    decreases v.len() - i,
{
    if i < 0 || i >= v.len() || v[i] != 0 {
        0
    } else {
        1 + zeros_from(v, i + 1)
    }
}

/// The first position, from `i` on, where the run of zero groups of `v` is
/// longest.
pub open spec fn longest_zeros_from(v: Seq<u16>, i: int) -> int
    decreases v.len() - i,
{
    if i < 0 || i + 1 >= v.len() {
        i
    } else {
        let b = longest_zeros_from(v, i + 1);
        if zeros_from(v, i) >= zeros_from(v, b) {
            i
        } else {
            b
        }
    }
}

/// The eight groups of an address.
pub open spec fn groups_of_ipv6(ip: Ipv6) -> Seq<u16> {
    seq![ip.a, ip.b, ip.c, ip.d, ip.e, ip.f, ip.g, ip.h]
}

/// The address is IPv4-mapped: `::ffff:a.b.c.d`.
pub open spec fn is_ipv4_mapped(ip: Ipv6) -> bool {
    ip.a == 0 && ip.b == 0 && ip.c == 0 && ip.d == 0 && ip.e == 0 && ip.f == 0xffff
}

/// The shortest text of an address (see the module's documentation).
pub open spec fn ipv6_text(ip: Ipv6) -> Seq<char> {
    let v = groups_of_ipv6(ip);
    if is_ipv4_mapped(ip) {
        seq![':', ':', 'f', 'f', 'f', 'f', ':'] + dotted_decimal(
            (ip.g / 256) as u8,
            (ip.g % 256) as u8,
            (ip.h / 256) as u8,
            (ip.h % 256) as u8,
        )
    } else {
        let b = longest_zeros_from(v, 0);
        let l = zeros_from(v, b);
        if l > 1 {
            joined_hex(v.subrange(0, b)) + seq![':', ':'] + joined_hex(v.subrange(b + l, 8))
        } else {
            joined_hex(v)
        }
    }
}

/// The lowercase hexadecimal digit for `d`.
fn hex_digit_char(d: u16) -> (c: char)
    requires
        d < 16,
    ensures
        c == hex_char(d as int),
{
    if d < 10 {
        ((('0' as u8) + (d as u8)) as char)
    } else {
        ((('a' as u8) + (d as u8) - 10) as char)
    }
}

/// Appends the hexadecimal rendering of `n` to `s`.
fn push_hex(s: &mut String, n: u16)
    ensures
        final(s)@ == old(s)@ + hex_text(n as nat),
    decreases n,
{
    if n < 16 {
        push_char(s, hex_digit_char(n));
        assert(old(s)@.push(hex_char(n as int)) =~= old(s)@ + seq![hex_char(n as int)]);
    } else {
        push_hex(s, n / 16);
        push_char(s, hex_digit_char(n % 16));
        assert(old(s)@ + hex_text(n as nat) =~= old(s)@ + hex_text((n / 16) as nat) + seq![
            hex_char((n % 16) as int),
        ]);
    }
}

/// Appends the groups `v[from..to]` in hexadecimal, separated by `:`.
fn push_joined(s: &mut String, v: &Vec<u16>, from: usize, to: usize)
    requires
        from <= to <= v@.len(),
    ensures
        final(s)@ == old(s)@ + joined_hex(v@.subrange(from as int, to as int)),
{
    let mut k: usize = from;
    assert(v@.subrange(from as int, from as int).len() == 0);
    assert(old(s)@ + joined_hex(v@.subrange(from as int, from as int)) =~= old(s)@);
    while k < to
        invariant
            from <= k <= to <= v@.len(),
            s@ == old(s)@ + joined_hex(v@.subrange(from as int, k as int)),
        decreases to - k,
    {
        let ghost s0 = s@;
        let ghost part = v@.subrange(from as int, k + 1);
        assert(part.drop_last() =~= v@.subrange(from as int, k as int));
        assert(part.last() == v@[k as int]);
        if k > from {
            push_char(s, ':');
        }
        push_hex(s, v[k]);
        proof {
            if k > from {
                assert(s@ =~= old(s)@ + (joined_hex(part.drop_last()) + seq![':'] + hex_text(part.last() as nat)));
            } else {
                assert(part.len() == 1);
                assert(s@ =~= old(s)@ + hex_text(part[0] as nat));
            }
        }
        k = k + 1;
    }
}

/// The number of zero groups of `v` from `i` on.
fn count_zeros(v: &Vec<u16>, i: usize) -> (r: usize)
    requires
        i <= v@.len(),
    ensures
        r == zeros_from(v@, i as int),
        i + r <= v@.len(),
    decreases v@.len() - i,
{
    if i >= v.len() || v[i] != 0 {
        0
    } else {
        1 + count_zeros(v, i + 1)
    }
}

/// The first position where the run of zero groups of `v` is longest.
fn longest_zeros(v: &Vec<u16>) -> (r: usize)
    requires
        v@.len() > 0,
    ensures
        r == longest_zeros_from(v@, 0),
        r < v@.len(),
{
    let n = v.len();
    let mut i: usize = n - 1;
    let mut b: usize = n - 1;
    while i > 0
        invariant
            0 <= i < n,
            n == v@.len(),
            b == longest_zeros_from(v@, i as int),
            i <= b < n,
        decreases i,
    {
        i = i - 1;
        let zi = count_zeros(v, i);
        let zb = count_zeros(v, b);
        if zi >= zb {
            b = i;
        }
    }
    b
}

impl Ipv6 {
    /// The shortest text of the address, such as `2001:db8::1` or
    /// `::ffff:192.0.2.1`.
    pub fn to_string(&self) -> (r: String)
        ensures
            r@ == ipv6_text(*self),
    {
        let mut s = String::new();
        if self.a == 0 && self.b == 0 && self.c == 0 && self.d == 0 && self.e == 0 && self.f == 0xffff {
            push_char(&mut s, ':');
            push_char(&mut s, ':');
            push_char(&mut s, 'f');
            push_char(&mut s, 'f');
            push_char(&mut s, 'f');
            push_char(&mut s, 'f');
            push_char(&mut s, ':');
            let v4 = Ipv4 {
                a: (self.g / 256) as u8,
                b: (self.g % 256) as u8,
                c: (self.h / 256) as u8,
                d: (self.h % 256) as u8,
            };
            let t = v4.to_string();
            s.append(t.as_str());
            return s;
        }
        let v: Vec<u16> = vec![self.a, self.b, self.c, self.d, self.e, self.f, self.g, self.h];
        assert(v@ =~= groups_of_ipv6(*self));
        let b = longest_zeros(&v);
        let l = count_zeros(&v, b);
        if l > 1 {
            push_joined(&mut s, &v, 0, b);
            push_char(&mut s, ':');
            push_char(&mut s, ':');
            push_joined(&mut s, &v, b + l, 8);
        } else {
            push_joined(&mut s, &v, 0, 8);
            assert(v@.subrange(0, 8) =~= v@);
        }
        s
    }
}


proof fn lemma_hex_char(d: int)
    requires
        0 <= d < 16,
    ensures
        is_hex(hex_char(d)),
        hex_value(hex_char(d)) == d,
        hex_char(d) != ':',
        hex_char(d) != '.',
{
}

/// The hexadecimal rendering of a group value is a group that reads back
/// as the value.
proof fn lemma_hex_text(n: nat)
    requires
        n < 65536,
    ensures
        is_group(hex_text(n)),
        hex_digits_value(hex_text(n)) == n,
        hex_text(n).len() <= 1 + (if n < 16 { 0int } else if n < 256 { 1int } else if n < 4096 { 2int } else { 3int }),
    decreases n,
{
    if n < 16 {
        lemma_hex_char(n as int);
        assert(hex_text(n).drop_last() =~= Seq::<char>::empty());
        assert(hex_text(n).last() == hex_char(n as int));
        assert(hex_digits_value(hex_text(n)) == hex_digits_value(hex_text(n).drop_last()) * 16 + hex_value(hex_text(n).last()));
        assert(hex_digits_value(Seq::<char>::empty()) == 0);
    } else {
        lemma_hex_text(n / 16);
        lemma_hex_char((n % 16) as int);
        let t = hex_text(n);
        assert(t.drop_last() =~= hex_text(n / 16));
        assert(t.last() == hex_char((n % 16) as int));
        assert(n == (n / 16) * 16 + n % 16) by (nonlinear_arith);
        assert(hex_digits_value(t) == hex_digits_value(t.drop_last()) * 16 + hex_value(t.last()));
        assert forall|i: int| 0 <= i < t.len() implies is_hex(#[trigger] t[i]) by {
            if i < t.len() - 1 {
                assert(t[i] == hex_text(n / 16)[i]);
            }
        }
    }
}


proof fn lemma_fields_len(s: Seq<char>)
    ensures
        fields(s).len() >= 1,
    decreases s.len(),
{
    if s.len() > 0 {
        lemma_fields_len(s.drop_last());
    }
}

/// Appending characters other than `:` extends the last field.
proof fn lemma_fields_append(x: Seq<char>, t: Seq<char>)
    requires
        forall|i: int| 0 <= i < t.len() ==> t[i] != ':',
    ensures
        fields(x + t) == fields(x).update(fields(x).len() - 1, fields(x).last() + t),
    decreases t.len(),
{
    lemma_fields_len(x);
    if t.len() == 0 {
        assert(x + t =~= x);
        assert(fields(x).last() + t =~= fields(x).last());
        assert(fields(x).update(fields(x).len() - 1, fields(x).last()) =~= fields(x));
    } else {
        let t0 = t.drop_last();
        lemma_fields_append(x, t0);
        assert((x + t).drop_last() =~= x + t0);
        assert((x + t).last() == t.last());
        let f = fields(x + t0);
        assert(f.len() == fields(x).len());
        assert(f.last() == fields(x).last() + t0);
        assert(f.last().push(t.last()) =~= fields(x).last() + t);
        assert(fields(x + t) =~= fields(x).update(fields(x).len() - 1, fields(x).last() + t));
    }
}

/// A `:` followed by characters other than `:` starts a new last field.
proof fn lemma_fields_colon(x: Seq<char>, t: Seq<char>)
    requires
        forall|i: int| 0 <= i < t.len() ==> t[i] != ':',
    ensures
        fields(x + seq![':'] + t) == fields(x).push(t),
{
    let y = x + seq![':'];
    assert(y.drop_last() =~= x);
    assert(fields(y) == fields(x).push(Seq::empty()));
    lemma_fields_append(y, t);
    assert(Seq::<char>::empty() + t =~= t);
    assert(fields(x + seq![':'] + t) =~= fields(x).push(t));
}

/// The hexadecimal renderings of the groups `v`.
pub open spec fn hex_texts(v: Seq<u16>) -> Seq<Seq<char>> {
    v.map_values(|n: u16| hex_text(n as nat))
}

/// The fields of groups written in hexadecimal and separated by `:` are
/// their renderings.
proof fn lemma_fields_joined(v: Seq<u16>)
    requires
        v.len() >= 1,
    ensures
        fields(joined_hex(v)) == hex_texts(v),
    decreases v.len(),
{
    let t = hex_text(v.last() as nat);
    lemma_hex_text(v.last() as nat);
    assert forall|i: int| 0 <= i < t.len() implies t[i] != ':' by {
        assert(is_hex(t[i]));
    }
    if v.len() == 1 {
        lemma_fields_append(Seq::empty(), t);
        assert(Seq::<char>::empty() + t =~= t);
        assert(fields(Seq::<char>::empty()) == seq![Seq::<char>::empty()]);
        assert(v.last() == v[0]);
        assert(fields(joined_hex(v)) =~= hex_texts(v));
    } else {
        lemma_fields_joined(v.drop_last());
        lemma_fields_colon(joined_hex(v.drop_last()), t);
        assert(hex_texts(v) =~= hex_texts(v.drop_last()).push(t));
    }
}

/// The values of the renderings of groups are the groups.
proof fn lemma_group_values_of_texts(v: Seq<u16>)
    ensures
        all_groups(hex_texts(v)),
        group_values(hex_texts(v)) == v,
{
    assert forall|i: int| 0 <= i < v.len() implies is_group(#[trigger] hex_texts(v)[i]) && hex_digits_value(hex_texts(v)[i]) == v[i] by {
        lemma_hex_text(v[i] as nat);
    }
    assert(group_values(hex_texts(v)) =~= v);
}


/// `s` has no two `:` in a row.
pub open spec fn no_double_colon(s: Seq<char>) -> bool {
    forall|i: int| 0 <= i && i + 1 < s.len() ==> !(#[trigger] s[i] == ':' && s[i + 1] == ':')
}

proof fn lemma_no_double_colon_from(s: Seq<char>, j: int)
    requires
        no_double_colon(s),
    ensures
        double_colon_from(s, j) == -1,
    decreases s.len() - j,
{
    if !(j < 0 || j + 1 >= s.len()) {
        assert(!(s[j] == ':' && s[j + 1] == ':'));
        lemma_no_double_colon_from(s, j + 1);
    }
}

/// The first `::` from `j` on is at `p` where none starts between.
proof fn lemma_double_colon_at(s: Seq<char>, j: int, p: int)
    requires
        0 <= j <= p,
        p + 1 < s.len(),
        s[p] == ':' && s[p + 1] == ':',
        forall|i: int| j <= i < p ==> !(#[trigger] s[i] == ':' && s[i + 1] == ':'),
    ensures
        double_colon_from(s, j) == p,
    decreases p - j,
{
    if j < p {
        assert(!(s[j] == ':' && s[j + 1] == ':'));
        lemma_double_colon_at(s, j + 1, p);
    }
}

/// Groups written in hexadecimal and separated by `:` have no `::`, and
/// neither start nor end with `:`.
proof fn lemma_joined_shape(v: Seq<u16>)
    requires
        v.len() >= 1,
    ensures
        joined_hex(v).len() > 0,
        joined_hex(v)[0] != ':',
        joined_hex(v).last() != ':',
        no_double_colon(joined_hex(v)),
    decreases v.len(),
{
    let t = hex_text(v.last() as nat);
    lemma_hex_text(v.last() as nat);
    assert forall|i: int| 0 <= i < t.len() implies t[i] != ':' by {
        assert(is_hex(t[i]));
    }
    if v.len() == 1 {
        assert(v.last() == v[0]);
    } else {
        let a = joined_hex(v.drop_last());
        lemma_joined_shape(v.drop_last());
        let j = joined_hex(v);
        assert(j =~= a + seq![':'] + t);
        assert(j[0] == a[0]);
        assert(j.last() == t.last());
        assert forall|i: int| 0 <= i && i + 1 < j.len() implies !(#[trigger] j[i] == ':' && j[i + 1] == ':') by {
            if i + 1 < a.len() {
                assert(j[i] == a[i] && j[i + 1] == a[i + 1]);
            } else if i + 1 == a.len() {
                assert(j[i] == a.last());
            } else if i == a.len() {
                assert(j[i + 1] == t[0]);
            } else {
                assert(j[i] == t[i - a.len() - 1]);
            }
        }
    }
}

/// The fields of groups written in hexadecimal, none for no groups.
proof fn lemma_parts_joined(v: Seq<u16>)
    ensures
        parts(joined_hex(v)) == hex_texts(v),
        no_double_colon(joined_hex(v)),
        fields_values(hex_texts(v)) == Some(v),
{
    lemma_group_values_of_texts(v);
    if v.len() == 0 {
        assert(hex_texts(v) =~= Seq::<Seq<char>>::empty());
    } else {
        lemma_joined_shape(v);
        lemma_fields_joined(v);
    }
}

/// The zeros counted from `b` are zero groups.
proof fn lemma_zeros_from(v: Seq<u16>, b: int)
    requires
        0 <= b,
    ensures
        b + zeros_from(v, b) <= v.len() || zeros_from(v, b) == 0,
        0 <= zeros_from(v, b),
        forall|k: int| b <= k < b + zeros_from(v, b) ==> v[k] == 0,
    decreases v.len() - b,
{
    if !(b >= v.len() || v[b] != 0) {
        lemma_zeros_from(v, b + 1);
    }
}

proof fn lemma_longest_zeros_range(v: Seq<u16>, i: int)
    requires
        0 <= i < v.len(),
    ensures
        i <= longest_zeros_from(v, i) < v.len(),
    decreases v.len() - i,
{
    if i + 1 < v.len() {
        lemma_longest_zeros_range(v, i + 1);
    }
}


/// Dotted decimal text holds no `:`, and a `.` after the first octet.
proof fn lemma_dotted_chars(a: u8, b: u8, c: u8, d: u8)
    ensures
        forall|i: int| 0 <= i < dotted_decimal(a, b, c, d).len() ==> #[trigger] dotted_decimal(a, b, c, d)[i] != ':',
        decimal(a as nat).len() < dotted_decimal(a, b, c, d).len(),
        dotted_decimal(a, b, c, d)[decimal(a as nat).len() as int] == '.',
{
    lemma_decimal(a as nat);
    lemma_decimal(b as nat);
    lemma_decimal(c as nat);
    lemma_decimal(d as nat);
    let da = decimal(a as nat);
    let db = decimal(b as nat);
    let dc = decimal(c as nat);
    let dd = decimal(d as nat);
    let t = dotted_decimal(a, b, c, d);
    let l0 = da.len() as int;
    let l1 = l0 + 1 + db.len();
    let l2 = l1 + 1 + dc.len();
    assert(t =~= da + seq!['.'] + db + seq!['.'] + dc + seq!['.'] + dd);
    assert forall|i: int| 0 <= i < t.len() implies #[trigger] t[i] != ':' by {
        if i < l0 {
            assert(t[i] == da[i] && is_digit(da[i]));
        } else if i == l0 || i == l1 || i == l2 {
        } else if i < l1 {
            assert(t[i] == db[i - l0 - 1] && is_digit(db[i - l0 - 1]));
        } else if i < l2 {
            assert(t[i] == dc[i - l1 - 1] && is_digit(dc[i - l1 - 1]));
        } else {
            assert(t[i] == dd[i - l2 - 1] && is_digit(dd[i - l2 - 1]));
        }
    }
}

proof fn lemma_mapped_reads_back(ip: Ipv6)
    requires
        is_ipv4_mapped(ip),
    ensures
        ipv6_groups(ipv6_text(ip)) == Some(groups_of_ipv6(ip)),
{
    let v = groups_of_ipv6(ip);
    let s = ipv6_text(ip);
    let a = (ip.g / 256) as u8;
    let b = (ip.g % 256) as u8;
    let c = (ip.h / 256) as u8;
    let d = (ip.h % 256) as u8;
    let dd = dotted_decimal(a, b, c, d);
    let f = seq!['f', 'f', 'f', 'f'];
    lemma_dotted_chars(a, b, c, d);
    assert(s == seq![':', ':', 'f', 'f', 'f', 'f', ':'] + dd);
    assert(double_colon_from(s, 0) == 0);
    assert(s.subrange(0, 0) =~= Seq::<char>::empty());
    let t = s.subrange(2, s.len() as int);
    assert(t =~= f + seq![':'] + dd);
    lemma_fields_append(Seq::empty(), f);
    assert(Seq::<char>::empty() + f =~= f);
    assert(fields(f) =~= seq![f]);
    lemma_fields_colon(f, dd);
    let fs = parts(t);
    assert(fs =~= seq![f, dd]);
    assert(!is_hex(dd[decimal(a as nat).len() as int]));
    assert(!is_group(fs[1]));
    assert(fs.drop_last() =~= seq![f]);
    assert(is_group(f));
    assert(all_groups(fs.drop_last()));
    assert(is_ipv4_text(dd)) by {
        assert(dd == dotted_decimal(a, b, c, d));
    }
    let w = ipv4_witness(dd);
    lemma_dotted_decimal_injective(Ipv4 { a: w.0, b: w.1, c: w.2, d: w.3 }, Ipv4 { a, b, c, d });
    assert(ip.g == (ip.g / 256) * 256 + ip.g % 256) by (nonlinear_arith);
    assert(ip.h == (ip.h / 256) * 256 + ip.h % 256) by (nonlinear_arith);
    assert(ip.g / 256 < 256) by (nonlinear_arith)
        requires ip.g < 65536;
    assert(ip.h / 256 < 256) by (nonlinear_arith)
        requires ip.h < 65536;
    assert(ipv4_groups(dd) =~= seq![ip.g, ip.h]);
    reveal_with_fuel(hex_digits_value, 5);
    assert(f.drop_last() =~= seq!['f', 'f', 'f']);
    assert(f.drop_last().drop_last() =~= seq!['f', 'f']);
    assert(f.drop_last().drop_last().drop_last() =~= seq!['f']);
    assert(f.drop_last().drop_last().drop_last().drop_last() =~= Seq::<char>::empty());
    assert(hex_digits_value(f) == 65535);
    assert(group_values(fs.drop_last()) =~= seq![0xffffu16]);
    let vals = group_values(fs.drop_last()) + ipv4_groups(fs.last());
    assert(fields_values(fs) == Some(vals));
    assert(parts(s.subrange(0, 0)) =~= Seq::<Seq<char>>::empty());
    assert(group_values(Seq::<Seq<char>>::empty()) + Seq::new(5, |i: int| 0u16) + vals =~= v);
}

proof fn lemma_compressed_reads_back(ip: Ipv6, b: int, l: int)
    requires
        !is_ipv4_mapped(ip),
        b == longest_zeros_from(groups_of_ipv6(ip), 0),
        l == zeros_from(groups_of_ipv6(ip), b),
        0 <= b < 8,
        l > 1,
        b + l <= 8,
        forall|k: int| b <= k < b + l ==> groups_of_ipv6(ip)[k] == 0,
    ensures
        ipv6_groups(ipv6_text(ip)) == Some(groups_of_ipv6(ip)),
{
    let v = groups_of_ipv6(ip);
    let s = ipv6_text(ip);
    let w1 = v.subrange(0, b);
    let w2 = v.subrange(b + l, 8);
    lemma_parts_joined(w1);
    lemma_parts_joined(w2);
    lemma_group_values_of_texts(w1);
    let j1 = joined_hex(w1);
    let j2 = joined_hex(w2);
    assert(s == j1 + seq![':', ':'] + j2);
    let p = j1.len() as int;
    if w1.len() > 0 {
        lemma_joined_shape(w1);
    }
    assert forall|i: int| 0 <= i < p implies !(#[trigger] s[i] == ':' && s[i + 1] == ':') by {
        if i + 1 < p {
            assert(s[i] == j1[i] && s[i + 1] == j1[i + 1]);
        } else {
            assert(s[i] == j1.last());
        }
    }
    lemma_double_colon_at(s, 0, p);
    assert(s.subrange(0, p) =~= j1);
    assert(s.subrange(p + 2, s.len() as int) =~= j2);
    assert(group_values(hex_texts(w1)) + Seq::new((8 - b - w2.len()) as nat, |i: int| 0u16) + w2 =~= v);
}

/// Reading back the text of an address gives the address.
pub proof fn lemma_ipv6_text_reads_back(ip: Ipv6)
    ensures
        ipv6_text_value(ipv6_text(ip)) == Some(ip),
{
    let v = groups_of_ipv6(ip);
    let s = ipv6_text(ip);
    if is_ipv4_mapped(ip) {
        lemma_mapped_reads_back(ip);
    } else {
        lemma_longest_zeros_range(v, 0);
        let b = longest_zeros_from(v, 0);
        lemma_zeros_from(v, b);
        let l = zeros_from(v, b);
        if l > 1 {
            lemma_compressed_reads_back(ip, b, l);
        } else {
            lemma_parts_joined(v);
            lemma_no_double_colon_from(s, 0);
        }
    }
    assert(ipv6_of_groups(v) == ip);
}

/// The address of eight groups.
pub open spec fn ipv6_of_groups(v: Seq<u16>) -> Ipv6 {
    Ipv6 { a: v[0], b: v[1], c: v[2], d: v[3], e: v[4], f: v[5], g: v[6], h: v[7] }
}

/// The address the IPv6 text `s` stands for, if it is one.
pub open spec fn ipv6_text_value(s: Seq<char>) -> Option<Ipv6> {
    match ipv6_groups(s) {
        Some(v) => Some(ipv6_of_groups(v)),
        None => None,
    }
}

} // verus!
