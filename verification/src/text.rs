//! Text building blocks: decimal renderings of numbers and character
//! pushes.
use vstd::prelude::*;

verus! {

/// The decimal digit for `d` (`0 <= d < 10`).
pub open spec fn digit_char(d: int) -> char {
    if d == 0 {
        '0'
    } else if d == 1 {
        '1'
    } else if d == 2 {
        '2'
    } else if d == 3 {
        '3'
    } else if d == 4 {
        '4'
    } else if d == 5 {
        '5'
    } else if d == 6 {
        '6'
    } else if d == 7 {
        '7'
    } else if d == 8 {
        '8'
    } else {
        '9'
    }
}

/// Decimal rendering of `n`, without leading zeros.
pub open spec fn decimal(n: nat) -> Seq<char>
    decreases n,
{
    if n < 10 {
        seq![digit_char(n as int)]
    } else {
        decimal(n / 10).push(digit_char((n % 10) as int))
    }
}

/// `c` is a decimal digit.
pub open spec fn is_digit(c: char) -> bool {
    '0' <= c <= '9'
}

/// Value of the decimal digit `c`.
pub open spec fn digit_value(c: char) -> int {
    c as int - '0' as int
}

/// Value of the decimal digits `s`.
pub open spec fn digits_value(s: Seq<char>) -> int
    decreases s.len(),
{
    if s.len() == 0 {
        0
    } else {
        10 * digits_value(s.drop_last()) + digit_value(s.last())
    }
}

/// `s` is a non-empty run of decimal digits without a leading zero (but
/// `0` itself).
pub open spec fn canonical_digits(s: Seq<char>) -> bool {
    &&& s.len() >= 1
    &&& forall|i: int| 0 <= i < s.len() ==> is_digit(#[trigger] s[i])
    &&& s.len() > 1 ==> s[0] != '0'
}

proof fn lemma_digit_char(d: int)
    requires
        0 <= d < 10,
    ensures
        is_digit(digit_char(d)),
        digit_value(digit_char(d)) == d,
{
}

proof fn lemma_digit_char_of(c: char)
    requires
        is_digit(c),
    ensures
        digit_char(digit_value(c)) == c,
{
}

/// The decimal rendering of `n` is a canonical run of digits whose value is
/// `n`, of length at most 3 below 1000.
pub proof fn lemma_decimal(n: nat)
    ensures
        canonical_digits(decimal(n)),
        digits_value(decimal(n)) == n,
        n < 1000 ==> decimal(n).len() <= 3,
        n < 100 ==> decimal(n).len() <= 2,
        n < 10 ==> decimal(n).len() == 1,
        n >= 10 ==> decimal(n).len() >= 2,
    decreases n,
{
    if n < 10 {
        lemma_digit_char(n as int);
        let s = decimal(n);
        assert(s.drop_last() =~= Seq::<char>::empty());
        assert(digits_value(s.drop_last()) == 0);
        assert(s.last() == digit_char(n as int));
    } else {
        lemma_decimal(n / 10);
        lemma_digit_char((n % 10) as int);
        let t = decimal(n / 10);
        let s = decimal(n);
        assert(s.drop_last() =~= t);
        assert(s.last() == digit_char((n % 10) as int));
        vstd::arithmetic::div_mod::lemma_fundamental_div_mod(n as int, 10);
        assert(digits_value(s) == 10 * digits_value(t) + digit_value(s.last()));
        assert(forall|i: int| 0 <= i < s.len() ==> is_digit(#[trigger] s[i])) by {
            assert forall|i: int| 0 <= i < s.len() implies is_digit(#[trigger] s[i]) by {
                if i < t.len() {
                    assert(s[i] == t[i]);
                }
            }
        }
        if n / 10 >= 10 {
            assert(s[0] == t[0]);
        } else {
            assert(t.len() == 1);
            assert(s[0] == t[0]);
            assert(t[0] == digit_char((n / 10) as int));
            assert(n / 10 >= 1);
        }
    }
}

/// A value of at least one has a non-zero digit run.
proof fn lemma_digits_value_positive(s: Seq<char>)
    requires
        canonical_digits(s),
        s[0] != '0',
    ensures
        digits_value(s) >= 1,
    decreases s.len(),
{
    if s.len() > 1 {
        let t = s.drop_last();
        assert(t[0] == s[0]);
        assert(forall|i: int| 0 <= i < t.len() ==> is_digit(#[trigger] t[i])) by {
            assert forall|i: int| 0 <= i < t.len() implies is_digit(#[trigger] t[i]) by {
                assert(t[i] == s[i]);
            }
        }
        lemma_digits_value_positive(t);
        assert(is_digit(s[s.len() - 1]));
        assert(digits_value(s) == 10 * digits_value(t) + digit_value(s.last()));
    } else {
        assert(s.drop_last() =~= Seq::<char>::empty());
        assert(digits_value(s.drop_last()) == 0);
        assert(s.last() == s[0]);
        assert(is_digit(s[0]));
    }
}

/// Digits are non-negative in value.
proof fn lemma_digits_value_nonneg(s: Seq<char>)
    requires
        forall|i: int| 0 <= i < s.len() ==> is_digit(#[trigger] s[i]),
    ensures
        digits_value(s) >= 0,
    decreases s.len(),
{
    if s.len() > 0 {
        let t = s.drop_last();
        assert forall|i: int| 0 <= i < t.len() implies is_digit(#[trigger] t[i]) by {
            assert(t[i] == s[i]);
        }
        lemma_digits_value_nonneg(t);
        assert(is_digit(s[s.len() - 1]));
    }
}

/// A canonical run of digits is the decimal rendering of its value.
pub proof fn lemma_canonical_is_decimal(s: Seq<char>)
    requires
        canonical_digits(s),
    ensures
        digits_value(s) >= 0,
        s == decimal(digits_value(s) as nat),
    decreases s.len(),
{
    lemma_digits_value_nonneg(s);
    if s.len() == 1 {
        assert(s.drop_last() =~= Seq::<char>::empty());
        lemma_digit_char_of(s[0]);
        assert(digits_value(s.drop_last()) == 0);
        assert(s.last() == s[0]);
        assert(is_digit(s[0]));
        assert(digits_value(s) == digit_value(s[0]));
        assert(decimal(digit_value(s[0]) as nat) == seq![digit_char(digit_value(s[0]))]);
        assert(s =~= seq![digit_char(digit_value(s[0]))]);
    } else {
        let t = s.drop_last();
        assert(t[0] == s[0]);
        assert forall|i: int| 0 <= i < t.len() implies is_digit(#[trigger] t[i]) by {
            assert(t[i] == s[i]);
        }
        lemma_canonical_is_decimal(t);
        lemma_digits_value_positive(t);
        let c = s.last();
        assert(is_digit(s[s.len() - 1]));
        lemma_digit_char_of(c);
        let v = digits_value(s);
        let vt = digits_value(t);
        assert(v == 10 * vt + digit_value(c));
        assert(v / 10 == vt && v % 10 == digit_value(c)) by {
            vstd::arithmetic::div_mod::lemma_fundamental_div_mod_converse(v, 10, vt, digit_value(c));
        }
        assert(v >= 10);
        assert(decimal(v as nat) == decimal((v as nat) / 10).push(digit_char(((v as nat) % 10) as int)));
        assert(s =~= t.push(c));
    }
}

/// The digits of `s` from `p` run up to `q`, where a non-digit or the end
/// of `s` stops them.
pub open spec fn run_ends(s: Seq<char>, p: int, q: int) -> bool {
    &&& 0 <= p <= q <= s.len()
    &&& forall|i: int| p <= i < q ==> is_digit(#[trigger] s[i])
    &&& (q == s.len() || !is_digit(s[q]))
}

/// The characters of `text`.
pub fn chars_of(text: &str) -> (r: Vec<char>)
    ensures
        r@ == text@,
{
    let n = text.unicode_len();
    let mut r: Vec<char> = Vec::new();
    let mut i: usize = 0;
    while i < n
        invariant
            i <= n,
            n == text@.len(),
            r@ == text@.subrange(0, i as int),
        decreases n - i,
    {
        r.push(text.get_char(i));
        i = i + 1;
        assert(r@ =~= text@.subrange(0, i as int));
    }
    assert(r@ =~= text@);
    r
}

/// Whether `a` and `b` hold the same characters.
pub fn same_text(a: &str, b: &str) -> (r: bool)
    ensures
        r == (a@ == b@),
{
    let n = a.unicode_len();
    if n != b.unicode_len() {
        return false;
    }
    let mut i: usize = 0;
    while i < n
        invariant
            i <= n,
            n == a@.len(),
            n == b@.len(),
            a@.subrange(0, i as int) == b@.subrange(0, i as int),
        decreases n - i,
    {
        if a.get_char(i) != b.get_char(i) {
            assert(a@[i as int] != b@[i as int]);
            return false;
        }
        assert(a@.subrange(0, i + 1) =~= a@.subrange(0, i as int).push(a@[i as int]));
        assert(b@.subrange(0, i + 1) =~= b@.subrange(0, i as int).push(b@[i as int]));
        i = i + 1;
    }
    assert(a@ =~= a@.subrange(0, n as int));
    assert(b@ =~= b@.subrange(0, n as int));
    true
}

/// End of the run of digits of `s` that starts at `start`.
pub fn scan_digits(s: &Vec<char>, start: usize) -> (end: usize)
    requires
        start <= s.len(),
    ensures
        run_ends(s@, start as int, end as int),
        forall|q: int| run_ends(s@, start as int, q) ==> q == end,
{
    let mut end = start;
    while end < s.len() && '0' <= s[end] && s[end] <= '9'
        invariant
            start <= end <= s.len(),
            forall|i: int| start <= i < end ==> is_digit(#[trigger] s@[i]),
        decreases s.len() - end,
    {
        end = end + 1;
    }
    proof {
        assert forall|q: int| run_ends(s@, start as int, q) implies q == end by {
            if q < end {
                assert(is_digit(s@[q]));
            } else if q > end {
                assert(is_digit(s@[end as int]));
            }
        }
    }
    end
}

/// Value of the canonical run of at most three digits `s[start..end]`, or
/// `None` if that run is empty, longer than three digits, has a leading zero
/// or exceeds `limit`.
pub fn small_decimal_value(s: &Vec<char>, start: usize, end: usize, limit: u16) -> (r: Option<u16>)
    requires
        start <= end <= s.len(),
        forall|i: int| start <= i < end ==> is_digit(#[trigger] s@[i]),
    ensures
        match r {
            Some(v) => {
                &&& end - start <= 3
                &&& canonical_digits(s@.subrange(start as int, end as int))
                &&& v == digits_value(s@.subrange(start as int, end as int))
                &&& v <= limit
            },
            None => !(end - start <= 3 && canonical_digits(s@.subrange(start as int, end as int))
                && digits_value(s@.subrange(start as int, end as int)) <= limit),
        },
{
    let len = end - start;
    if len == 0 || len > 3 {
        return None;
    }
    if len > 1 && s[start] == '0' {
        assert(s@.subrange(start as int, end as int)[0] == s@[start as int]);
        return None;
    }
    let mut value: u16 = 0;
    let mut k = start;
    while k < end
        invariant
            start <= k <= end,
            end - start <= 3,
            end <= s.len(),
            forall|i: int| start <= i < end ==> is_digit(#[trigger] s@[i]),
            value == digits_value(s@.subrange(start as int, k as int)),
            value < 1000,
            k - start <= 2 ==> value < 100,
            k - start <= 1 ==> value < 10,
            k == start ==> value == 0,
        decreases end - k,
    {
        let c = s[k];
        assert(is_digit(s@[k as int]));
        let d = (c as u32 - '0' as u32) as u16;
        assert(s@.subrange(start as int, k + 1).drop_last() =~= s@.subrange(start as int, k as int));
        value = value * 10 + d;
        k = k + 1;
    }
    let ghost sub = s@.subrange(start as int, end as int);
    assert(canonical_digits(sub)) by {
        assert forall|i: int| 0 <= i < sub.len() implies is_digit(#[trigger] sub[i]) by {
            assert(sub[i] == s@[start + i]);
        }
        if sub.len() > 1 {
            assert(sub[0] == s@[start as int]);
        }
    }
    if value > limit {
        None
    } else {
        Some(value)
    }
}

/// Appends `c` to `s` (`String::push`).
#[verifier::external_body]
pub fn push_char(s: &mut String, c: char)
    ensures
        final(s)@ == old(s)@.push(c),
{
    s.push(c);
}

/// The decimal digit for `d`.
fn digit(d: u64) -> (c: char)
    requires
        d < 10,
    ensures
        c == digit_char(d as int),
{
    if d == 0 {
        '0'
    } else if d == 1 {
        '1'
    } else if d == 2 {
        '2'
    } else if d == 3 {
        '3'
    } else if d == 4 {
        '4'
    } else if d == 5 {
        '5'
    } else if d == 6 {
        '6'
    } else if d == 7 {
        '7'
    } else if d == 8 {
        '8'
    } else {
        '9'
    }
}

/// Appends the decimal rendering of `n` to `s`.
pub fn push_decimal(s: &mut String, n: u64)
    ensures
        final(s)@ == old(s)@ + decimal(n as nat),
    decreases n,
{
    if n < 10 {
        push_char(s, digit(n));
        assert(decimal(n as nat) == seq![digit_char(n as int)]);
        assert(old(s)@.push(digit_char(n as int)) =~= old(s)@ + seq![digit_char(n as int)]);
    } else {
        push_decimal(s, n / 10);
        push_char(s, digit(n % 10));
        assert(old(s)@ + decimal(n as nat) =~= old(s)@ + decimal((n / 10) as nat) + seq![
            digit_char((n % 10) as int),
        ]);
    }
}

} // verus!
