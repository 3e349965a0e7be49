//! SQL statements: numbering the bind placeholders for PostgreSQL, and
//! building the statements of a batch.
use vstd::prelude::*;
use vstd::string::StringExecFns;
use crate::text::{canonical_digits, chars_of, decimal, digits_value, lemma_decimal, push_char, push_decimal, same_text};

verus! {

/// Whether `pat` occurs in `s` at `i`.
pub open spec fn matches_at(s: Seq<char>, pat: Seq<char>, i: int) -> bool {
    0 <= i && i + pat.len() <= s.len() && s.subrange(i, i + pat.len()) == pat
}

/// The first position from `i` on where `pat` occurs in `s`, or `-1`.
pub open spec fn first_match_from(s: Seq<char>, pat: Seq<char>, i: int) -> int
    decreases s.len() + 1 - i,
{
    if i < 0 || i + pat.len() > s.len() {
        -1
    } else if matches_at(s, pat, i) {
        i
    } else {
        first_match_from(s, pat, i + 1)
    }
}

/// The number of occurrences of a non-empty `pat` in `s` from `i` on, taken
/// from the left without overlapping.
pub open spec fn count_from(s: Seq<char>, pat: Seq<char>, i: int) -> nat
    decreases s.len() + 1 - i,
{
    if pat.len() == 0 || i < 0 || i + pat.len() > s.len() {
        0
    } else if matches_at(s, pat, i) {
        1 + count_from(s, pat, i + pat.len())
    } else {
        count_from(s, pat, i + 1)
    }
}

/// The number of matches of `pat` in `s` as `str::matches` gives them: the
/// non-overlapping occurrences from the left; for an empty `pat`, one at
/// each character boundary.
pub open spec fn match_count(s: Seq<char>, pat: Seq<char>) -> nat {
    if pat.len() == 0 {
        s.len() + 1
    } else {
        count_from(s, pat, 0)
    }
}

/// `s` with its first occurrence of `pat` replaced by `rep`.
pub open spec fn replace_first(s: Seq<char>, pat: Seq<char>, rep: Seq<char>) -> Seq<char> {
    let j = first_match_from(s, pat, 0);
    if j < 0 {
        s
    } else {
        s.subrange(0, j) + rep + s.subrange(j + pat.len(), s.len() as int)
    }
}

/// The PostgreSQL placeholder number `k`: `$k`.
pub open spec fn dollar(k: nat) -> Seq<char> {
    seq!['$'] + decimal(k)
}

/// The placeholder numbered `k` is `$` followed by the decimal digits of `k`
/// itself, without a leading zero: the digits read back as `k`.
pub proof fn lemma_dollar_reads_back(k: nat)
    ensures
        dollar(k).len() >= 2,
        dollar(k)[0] == '$',
        canonical_digits(dollar(k).drop_first()),
        digits_value(dollar(k).drop_first()) == k,
{
    lemma_decimal(k);
    assert(dollar(k).drop_first() =~= decimal(k));
}

/// `s` after replacing, for each `k` from `from` to `to`, the first
/// occurrence of `pat` by `$k`.
pub open spec fn numbered_from(s: Seq<char>, pat: Seq<char>, from: int, to: int) -> Seq<char>
    decreases to + 1 - from,
{
    if from > to || from < 0 {
        s
    } else {
        numbered_from(replace_first(s, pat, dollar(from as nat)), pat, from + 1, to)
    }
}

/// `sql` with its placeholders numbered for PostgreSQL: as many times as
/// `bind_symbol` occurs in `sql`, its first occurrence is replaced by `$1`,
/// then by `$2`, and so on.
pub open spec fn numbered(sql: Seq<char>, bind_symbol: Seq<char>) -> Seq<char> {
    numbered_from(sql, bind_symbol, 1, match_count(sql, bind_symbol) as int)
}

/// The texts `parts` joined by the character `c`.
pub open spec fn joined_by(parts: Seq<Seq<char>>, c: char) -> Seq<char>
    decreases parts.len(),
{
    if parts.len() == 0 {
        Seq::empty()
    } else if parts.len() == 1 {
        parts[0]
    } else {
        parts[0] + seq![c] + joined_by(parts.drop_first(), c)
    }
}

/// The texts `parts` joined by `$k`, `$(k+1)`, ... in turn, each number in
/// decimal.
pub open spec fn joined_numbered(parts: Seq<Seq<char>>, k: nat) -> Seq<char>
    decreases parts.len(),
{
    if parts.len() == 0 {
        Seq::empty()
    } else if parts.len() == 1 {
        parts[0]
    } else {
        parts[0] + (seq!['$'] + decimal(k)) + joined_numbered(parts.drop_first(), k + 1)
    }
}

/// `s` does not hold the character `c`.
pub open spec fn free_of(s: Seq<char>, c: char) -> bool {
    forall|k: int| 0 <= k < s.len() ==> s[k] != c
}

proof fn lemma_single_match(s: Seq<char>, c: char, i: int)
    ensures
        matches_at(s, seq![c], i) <==> (0 <= i < s.len() && s[i] == c),
{
    if 0 <= i < s.len() {
        assert(s.subrange(i, i + 1) =~= seq![s[i]]);
        if s.subrange(i, i + 1) == seq![c] {
            assert(s.subrange(i, i + 1)[0] == c);
        }
    }
}

/// Past a prefix without `c`, the first `c` is where it is in what follows.
proof fn lemma_first_match_shift(q: Seq<char>, x: Seq<char>, c: char, i: int)
    requires
        free_of(q, c),
        0 <= i <= q.len() + x.len(),
    ensures
        first_match_from(q + x, seq![c], i) == if i <= q.len() {
            if first_match_from(x, seq![c], 0) < 0 {
                -1
            } else {
                q.len() + first_match_from(x, seq![c], 0)
            }
        } else if first_match_from(x, seq![c], i - q.len()) < 0 {
            -1
        } else {
            q.len() + first_match_from(x, seq![c], i - q.len())
        },
    decreases q.len() + x.len() - i,
{
    let s = q + x;
    let j = if i <= q.len() { 0 } else { i - q.len() };
    lemma_single_match(s, c, i);
    if i < q.len() {
        assert(s[i] == q[i]);
        lemma_first_match_shift(q, x, c, i + 1);
    } else {
        lemma_single_match(x, c, i - q.len());
        if i < s.len() {
            assert(s[i] == x[i - q.len()]);
            if !matches_at(s, seq![c], i) {
                lemma_first_match_shift(q, x, c, i + 1);
            }
        }
    }
}

/// Past a prefix without `c`, the occurrences counted are those of what
/// follows.
proof fn lemma_count_shift(q: Seq<char>, x: Seq<char>, c: char, i: int)
    requires
        forall|k: int| i <= k < q.len() ==> q[k] != c,
        0 <= i <= q.len() + x.len(),
    ensures
        count_from(q + x, seq![c], i) == count_from(x, seq![c], if i <= q.len() { 0 } else { i - q.len() }),
    decreases q.len() + x.len() - i,
{
    let s = q + x;
    lemma_single_match(s, c, i);
    if i < q.len() {
        assert(s[i] == q[i]);
        lemma_count_shift(q, x, c, i + 1);
    } else {
        lemma_single_match(x, c, i - q.len());
        if i < s.len() {
            assert(s[i] == x[i - q.len()]);
            lemma_count_shift(q, x, c, i + 1);
        }
    }
}

proof fn lemma_dollar_free(k: nat, c: char)
    requires
        c != '$',
        !('0' <= c && c <= '9'),
    ensures
        free_of(dollar(k), c),
{
    lemma_decimal(k);
    assert forall|i: int| 0 <= i < dollar(k).len() implies dollar(k)[i] != c by {
        if i > 0 {
            assert(dollar(k)[i] == decimal(k)[i - 1]);
        }
    }
}

/// Numbering after a prefix without `c` leaves the prefix as it is.
proof fn lemma_numbered_prefix(q: Seq<char>, x: Seq<char>, c: char, j: int, to: int)
    requires
        free_of(q, c),
        c != '$',
        !('0' <= c && c <= '9'),
    ensures
        numbered_from(q + x, seq![c], j, to) == q + numbered_from(x, seq![c], j, to),
    decreases to + 1 - j,
{
    if !(j > to || j < 0) {
        let d = dollar(j as nat);
        lemma_first_match_shift(q, x, c, 0);
        let r = first_match_from(x, seq![c], 0);
        lemma_first_match_bounds(x, seq![c], 0);
        if r >= 0 {
            assert((q + x).subrange(0, q.len() + r) =~= q + x.subrange(0, r));
            assert((q + x).subrange(q.len() + r + 1, (q + x).len() as int) =~= x.subrange(r + 1, x.len() as int));
        }
        assert(replace_first(q + x, seq![c], d) =~= q + replace_first(x, seq![c], d));
        lemma_numbered_prefix(q, replace_first(x, seq![c], d), c, j + 1, to);
    }
}

proof fn lemma_numbered_parts(parts: Seq<Seq<char>>, c: char, k: nat)
    requires
        parts.len() >= 1,
        c != '$',
        !('0' <= c && c <= '9'),
        k >= 1,
        forall|i: int| 0 <= i < parts.len() ==> free_of(#[trigger] parts[i], c),
    ensures
        count_from(joined_by(parts, c), seq![c], 0) == parts.len() - 1,
        numbered_from(joined_by(parts, c), seq![c], k as int, k + parts.len() - 2) == joined_numbered(parts, k),
    decreases parts.len(),
{
    let s = joined_by(parts, c);
    if parts.len() == 1 {
        lemma_count_shift(parts[0], Seq::empty(), c, 0);
        assert(parts[0] + Seq::<char>::empty() =~= parts[0]);
    } else {
        let p0 = parts[0];
        let rest = parts.drop_first();
        assert forall|i: int| 0 <= i < rest.len() implies free_of(#[trigger] rest[i], c) by {
            assert(rest[i] == parts[i + 1]);
        }
        lemma_numbered_parts(rest, c, k + 1);
        let r = joined_by(rest, c);
        assert(s == p0 + (seq![c] + r));
        assert(p0 + seq![c] + r =~= p0 + (seq![c] + r));
        // counting
        lemma_count_shift(p0, seq![c] + r, c, 0);
        lemma_single_match(seq![c] + r, c, 0);
        lemma_count_shift(seq![c], r, c, 1);
        assert(count_from(seq![c] + r, seq![c], 0) == 1 + count_from(seq![c] + r, seq![c], 1));
        // numbering: the first `c` is right after `p0`
        lemma_first_match_shift(p0, seq![c] + r, c, 0);
        lemma_first_match_shift(Seq::<char>::empty(), seq![c] + r, c, 0);
        assert(Seq::<char>::empty() + (seq![c] + r) =~= seq![c] + r);
        assert(first_match_from(seq![c] + r, seq![c], 0) == 0);
        let d = dollar(k);
        assert((p0 + (seq![c] + r)).subrange(0, p0.len() as int) =~= p0);
        assert((p0 + (seq![c] + r)).subrange(p0.len() as int + 1, (p0 + (seq![c] + r)).len() as int) =~= r);
        assert(replace_first(s, seq![c], d) =~= (p0 + d) + r);
        lemma_dollar_free(k, c);
        assert(free_of(p0 + d, c));
        lemma_numbered_prefix(p0 + d, r, c, (k + 1) as int, k + parts.len() - 2);
        assert(rest.len() == parts.len() - 1);
        assert((p0 + d) + joined_numbered(rest, k + 1) =~= p0 + (seq!['$'] + decimal(k)) + joined_numbered(rest, k + 1));
    }
}

/// Numbering for PostgreSQL a statement whose placeholder is one character
/// (neither `$` nor a digit, such as `?`), written between texts that do
/// not hold it: there are as many placeholders as gaps between the texts,
/// and the first becomes `$1`, the second `$2`, and so on, the texts kept
/// as they are.
pub proof fn lemma_numbered_placeholders(parts: Seq<Seq<char>>, c: char)
    requires
        parts.len() >= 1,
        c != '$',
        !('0' <= c && c <= '9'),
        forall|i: int| 0 <= i < parts.len() ==> free_of(#[trigger] parts[i], c),
    ensures
        match_count(joined_by(parts, c), seq![c]) == parts.len() - 1,
        numbered(joined_by(parts, c), seq![c]) == joined_numbered(parts, 1),
{
    lemma_numbered_parts(parts, c, 1);
}

/// Whether `pat` occurs in `s` at `i`.
fn match_here(s: &Vec<char>, pat: &Vec<char>, i: usize) -> (r: bool)
    requires
        i + pat@.len() <= s@.len(),
    ensures
        r == matches_at(s@, pat@, i as int),
{
    let mut k: usize = 0;
    while k < pat.len()
        invariant
            k <= pat@.len(),
            i + pat@.len() <= s@.len(),
            s@.len() == s.len(),
            s@.subrange(i as int, i + k) == pat@.subrange(0, k as int),
        decreases pat@.len() - k,
    {
        if s[i + k] != pat[k] {
            assert(s@.subrange(i as int, i + pat@.len())[k as int] != pat@[k as int]);
            return false;
        }
        assert(s@.subrange(i as int, i + k + 1) =~= s@.subrange(i as int, i + k).push(s@[i + k]));
        assert(pat@.subrange(0, k + 1) =~= pat@.subrange(0, k as int).push(pat@[k as int]));
        k = k + 1;
    }
    assert(pat@.subrange(0, pat@.len() as int) =~= pat@);
    true
}

/// The first position of `pat` in `s`, if any.
fn find_first(s: &Vec<char>, pat: &Vec<char>) -> (r: Option<usize>)
    ensures
        match r {
            Some(j) => first_match_from(s@, pat@, 0) == j,
            None => first_match_from(s@, pat@, 0) < 0,
        },
{
    if pat.len() > s.len() {
        return None;
    }
    let last = s.len() - pat.len();
    let mut i: usize = 0;
    while i <= last
        invariant
            pat@.len() <= s@.len(),
            last == s@.len() - pat@.len(),
            i <= last + 1,
            first_match_from(s@, pat@, 0) == first_match_from(s@, pat@, i as int),
        decreases last + 1 - i,
    {
        if match_here(s, pat, i) {
            return Some(i);
        }
        if i == last {
            assert(first_match_from(s@, pat@, i + 1) == -1);
            return None;
        }
        i = i + 1;
    }
    None
}

/// The number of matches of `pat` in `s`.
fn count_matches(s: &Vec<char>, pat: &Vec<char>) -> (r: usize)
    requires
        s@.len() < usize::MAX,
    ensures
        r == match_count(s@, pat@),
{
    if pat.len() == 0 {
        return s.len() + 1;
    }
    let mut total: usize = 0;
    let mut i: usize = 0;
    while i <= s.len() && pat.len() <= s.len() - i
        invariant
            pat@.len() > 0,
            i <= s@.len() + 1,
            total <= i,
            total + count_from(s@, pat@, i as int) == count_from(s@, pat@, 0),
        decreases s@.len() + 1 - i,
    {
        if match_here(s, pat, i) {
            total = total + 1;
            i = i + pat.len();
        } else {
            i = i + 1;
        }
    }
    total
}

/// `s` with its first occurrence of `pat` replaced by `rep`.
fn replace_first_exec(s: &Vec<char>, pat: &Vec<char>, rep: &Vec<char>) -> (r: Vec<char>)
    ensures
        r@ == replace_first(s@, pat@, rep@),
{
    match find_first(s, pat) {
        None => s.clone(),
        Some(j) => {
            proof {
                lemma_first_match_bounds(s@, pat@, 0);
            }
            let mut r: Vec<char> = Vec::new();
            let mut k: usize = 0;
            while k < j
                invariant
                    k <= j,
                    j + pat@.len() <= s@.len(),
                    r@ == s@.subrange(0, k as int),
                decreases j - k,
            {
                r.push(s[k]);
                k = k + 1;
                assert(r@ =~= s@.subrange(0, k as int));
            }
            let mut m: usize = 0;
            while m < rep.len()
                invariant
                    m <= rep@.len(),
                    j + pat@.len() <= s@.len(),
                    r@ == s@.subrange(0, j as int) + rep@.subrange(0, m as int),
                decreases rep@.len() - m,
            {
                r.push(rep[m]);
                m = m + 1;
                assert(r@ =~= s@.subrange(0, j as int) + rep@.subrange(0, m as int));
            }
            let slen = s.len();
            let plen = pat.len();
            assert(j + plen <= slen);
            let mut t: usize = j + plen;
            while t < s.len()
                invariant
                    j + pat@.len() <= t <= s@.len(),
                    r@ == s@.subrange(0, j as int) + rep@ + s@.subrange(j + pat@.len(), t as int),
                decreases s@.len() - t,
            {
                r.push(s[t]);
                t = t + 1;
                assert(r@ =~= s@.subrange(0, j as int) + rep@ + s@.subrange(j + pat@.len(), t as int));
            }
            r
        },
    }
}

proof fn lemma_first_match_bounds(s: Seq<char>, pat: Seq<char>, i: int)
    ensures
        first_match_from(s, pat, i) >= 0 ==> i <= first_match_from(s, pat, i) && first_match_from(s, pat, i) + pat.len() <= s.len(),
    decreases s.len() + 1 - i,
{
    if !(i < 0 || i + pat.len() > s.len()) && !matches_at(s, pat, i) {
        lemma_first_match_bounds(s, pat, i + 1);
    }
}

/// The placeholder `$k` as characters.
fn dollar_exec(k: usize) -> (r: Vec<char>)
    ensures
        r@ == dollar(k as nat),
{
    let mut t = String::new();
    push_char(&mut t, '$');
    push_decimal(&mut t, k as u64);
    chars_of(t.as_str())
}

/// `sql` with its placeholders numbered for PostgreSQL: as many times as
/// `bind_symbol` occurs in `sql`, its first occurrence is replaced by `$1`,
/// then `$2`, and so on (`?, ?` gives `$1, $2`).
pub fn postgres_bind_replace(sql: &str, bind_symbol: &str) -> (r: String)
    requires
        sql@.len() < usize::MAX,
    ensures
        r@ == numbered(sql@, bind_symbol@),
{
    let pat = chars_of(bind_symbol);
    let mut cur = chars_of(sql);
    let n = count_matches(&cur, &pat);
    let ghost orig = cur@;
    let mut i: usize = 0;
    while i < n
        invariant
            i <= n,
            numbered_from(cur@, pat@, i + 1, n as int) == numbered_from(orig, pat@, 1, n as int),
        decreases n - i,
    {
        let d = dollar_exec(i + 1);
        cur = replace_first_exec(&cur, &pat, &d);
        i = i + 1;
    }
    let mut r = String::new();
    let mut k: usize = 0;
    while k < cur.len()
        invariant
            k <= cur@.len(),
            r@ == cur@.subrange(0, k as int),
        decreases cur@.len() - k,
    {
        push_char(&mut r, cur[k]);
        k = k + 1;
        assert(r@ =~= cur@.subrange(0, k as int));
    }
    assert(r@ =~= cur@);
    r
}

/// The statement for a database: numbered for PostgreSQL (`postgres`
/// scheme), as it is for the others.
pub fn statement_for(scheme: &str, sql: &str, bind_symbol: &str) -> (r: String)
    requires
        sql@.len() < usize::MAX,
    ensures
        r@ == if scheme@ == seq!['p', 'o', 's', 't', 'g', 'r', 'e', 's'] {
            numbered(sql@, bind_symbol@)
        } else {
            sql@
        },
{
    proof {
        reveal_strlit("postgres");
        assert("postgres"@ =~= seq!['p', 'o', 's', 't', 'g', 'r', 'e', 's']);
    }
    if same_text(scheme, "postgres") {
        postgres_bind_replace(sql, bind_symbol)
    } else {
        sql.to_string()
    }
}

/// The number of rows a batch statement holds: as many as fit in the bind
/// limit (at most 65535 binds) with one bind per binding name and row.
pub fn batch_rows(bind_limit: u64, bindings: usize) -> (r: u64)
    requires
        bindings > 0,
    ensures
        r as int == (if bind_limit < 65535 { bind_limit as int } else { 65535int }) / (bindings as int),
{
    let limit: u64 = if bind_limit < 65535 { bind_limit } else { 65535 };
    limit / (bindings as u64)
}

/// `count` copies of `row` joined by `separator`.
pub open spec fn joined(row: Seq<char>, separator: Seq<char>, count: int) -> Seq<char>
    decreases count,
{
    if count <= 0 {
        Seq::empty()
    } else if count == 1 {
        row
    } else {
        joined(row, separator, count - 1) + separator + row
    }
}

/// The rows part of a batch statement: the row statement repeated once per
/// row, joined by `separator`.
pub fn batch_rows_text(row: &str, count: usize, separator: &str) -> (r: String)
    ensures
        r@ == joined(row@, separator@, count as int),
{
    let mut r = String::new();
    let mut k: usize = 0;
    while k < count
        invariant
            k <= count,
            r@ == joined(row@, separator@, k as int),
        decreases count - k,
    {
        if k > 0 {
            r.append(separator);
        }
        r.append(row);
        k = k + 1;
        assert(r@ =~= joined(row@, separator@, k as int));
    }
    r
}

/// The statement of a batch: `base` followed by the rows part, whose
/// placeholders are numbered for PostgreSQL (`postgres` scheme).
pub fn batch_statement(
    scheme: &str,
    base: &str,
    row: &str,
    count: usize,
    separator: &str,
    bind_symbol: &str,
) -> (r: String)
    requires
        joined(row@, separator@, count as int).len() < usize::MAX,
    ensures
        r@ == base@ + if scheme@ == seq!['p', 'o', 's', 't', 'g', 'r', 'e', 's'] {
            numbered(joined(row@, separator@, count as int), bind_symbol@)
        } else {
            joined(row@, separator@, count as int)
        },
{
    let rows = batch_rows_text(row, count, separator);
    let part = statement_for(scheme, rows.as_str(), bind_symbol);
    let mut r = base.to_string();
    r.append(part.as_str());
    r
}

/// The sizes of the batches `rows` rows are cut into, `batch_max` rows at
/// most each, in order; none where a batch can hold no row.
pub open spec fn batch_sizes_spec(rows: int, batch_max: int) -> Seq<int>
    decreases rows,
{
    if batch_max <= 0 || rows <= 0 {
        Seq::empty()
    } else if rows <= batch_max {
        seq![rows]
    } else {
        seq![batch_max] + batch_sizes_spec(rows - batch_max, batch_max)
    }
}

/// The sizes of the batches a batch treatment makes of `rows` rows: full
/// batches of `batch_max` rows, then the rest; none where `batch_max` is
/// `0` (more binding names than binds allowed).
pub fn batch_sizes(rows: usize, batch_max: u64) -> (r: Vec<usize>)
    ensures
        r@.map_values(|n: usize| n as int) == batch_sizes_spec(rows as int, batch_max as int),
{
    let mut r: Vec<usize> = Vec::new();
    if batch_max == 0 {
        return r;
    }
    let mut left = rows;
    while left > 0
        invariant
            batch_max > 0,
            left <= rows,
            r@.map_values(|n: usize| n as int) + batch_sizes_spec(left as int, batch_max as int)
                == batch_sizes_spec(rows as int, batch_max as int),
        decreases left,
    {
        let ghost r0 = r@;
        if (left as u64) <= batch_max {
            r.push(left);
            assert(r@.map_values(|n: usize| n as int) =~= r0.map_values(|n: usize| n as int).push(left as int));
            assert(r@.map_values(|n: usize| n as int) + batch_sizes_spec(0, batch_max as int)
                =~= r0.map_values(|n: usize| n as int) + batch_sizes_spec(left as int, batch_max as int));
            left = 0;
        } else {
            let full = batch_max as usize;
            r.push(full);
            assert(r@.map_values(|n: usize| n as int) =~= r0.map_values(|n: usize| n as int).push(full as int));
            assert(r@.map_values(|n: usize| n as int) + batch_sizes_spec(left - full, batch_max as int)
                =~= r0.map_values(|n: usize| n as int) + batch_sizes_spec(left as int, batch_max as int));
            left = left - full;
        }
    }
    assert(r@.map_values(|n: usize| n as int) + batch_sizes_spec(0, batch_max as int) =~= r@.map_values(|n: usize| n as int));
    r
}

/// The value bound for the binding name `name` from a row's map (its
/// entries, whose keys are all different): the value of the entry with that
/// key, or `None`, bound as SQL `NULL`, where the map has no such key.
pub open spec fn bound_value<V>(row: Seq<(String, V)>, name: Seq<char>) -> Option<V>
    decreases row.len(),
{
    if row.len() == 0 {
        None
    } else if row[0].0@ == name {
        Some(row[0].1)
    } else {
        bound_value(row.drop_first(), name)
    }
}

/// The values bound for one row: for each binding name in order, its value
/// from the row's map, `None` (SQL `NULL`) where the key is missing.
pub open spec fn row_binds_spec<V>(row: Seq<(String, V)>, names: Seq<Seq<char>>) -> Seq<Option<V>> {
    names.map_values(|n: Seq<char>| bound_value(row, n))
}

/// The values bound for a batch statement: those of each row in turn.
pub open spec fn batch_binds_spec<V>(rows: Seq<Seq<(String, V)>>, names: Seq<Seq<char>>) -> Seq<Option<V>>
    decreases rows.len(),
{
    if rows.len() == 0 {
        Seq::empty()
    } else {
        batch_binds_spec(rows.drop_last(), names) + row_binds_spec(rows.last(), names)
    }
}

/// The view of a list of values taken by reference.
pub open spec fn refs_view<V>(r: Seq<Option<&V>>) -> Seq<Option<V>> {
    r.map_values(|o: Option<&V>| match o {
        Some(v) => Some(*v),
        None => None,
    })
}

/// The value of the entry of `row` whose key is `name`, if any.
fn lookup<'a, V>(row: &'a Vec<(String, V)>, name: &str) -> (r: Option<&'a V>)
    ensures
        match r {
            Some(v) => bound_value(row@, name@) == Some(*v),
            None => bound_value(row@, name@) is None,
        },
{
    let mut i: usize = 0;
    assert(row@.subrange(0, row@.len() as int) =~= row@);
    while i < row.len()
        invariant
            i <= row@.len(),
            bound_value(row@, name@) == bound_value(row@.subrange(i as int, row@.len() as int), name@),
        decreases row@.len() - i,
    {
        let ghost rest = row@.subrange(i as int, row@.len() as int);
        assert(rest.drop_first() =~= row@.subrange(i + 1, row@.len() as int));
        assert(rest[0] == row@[i as int]);
        if same_text(row[i].0.as_str(), name) {
            return Some(&row[i].1);
        }
        i = i + 1;
    }
    assert(row@.subrange(i as int, row@.len() as int).len() == 0);
    None
}

/// The values bound for a batch statement over `rows` (the maps received,
/// in order): for each row in turn, for each binding name in order, the
/// value of that key in the row's map, or `None`, bound as SQL `NULL`,
/// where the map has no such key.
pub fn batch_binds<'a, V>(rows: &'a Vec<Vec<(String, V)>>, bindings: &Vec<String>) -> (r: Vec<Option<&'a V>>)
    ensures
        refs_view(r@) == batch_binds_spec(
            rows@.map_values(|row: Vec<(String, V)>| row@),
            bindings@.map_values(|b: String| b@),
        ),
        r@.len() == rows@.len() * bindings@.len(),
{
    let ghost names = bindings@.map_values(|b: String| b@);
    let ghost all = rows@.map_values(|row: Vec<(String, V)>| row@);
    let mut r: Vec<Option<&'a V>> = Vec::new();
    let mut i: usize = 0;
    while i < rows.len()
        invariant
            i <= rows@.len(),
            names == bindings@.map_values(|b: String| b@),
            all == rows@.map_values(|row: Vec<(String, V)>| row@),
            refs_view(r@) == batch_binds_spec(all.subrange(0, i as int), names),
            r@.len() == i * bindings@.len(),
        decreases rows@.len() - i,
    {
        let row = &rows[i];
        let ghost before = refs_view(r@);
        let ghost n0 = r@.len();
        let mut j: usize = 0;
        while j < bindings.len()
            invariant
                i < rows@.len(),
                j <= bindings@.len(),
                *row == rows@[i as int],
                names == bindings@.map_values(|b: String| b@),
                refs_view(r@) == before + row_binds_spec(row@, names).subrange(0, j as int),
                r@.len() == n0 + j,
            decreases bindings@.len() - j,
        {
            let ghost r0 = r@;
            let v = lookup(row, bindings[j].as_str());
            r.push(v);
            assert(refs_view(r@) =~= refs_view(r0).push(match v { Some(x) => Some(*x), None => None }));
            assert(row_binds_spec(row@, names).subrange(0, j + 1) =~= row_binds_spec(row@, names).subrange(0, j as int).push(bound_value(row@, names[j as int])));
            j = j + 1;
        }
        assert(row_binds_spec(row@, names).subrange(0, j as int) =~= row_binds_spec(row@, names));
        assert(all.subrange(0, i + 1).drop_last() =~= all.subrange(0, i as int));
        assert(all.subrange(0, i + 1).last() == row@);
        assert((i + 1) * bindings@.len() == i * bindings@.len() + bindings@.len()) by (nonlinear_arith);
        i = i + 1;
    }
    assert(all.subrange(0, i as int) =~= all);
    r
}

/// What a treatment executing statements one after the other sends: the
/// rows affected by each that succeeded and the message of each failure,
/// and how many were executed.
pub struct ExecutionReport {
    pub affected: Vec<u64>,
    pub failures: Vec<String>,
    pub executed: usize,
}

/// The number of statements executed: all, or up to and including the first
/// failure when the treatment stops on failure.
pub open spec fn executed_count(results: Seq<Result<u64, String>>, stop_on_failure: bool) -> int
    decreases results.len(),
{
    if results.len() == 0 {
        0
    } else if results[0] is Err && stop_on_failure {
        1
    } else {
        1 + executed_count(results.drop_first(), stop_on_failure)
    }
}

/// The affected counts among the first `n` results, in order.
pub open spec fn affected_of(results: Seq<Result<u64, String>>, n: int) -> Seq<u64>
    decreases n,
{
    if n <= 0 {
        Seq::empty()
    } else {
        match results[n - 1] {
            Ok(a) => affected_of(results, n - 1).push(a),
            Err(_) => affected_of(results, n - 1),
        }
    }
}

/// The failure messages among the first `n` results, in order.
pub open spec fn failures_of(results: Seq<Result<u64, String>>, n: int) -> Seq<Seq<char>>
    decreases n,
{
    if n <= 0 {
        Seq::empty()
    } else {
        match results[n - 1] {
            Ok(_) => failures_of(results, n - 1),
            Err(m) => failures_of(results, n - 1).push(m@),
        }
    }
}

proof fn lemma_executed_count(results: Seq<Result<u64, String>>, stop_on_failure: bool)
    ensures
        0 <= executed_count(results, stop_on_failure) <= results.len(),
        stop_on_failure ==> forall|k: int|
            0 <= k < executed_count(results, stop_on_failure) - 1 ==> (#[trigger] results[k]) is Ok,
        executed_count(results, stop_on_failure) < results.len() ==> stop_on_failure
            && executed_count(results, stop_on_failure) > 0
            && results[executed_count(results, stop_on_failure) - 1] is Err,
        !stop_on_failure ==> executed_count(results, stop_on_failure) == results.len(),
    decreases results.len(),
{
    if results.len() > 0 && !(results[0] is Err && stop_on_failure) {
        let rest = results.drop_first();
        lemma_executed_count(rest, stop_on_failure);
        if stop_on_failure {
            assert forall|k: int| 0 <= k < executed_count(results, stop_on_failure) - 1 implies (#[trigger] results[k]) is Ok by {
                if k > 0 {
                    assert(results[k] == rest[k - 1]);
                }
            }
        }
        if executed_count(results, stop_on_failure) < results.len() {
            assert(results[executed_count(results, stop_on_failure) - 1] == rest[executed_count(rest, stop_on_failure) - 1]);
        }
    }
}

/// What a treatment executing statements in turn (`execute_each`,
/// `execute_batch`) sends for their results: each count of affected rows
/// and each failure; when it stops on failure, nothing after the first.
pub fn execution_report(results: &Vec<Result<u64, String>>, stop_on_failure: bool) -> (r: ExecutionReport)
    ensures
        r.executed == executed_count(results@, stop_on_failure),
        r.affected@ == affected_of(results@, r.executed as int),
        r.failures@.map_values(|s: String| s@) == failures_of(results@, r.executed as int),
{
    proof {
        lemma_executed_count(results@, stop_on_failure);
    }
    let ghost n = executed_count(results@, stop_on_failure);
    let mut affected: Vec<u64> = Vec::new();
    let mut failures: Vec<String> = Vec::new();
    let mut i: usize = 0;
    while i < results.len()
        invariant
            i <= results@.len(),
            n == executed_count(results@, stop_on_failure),
            0 <= n <= results@.len(),
            stop_on_failure ==> forall|k: int| 0 <= k < n - 1 ==> (#[trigger] results@[k]) is Ok,
            n < results@.len() ==> stop_on_failure && n > 0 && results@[n - 1] is Err,
            !stop_on_failure ==> n == results@.len(),
            i <= n,
            stop_on_failure ==> forall|k: int| 0 <= k < i ==> (#[trigger] results@[k]) is Ok,
            affected@ == affected_of(results@, i as int),
            failures@.map_values(|s: String| s@) == failures_of(results@, i as int),
        decreases results@.len() - i,
    {
        match &results[i] {
            Ok(a) => {
                affected.push(*a);
            },
            Err(m) => {
                let ghost f0 = failures@;
                failures.push(m.clone());
                assert(failures@.map_values(|s: String| s@) =~= f0.map_values(|s: String| s@).push(m@));
                if stop_on_failure {
                    proof {
                        if i + 1 < n {
                            assert(results@[i as int] is Ok);
                        }
                    }
                    return ExecutionReport { affected, failures, executed: i + 1 };
                }
            },
        }
        i = i + 1;
        proof {
            if stop_on_failure && i > n {
                assert(false);
            }
        }
    }
    ExecutionReport { affected, failures, executed: i }
}

} // verus!
