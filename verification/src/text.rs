//! Character-level text utilities with exact specifications.
//!
//! The pipeline's parsing and prompt building work on `Vec<char>`, whose view
//! is the same `Seq<char>` as the view of `String` and `&str`, so contracts
//! compose across the two representations.

use vstd::prelude::*;

verus! {

broadcast use vstd::string::group_string_axioms;

/// The characters that Rust's `str::trim` removes (the Unicode `White_Space`
/// property).
pub open spec fn is_ws(c: char) -> bool {
    ||| c == ' '
    ||| c == '\t'
    ||| c == '\n'
    ||| c == '\r'
    ||| c == '\u{0b}'
    ||| c == '\u{0c}'
    ||| c == '\u{85}'
    ||| c == '\u{a0}'
    ||| c == '\u{1680}'
    ||| ('\u{2000}' <= c && c <= '\u{200a}')
    ||| c == '\u{2028}'
    ||| c == '\u{2029}'
    ||| c == '\u{202f}'
    ||| c == '\u{205f}'
    ||| c == '\u{3000}'
}

pub fn is_ws_exec(c: char) -> (r: bool)
    ensures
        r == is_ws(c),
{
    c == ' ' || c == '\t' || c == '\n' || c == '\r' || c == '\u{0b}' || c == '\u{0c}' || c
        == '\u{85}' || c == '\u{a0}' || c == '\u{1680}' || ('\u{2000}' <= c && c <= '\u{200a}')
        || c == '\u{2028}' || c == '\u{2029}' || c == '\u{202f}' || c == '\u{205f}' || c
        == '\u{3000}'
}

/// The characters of a string slice, in order.
pub fn str_to_chars(s: &str) -> (r: Vec<char>)
    ensures
        r@ == s@,
{
    let mut r: Vec<char> = Vec::new();
    for c in it: s.chars()
        invariant
            r@ == it.seq().take(it.index() as int),
    {
        r.push(c);
    }
    proof {
        assert(r@ =~= s@);
    }
    r
}

/// Relies on `String`'s `FromIterator<char>` impl: collecting chars yields the
/// string whose view is exactly that character sequence.
#[verifier::external_body]
pub fn string_from_chars(v: &Vec<char>) -> (r: String)
    ensures
        r@ == v@,
{
    v.iter().collect()
}

/// Character-for-character equality of two string slices.
pub fn str_eq(a: &str, b: &str) -> (r: bool)
    ensures
        r == (a@ == b@),
{
    let alen = a.unicode_len();
    let blen = b.unicode_len();
    if alen != blen {
        return false;
    }
    let mut i: usize = 0;
    while i < alen
        invariant
            0 <= i <= alen,
            alen == a@.len(),
            blen == b@.len(),
            alen == blen,
            forall|j: int| 0 <= j < i ==> a@[j] == b@[j],
        decreases alen - i,
    {
        if a.get_char(i) != b.get_char(i) {
            return false;
        }
        i = i + 1;
    }
    proof {
        assert(a@ =~= b@);
    }
    true
}

/// `s` with leading white space removed.
pub open spec fn trim_start_spec(s: Seq<char>) -> Seq<char>
    decreases s.len(),
{
    if s.len() > 0 && is_ws(s[0]) {
        trim_start_spec(s.drop_first())
    } else {
        s
    }
}

/// `s` with trailing white space removed.
pub open spec fn trim_end_spec(s: Seq<char>) -> Seq<char>
    decreases s.len(),
{
    if s.len() > 0 && is_ws(s.last()) {
        trim_end_spec(s.drop_last())
    } else {
        s
    }
}

/// `s` with leading and trailing white space removed, as `str::trim` leaves
/// it.
pub open spec fn trim_spec(s: Seq<char>) -> Seq<char> {
    trim_end_spec(trim_start_spec(s))
}

proof fn lemma_trim_start_skip(s: Seq<char>, i: int)
    requires
        0 <= i <= s.len(),
        forall|j: int| 0 <= j < i ==> is_ws(s[j]),
        i < s.len() ==> !is_ws(s[i]),
    ensures
        trim_start_spec(s) == s.skip(i),
    decreases i,
{
    if i == 0 {
        assert(s.skip(0) =~= s);
    } else {
        assert(is_ws(s[0]));
        let t = s.drop_first();
        assert(forall|j: int| 0 <= j < i - 1 ==> is_ws(#[trigger] t[j]));
        lemma_trim_start_skip(t, i - 1);
        assert(t.skip(i - 1) =~= s.skip(i));
    }
}

proof fn lemma_trim_end_take(s: Seq<char>, i: int)
    requires
        0 <= i <= s.len(),
        forall|j: int| i <= j < s.len() ==> is_ws(s[j]),
        i > 0 ==> !is_ws(s[i - 1]),
    ensures
        trim_end_spec(s) == s.take(i),
    decreases s.len() - i,
{
    if i == s.len() {
        assert(s.take(i) =~= s);
    } else {
        assert(is_ws(s.last()));
        let t = s.drop_last();
        lemma_trim_end_take(t, i);
        assert(t.take(i) =~= s.take(i));
    }
}

/// The white-space-trimmed copy of a character vector.
pub fn trim_chars(v: &Vec<char>) -> (r: Vec<char>)
    ensures
        r@ == trim_spec(v@),
{
    let n = v.len();
    let mut lo: usize = 0;
    while lo < n && is_ws_exec(v[lo])
        invariant
            0 <= lo <= n,
            n == v@.len(),
            forall|j: int| 0 <= j < lo ==> is_ws(v@[j]),
        decreases n - lo,
    {
        lo = lo + 1;
    }
    proof {
        lemma_trim_start_skip(v@, lo as int);
    }
    let mut hi: usize = n;
    while hi > lo && is_ws_exec(v[hi - 1])
        invariant
            lo <= hi <= n,
            n == v@.len(),
            forall|j: int| hi <= j < n ==> is_ws(v@[j]),
        decreases hi,
    {
        hi = hi - 1;
    }
    proof {
        let t = v@.skip(lo as int);
        assert(forall|j: int|
            hi - lo <= j < t.len() ==> is_ws(#[trigger] t[j]) == is_ws(v@[j + lo]));
        if hi > lo {
            assert(t[hi - lo - 1] == v@[hi - 1]);
        }
        lemma_trim_end_take(t, hi - lo);
    }
    let mut r: Vec<char> = Vec::new();
    let mut i: usize = lo;
    while i < hi
        invariant
            lo <= i <= hi <= n,
            n == v@.len(),
            r@ == v@.subrange(lo as int, i as int),
        decreases hi - i,
    {
        let c = v[i];
        r.push(c);
        proof {
            assert(r@ =~= v@.subrange(lo as int, i + 1 as int));
        }
        i = i + 1;
    }
    proof {
        assert(v@.skip(lo as int).take(hi - lo as int) =~= v@.subrange(lo as int, hi as int));
    }
    r
}

/// A copy of `v[lo..hi]`.
pub fn subrange_chars(v: &Vec<char>, lo: usize, hi: usize) -> (r: Vec<char>)
    requires
        lo <= hi <= v@.len(),
    ensures
        r@ == v@.subrange(lo as int, hi as int),
{
    let mut r: Vec<char> = Vec::new();
    let mut i: usize = lo;
    while i < hi
        invariant
            lo <= i <= hi <= v@.len(),
            r@ == v@.subrange(lo as int, i as int),
        decreases hi - i,
    {
        let c = v[i];
        r.push(c);
        proof {
            assert(r@ =~= v@.subrange(lo as int, i + 1 as int));
        }
        i = i + 1;
    }
    r
}

/// Index of the first line feed in `s`, or `s.len()` if there is none.
pub open spec fn find_newline(s: Seq<char>) -> int
    decreases s.len(),
{
    if s.len() == 0 {
        0
    } else if s[0] == '\n' {
        0
    } else {
        1 + find_newline(s.drop_first())
    }
}

proof fn lemma_find_newline(s: Seq<char>, k: int)
    requires
        0 <= k <= s.len(),
        forall|j: int| 0 <= j < k ==> s[j] != '\n',
        k < s.len() ==> s[k] == '\n',
    ensures
        find_newline(s) == k,
    decreases k,
{
    if s.len() == 0 {
    } else if k == 0 {
    } else {
        let t = s.drop_first();
        assert(forall|j: int| 0 <= j < k - 1 ==> #[trigger] t[j] == s[j + 1]);
        lemma_find_newline(t, k - 1);
    }
}

/// A line as `str::lines` yields it: the carriage return before a line feed
/// is stripped.
pub open spec fn strip_cr(l: Seq<char>) -> Seq<char> {
    if l.len() > 0 && l.last() == '\r' {
        l.drop_last()
    } else {
        l
    }
}

/// The lines of `s`, split as `str::lines` splits them: at each line feed,
/// stripping a carriage return that precedes it; a final line without a
/// terminator is kept as it stands, and a trailing terminator adds no empty
/// line.
pub open spec fn lines_spec(s: Seq<char>) -> Seq<Seq<char>>
    decreases s.len(),
{
    if s.len() == 0 {
        Seq::empty()
    } else {
        let k = find_newline(s);
        if 0 <= k < s.len() {
            seq![strip_cr(s.take(k))] + lines_spec(s.skip(k + 1))
        } else {
            seq![s]
        }
    }
}

/// Splits `v` into its lines.
pub fn split_lines(v: &Vec<char>) -> (r: Vec<Vec<char>>)
    ensures
        r@.len() == lines_spec(v@).len(),
        forall|i: int| 0 <= i < r@.len() ==> r@[i]@ == lines_spec(v@)[i],
{
    let n = v.len();
    let mut r: Vec<Vec<char>> = Vec::new();
    let mut start: usize = 0;
    let mut i: usize = 0;
    proof {
        assert(v@.skip(0) =~= v@);
    }
    while i < n
        invariant
            0 <= start <= i <= n,
            n == v@.len(),
            forall|j: int| start <= j < i ==> v@[j] != '\n',
            lines_spec(v@).len() == r@.len() + lines_spec(v@.skip(start as int)).len(),
            forall|j: int| 0 <= j < r@.len() ==> r@[j]@ == lines_spec(v@)[j],
            forall|j: int|
                0 <= j < lines_spec(v@.skip(start as int)).len() ==> lines_spec(
                    v@.skip(start as int),
                )[j] == lines_spec(v@)[r@.len() + j],
        decreases n - i,
    {
        if v[i] == '\n' {
            let raw = subrange_chars(v, start, i);
            let line = if raw.len() > 0 && raw[raw.len() - 1] == '\r' {
                subrange_chars(v, start, i - 1)
            } else {
                raw
            };
            proof {
                let rest = v@.skip(start as int);
                assert(forall|j: int|
                    0 <= j < i - start ==> #[trigger] rest[j] == v@[j + start] && rest[j] != '\n');
                assert(rest[i - start] == '\n');
                lemma_find_newline(rest, i - start);
                assert(rest.take(i - start) =~= v@.subrange(start as int, i as int));
                if i > start && v@[i - 1] == '\r' {
                    assert(strip_cr(rest.take(i - start)) =~= v@.subrange(
                        start as int,
                        i - 1 as int,
                    ));
                }
                assert(line@ == strip_cr(rest.take(i - start)));
                assert(rest.skip(i - start + 1) =~= v@.skip(i + 1 as int));
                assert(lines_spec(rest) == seq![line@] + lines_spec(v@.skip(i + 1 as int)));
                assert(lines_spec(rest)[0] == line@);
                assert(forall|j: int|
                    0 <= j < lines_spec(v@.skip(i + 1 as int)).len() ==> lines_spec(rest)[j + 1]
                        == #[trigger] lines_spec(v@.skip(i + 1 as int))[j]);
            }
            r.push(line);
            start = i + 1;
        }
        i = i + 1;
    }
    if start < n {
        let line = subrange_chars(v, start, n);
        proof {
            let rest = v@.skip(start as int);
            assert(forall|j: int|
                0 <= j < rest.len() ==> #[trigger] rest[j] == v@[j + start] && rest[j] != '\n');
            lemma_find_newline(rest, rest.len() as int);
            assert(rest =~= v@.subrange(start as int, n as int));
            assert(lines_spec(rest) == seq![rest]);
            assert(lines_spec(rest)[0] == rest);
            assert(lines_spec(v@)[r@.len() as int] == rest);
        }
        r.push(line);
        assert(forall|i: int| 0 <= i < r@.len() ==> r@[i]@ == lines_spec(v@)[i]);
    } else {
        proof {
            assert(v@.skip(start as int).len() == 0);
        }
    }
    r
}

/// Whether `pat` occurs in `s` at position `k`.
pub open spec fn contains_at(s: Seq<char>, pat: Seq<char>, k: int) -> bool {
    &&& 0 <= k
    &&& k + pat.len() <= s.len()
    &&& s.subrange(k, k + pat.len()) == pat
}

/// Whether `pat` occurs anywhere in `s`.
pub open spec fn contains_spec(s: Seq<char>, pat: Seq<char>) -> bool {
    exists|k: int| contains_at(s, pat, k)
}

/// Substring search: whether the characters of `pat` occur contiguously in
/// `v`.
pub fn contains_chars(v: &Vec<char>, pat: &Vec<char>) -> (r: bool)
    ensures
        r == contains_spec(v@, pat@),
{
    let n = v.len();
    let m = pat.len();
    if m > n {
        return false;
    }
    if m == 0 {
        proof {
            assert(v@.subrange(0, 0) =~= pat@);
            assert(contains_at(v@, pat@, 0));
        }
        return true;
    }
    let mut k: usize = 0;
    while k <= n - m
        invariant
            0 <= k <= n - m + 1,
            m <= n,
            n == v@.len(),
            m == pat@.len(),
            1 <= m,
            forall|k2: int| 0 <= k2 < k ==> !contains_at(v@, pat@, k2),
        decreases n - m + 1 - k,
    {
        let mut j: usize = 0;
        let mut hit = true;
        while j < m
            invariant
                0 <= j <= m,
                k + m <= n,
                n == v@.len(),
                m == pat@.len(),
                hit ==> forall|j2: int| 0 <= j2 < j ==> v@[k + j2] == pat@[j2],
                !hit ==> !contains_at(v@, pat@, k as int),
            decreases m - j,
        {
            if v[k + j] != pat[j] {
                proof {
                    assert(v@.subrange(k as int, k + m as int)[j as int] == v@[k + j]);
                }
                hit = false;
                j = m;
            } else {
                j = j + 1;
            }
        }
        if hit {
            proof {
                assert(v@.subrange(k as int, k + m as int) =~= pat@);
                assert(contains_at(v@, pat@, k as int));
            }
            return true;
        }
        k = k + 1;
    }
    false
}

/// Whether `s` starts with `pat`.
pub open spec fn starts_with_spec(s: Seq<char>, pat: Seq<char>) -> bool {
    pat.len() <= s.len() && s.take(pat.len() as int) == pat
}

/// Whether `s` ends with `pat`.
pub open spec fn ends_with_spec(s: Seq<char>, pat: Seq<char>) -> bool {
    pat.len() <= s.len() && s.skip(s.len() - pat.len()) == pat
}

pub fn starts_with_chars(v: &Vec<char>, pat: &Vec<char>) -> (r: bool)
    ensures
        r == starts_with_spec(v@, pat@),
{
    let m = pat.len();
    if m > v.len() {
        return false;
    }
    let mut j: usize = 0;
    while j < m
        invariant
            0 <= j <= m <= v@.len(),
            m == pat@.len(),
            forall|j2: int| 0 <= j2 < j ==> v@[j2] == pat@[j2],
        decreases m - j,
    {
        if v[j] != pat[j] {
            proof {
                assert(v@.take(m as int)[j as int] == v@[j as int]);
            }
            return false;
        }
        j = j + 1;
    }
    proof {
        assert(v@.take(m as int) =~= pat@);
    }
    true
}

pub fn ends_with_chars(v: &Vec<char>, pat: &Vec<char>) -> (r: bool)
    ensures
        r == ends_with_spec(v@, pat@),
{
    let m = pat.len();
    let n = v.len();
    if m > n {
        return false;
    }
    let off = n - m;
    let mut j: usize = 0;
    while j < m
        invariant
            0 <= j <= m <= n,
            off == n - m,
            n == v@.len(),
            m == pat@.len(),
            forall|j2: int| 0 <= j2 < j ==> v@[off + j2] == pat@[j2],
        decreases m - j,
    {
        if v[off + j] != pat[j] {
            proof {
                assert(v@.skip(off as int)[j as int] == v@[off + j]);
            }
            return false;
        }
        j = j + 1;
    }
    proof {
        assert(v@.skip(off as int) =~= pat@);
    }
    true
}

/// `s` with every leading occurrence of `pat` removed, as
/// `str::trim_start_matches` leaves it.
pub open spec fn strip_prefix_rep(s: Seq<char>, pat: Seq<char>) -> Seq<char>
    decreases s.len(),
{
    if pat.len() > 0 && starts_with_spec(s, pat) {
        strip_prefix_rep(s.skip(pat.len() as int), pat)
    } else {
        s
    }
}

/// `s` with every trailing occurrence of `pat` removed, as
/// `str::trim_end_matches` leaves it.
pub open spec fn strip_suffix_rep(s: Seq<char>, pat: Seq<char>) -> Seq<char>
    decreases s.len(),
{
    if pat.len() > 0 && ends_with_spec(s, pat) {
        strip_suffix_rep(s.take(s.len() - pat.len()), pat)
    } else {
        s
    }
}

pub fn strip_prefix_rep_chars(v: &Vec<char>, pat: &Vec<char>) -> (r: Vec<char>)
    requires
        pat@.len() > 0,
    ensures
        r@ == strip_prefix_rep(v@, pat@),
{
    let mut cur = subrange_chars(v, 0, v.len());
    proof {
        assert(v@.subrange(0, v@.len() as int) =~= v@);
    }
    loop
        invariant
            strip_prefix_rep(v@, pat@) == strip_prefix_rep(cur@, pat@),
            pat@.len() > 0,
        ensures
            cur@ == strip_prefix_rep(v@, pat@),
        decreases cur@.len(),
    {
        if starts_with_chars(&cur, pat) {
            cur = subrange_chars(&cur, pat.len(), cur.len());
        } else {
            break ;
        }
    }
    cur
}

pub fn strip_suffix_rep_chars(v: &Vec<char>, pat: &Vec<char>) -> (r: Vec<char>)
    requires
        pat@.len() > 0,
    ensures
        r@ == strip_suffix_rep(v@, pat@),
{
    let mut cur = subrange_chars(v, 0, v.len());
    proof {
        assert(v@.subrange(0, v@.len() as int) =~= v@);
    }
    loop
        invariant
            strip_suffix_rep(v@, pat@) == strip_suffix_rep(cur@, pat@),
            pat@.len() > 0,
        ensures
            cur@ == strip_suffix_rep(v@, pat@),
        decreases cur@.len(),
    {
        if ends_with_chars(&cur, pat) {
            cur = subrange_chars(&cur, 0, cur.len() - pat.len());
        } else {
            break ;
        }
    }
    cur
}

/// Whether `c` is a decimal digit.
pub open spec fn is_digit(c: char) -> bool {
    '0' <= c && c <= '9'
}

pub open spec fn digit_val(c: char) -> int {
    c as int - '0' as int
}

pub open spec fn all_digits(s: Seq<char>) -> bool {
    forall|i: int| 0 <= i < s.len() ==> is_digit(s[i])
}

/// The numeric value of a digit string, most significant digit first.
pub open spec fn dec_val(s: Seq<char>) -> int
    decreases s.len(),
{
    if s.len() == 0 {
        0
    } else {
        dec_val(s.drop_last()) * 10 + digit_val(s.last())
    }
}

/// What parsing a decimal unsigned integer yields: defined exactly when the
/// text is one or more digits and the value fits in a `u64`.
pub open spec fn parse_u64_spec(s: Seq<char>) -> Option<u64> {
    if s.len() > 0 && all_digits(s) && dec_val(s) <= u64::MAX {
        Some(dec_val(s) as u64)
    } else {
        None
    }
}

proof fn lemma_dec_val_nonneg(s: Seq<char>)
    requires
        all_digits(s),
    ensures
        dec_val(s) >= 0,
    decreases s.len(),
{
    if s.len() > 0 {
        let t = s.drop_last();
        assert(forall|i: int| 0 <= i < t.len() ==> is_digit(#[trigger] t[i]));
        lemma_dec_val_nonneg(t);
    }
}

proof fn lemma_dec_val_prefix_le(s: Seq<char>, i: int)
    requires
        all_digits(s),
        0 <= i <= s.len(),
    ensures
        dec_val(s.take(i)) <= dec_val(s),
    decreases s.len() - i,
{
    if i == s.len() {
        assert(s.take(i) =~= s);
    } else {
        let t = s.take(i + 1);
        assert(forall|j: int| 0 <= j < t.len() ==> is_digit(#[trigger] t[j]));
        assert(t.drop_last() =~= s.take(i));
        lemma_dec_val_nonneg(s.take(i));
        assert(dec_val(t) == dec_val(s.take(i)) * 10 + digit_val(t.last()));
        assert(dec_val(s.take(i)) * 10 >= dec_val(s.take(i))) by {
            lemma_dec_val_nonneg(s.take(i));
        }
        lemma_dec_val_prefix_le(s, i + 1);
    }
}

/// Parses `v[lo..hi]` as a decimal `u64`.
pub fn parse_u64_range(v: &Vec<char>, lo: usize, hi: usize) -> (r: Option<u64>)
    requires
        lo <= hi <= v@.len(),
    ensures
        r == parse_u64_spec(v@.subrange(lo as int, hi as int)),
{
    let ghost s = v@.subrange(lo as int, hi as int);
    if lo == hi {
        return None;
    }
    let mut acc: u64 = 0;
    let mut i: usize = lo;
    while i < hi
        invariant
            lo <= i <= hi <= v@.len(),
            s == v@.subrange(lo as int, hi as int),
            all_digits(s.take(i - lo)),
            acc == dec_val(s.take(i - lo)),
        decreases hi - i,
    {
        let c = v[i];
        if !('0' <= c && c <= '9') {
            proof {
                assert(s[i - lo] == c);
                assert(!all_digits(s));
            }
            return None;
        }
        let d: u64 = (c as u32 - '0' as u32) as u64;
        let next = match acc.checked_mul(10) {
            Some(m) => m.checked_add(d),
            None => None,
        };
        match next {
            Some(n) => {
                proof {
                    assert(s.take(i - lo + 1).drop_last() =~= s.take(i - lo));
                    assert(s.take(i - lo + 1).last() == c);
                }
                acc = n;
            },
            None => {
                proof {
                    assert(s.take(i - lo + 1).drop_last() =~= s.take(i - lo));
                    assert(s.take(i - lo + 1).last() == c);
                    assert(dec_val(s.take(i - lo + 1)) > u64::MAX);
                    if all_digits(s) {
                        lemma_dec_val_prefix_le(s, i - lo + 1);
                    }
                }
                return None;
            },
        }
        i = i + 1;
    }
    proof {
        assert(s.take(hi - lo) =~= s);
    }
    Some(acc)
}

pub open spec fn digit_char(d: int) -> char {
    if d == 0 {
        '0'
    } else if d == 1 {
        '1'
    } else if d == 2 {
        '2'
    } else if d == 3 {
        '3'
    } else if d == 4 {
        '4'
    } else if d == 5 {
        '5'
    } else if d == 6 {
        '6'
    } else if d == 7 {
        '7'
    } else if d == 8 {
        '8'
    } else {
        '9'
    }
}

/// The decimal rendering of `n >= 0`, without sign or padding.
pub open spec fn dec_str(n: int) -> Seq<char>
    decreases n,
{
    if n < 10 {
        seq![digit_char(n)]
    } else {
        dec_str(n / 10).push(digit_char(n % 10))
    }
}

/// Renders `n` in decimal.
pub fn u64_to_dec_chars(n: u64) -> (r: Vec<char>)
    ensures
        r@ == dec_str(n as int),
{
    let mut tmp: Vec<char> = Vec::new();
    let mut cur: u64 = n;
    while cur >= 10
        invariant
            dec_str(n as int) == dec_str(cur as int) + tmp@.reverse(),
        decreases cur,
    {
        let d = cur % 10;
        let c = digit_char_exec(d);
        proof {
            assert(tmp@.push(c).reverse() =~= seq![c] + tmp@.reverse());
            assert(dec_str(cur as int) == dec_str(cur as int / 10).push(digit_char(cur as int % 10)));
            assert(dec_str(cur as int / 10).push(c) =~= dec_str(cur as int / 10) + seq![c]);
            assert(dec_str(cur as int / 10) + seq![c] + tmp@.reverse() =~= dec_str(cur as int / 10)
                + (seq![c] + tmp@.reverse()));
        }
        tmp.push(c);
        cur = cur / 10;
    }
    let c = digit_char_exec(cur);
    proof {
        assert(tmp@.push(c).reverse() =~= seq![c] + tmp@.reverse());
        assert(dec_str(cur as int) =~= seq![c]);
        assert(seq![c] + tmp@.reverse() =~= dec_str(cur as int) + tmp@.reverse());
    }
    tmp.push(c);
    let mut r: Vec<char> = Vec::new();
    let mut i: usize = tmp.len();
    while i > 0
        invariant
            0 <= i <= tmp@.len(),
            r@ == tmp@.skip(i as int).reverse(),
        decreases i,
    {
        i = i - 1;
        let c2 = tmp[i];
        r.push(c2);
        proof {
            assert(r@ =~= tmp@.skip(i as int).reverse());
        }
    }
    proof {
        assert(tmp@.skip(0) =~= tmp@);
    }
    r
}

pub fn digit_char_exec(d: u64) -> (c: char)
    requires
        d < 10,
    ensures
        c == digit_char(d as int),
{
    match d {
        0 => '0',
        1 => '1',
        2 => '2',
        3 => '3',
        4 => '4',
        5 => '5',
        6 => '6',
        7 => '7',
        8 => '8',
        _ => '9',
    }
}

/// `dec_str(n)` left-padded with zeros to at least `w` characters.
pub open spec fn dec_str_pad(n: int, w: int) -> Seq<char> {
    let d = dec_str(n);
    if d.len() >= w {
        d
    } else {
        Seq::new((w - d.len()) as nat, |i: int| '0') + d
    }
}

/// Renders `n` in decimal, zero-padded to at least `w` characters.
pub fn u64_to_dec_pad(n: u64, w: usize) -> (r: Vec<char>)
    requires
        w <= 20,
    ensures
        r@ == dec_str_pad(n as int, w as int),
{
    let d = u64_to_dec_chars(n);
    if d.len() >= w {
        return d;
    }
    let pad = w - d.len();
    let mut r: Vec<char> = Vec::new();
    let mut i: usize = 0;
    while i < pad
        invariant
            0 <= i <= pad,
            r@ == Seq::new(i as nat, |x: int| '0'),
        decreases pad - i,
    {
        r.push('0');
        proof {
            assert(r@ =~= Seq::new((i + 1) as nat, |x: int| '0'));
        }
        i = i + 1;
    }
    let mut j: usize = 0;
    while j < d.len()
        invariant
            0 <= j <= d@.len(),
            r@ == Seq::new(pad as nat, |x: int| '0') + d@.take(j as int),
        decreases d@.len() - j,
    {
        let c = d[j];
        r.push(c);
        proof {
            assert(r@ =~= Seq::new(pad as nat, |x: int| '0') + d@.take(j + 1 as int));
        }
        j = j + 1;
    }
    proof {
        assert(d@.take(d@.len() as int) =~= d@);
    }
    r
}

} // verus!


