//! A small JSON reader and writer for the pipeline's wire shapes.
//!
//! The writer escapes text for embedding in JSON request bodies. The reader
//! accepts the reply shapes the pipeline asks its models for: an array of
//! `{"id": n, "translated_text": s}` objects, and a `{"remove_ids": [...]}`
//! object. Members with other keys are skipped, whatever value they hold, as
//! a deserializer that ignores unknown fields would skip them. Anything else
//! is a decode failure, which every caller recovers from.

use vstd::prelude::*;
use crate::text::{is_ws, is_ws_exec, is_digit, parse_u64_spec};

verus! {

/// The hexadecimal digit for `d < 16`, lower case.
pub open spec fn hex_char(d: int) -> char {
    if d < 10 {
        crate::text::digit_char(d)
    } else if d == 10 {
        'a'
    } else if d == 11 {
        'b'
    } else if d == 12 {
        'c'
    } else if d == 13 {
        'd'
    } else if d == 14 {
        'e'
    } else {
        'f'
    }
}

/// How one character is written inside a JSON string: quote, backslash and
/// the named control characters get a two-character escape, other control
/// characters a `\u00xx` escape, and everything else stands as it is.
pub open spec fn escaped_char(c: char) -> Seq<char> {
    if c == '"' {
        seq!['\\', '"']
    } else if c == '\\' {
        seq!['\\', '\\']
    } else if c == '\n' {
        seq!['\\', 'n']
    } else if c == '\r' {
        seq!['\\', 'r']
    } else if c == '\t' {
        seq!['\\', 't']
    } else if c == '\u{08}' {
        seq!['\\', 'b']
    } else if c == '\u{0c}' {
        seq!['\\', 'f']
    } else if (c as int) < 0x20 {
        seq!['\\', 'u', '0', '0', hex_char((c as int) / 16), hex_char((c as int) % 16)]
    } else {
        seq![c]
    }
}

/// `s` with every character escaped for a JSON string.
pub open spec fn json_escaped(s: Seq<char>) -> Seq<char>
    decreases s.len(),
{
    if s.len() == 0 {
        Seq::empty()
    } else {
        json_escaped(s.drop_last()) + escaped_char(s.last())
    }
}

/// `s` as a JSON string token, quotes included.
pub open spec fn json_quoted(s: Seq<char>) -> Seq<char> {
    seq!['"'] + json_escaped(s) + seq!['"']
}

fn push_escaped(out: &mut Vec<char>, c: char)
    ensures
        final(out)@ == old(out)@ + escaped_char(c),
{
    if c == '"' {
        out.push('\\');
        out.push('"');
    } else if c == '\\' {
        out.push('\\');
        out.push('\\');
    } else if c == '\n' {
        out.push('\\');
        out.push('n');
    } else if c == '\r' {
        out.push('\\');
        out.push('r');
    } else if c == '\t' {
        out.push('\\');
        out.push('t');
    } else if c == '\u{08}' {
        out.push('\\');
        out.push('b');
    } else if c == '\u{0c}' {
        out.push('\\');
        out.push('f');
    } else if (c as u32) < 0x20 {
        out.push('\\');
        out.push('u');
        out.push('0');
        out.push('0');
        let v = c as u32;
        out.push(hex_char_exec((v / 16) as u8));
        out.push(hex_char_exec((v % 16) as u8));
    } else {
        out.push(c);
    }
    proof {
        assert(out@ =~= old(out)@ + escaped_char(c));
    }
}

fn hex_char_exec(d: u8) -> (c: char)
    requires
        d < 16,
    ensures
        c == hex_char(d as int),
{
    match d {
        0 => '0',
        1 => '1',
        2 => '2',
        3 => '3',
        4 => '4',
        5 => '5',
        6 => '6',
        7 => '7',
        8 => '8',
        9 => '9',
        10 => 'a',
        11 => 'b',
        12 => 'c',
        13 => 'd',
        14 => 'e',
        _ => 'f',
    }
}

/// Appends the JSON string token for `s` (quotes included) to `out`.
pub fn push_json_quoted(out: &mut Vec<char>, s: &Vec<char>)
    ensures
        final(out)@ == old(out)@ + json_quoted(s@),
{
    out.push('"');
    let mut i: usize = 0;
    while i < s.len()
        invariant
            0 <= i <= s@.len(),
            out@ == old(out)@ + seq!['"'] + json_escaped(s@.take(i as int)),
        decreases s@.len() - i,
    {
        let c = s[i];
        push_escaped(out, c);
        proof {
            assert(s@.take(i + 1 as int).drop_last() =~= s@.take(i as int));
            assert(s@.take(i + 1 as int).last() == c);
            assert(old(out)@ + seq!['"'] + json_escaped(s@.take(i as int)) + escaped_char(c)
                =~= old(out)@ + seq!['"'] + json_escaped(s@.take(i + 1 as int)));
        }
        i = i + 1;
    }
    out.push('"');
    proof {
        assert(s@.take(s@.len() as int) =~= s@);
        assert(old(out)@ + seq!['"'] + json_escaped(s@) + seq!['"'] =~= old(out)@ + json_quoted(
            s@,
        ));
    }
}

/// Appends every character of `src` to `out`.
pub fn push_all(out: &mut Vec<char>, src: &Vec<char>)
    ensures
        final(out)@ == old(out)@ + src@,
{
    let mut i: usize = 0;
    while i < src.len()
        invariant
            0 <= i <= src@.len(),
            out@ == old(out)@ + src@.take(i as int),
        decreases src@.len() - i,
    {
        let c = src[i];
        out.push(c);
        proof {
            assert(old(out)@ + src@.take(i as int) + seq![c] =~= old(out)@ + src@.take(
                i + 1 as int,
            ));
        }
        i = i + 1;
    }
    proof {
        assert(src@.take(src@.len() as int) =~= src@);
    }
}

/// Appends the characters of a string slice to `out`.
pub fn push_str_chars(out: &mut Vec<char>, s: &str)
    ensures
        final(out)@ == old(out)@ + s@,
{
    let v = crate::text::str_to_chars(s);
    push_all(out, &v);
}

/// First index at or after `i` whose character is not white space, or the end
/// of `s`.
pub open spec fn skip_ws(s: Seq<char>, i: int) -> int
    decreases s.len() - i,
{
    if i < 0 || i >= s.len() {
        i
    } else if is_ws(s[i]) {
        skip_ws(s, i + 1)
    } else {
        i
    }
}

proof fn lemma_skip_ws_bounds(s: Seq<char>, i: int)
    requires
        0 <= i <= s.len(),
    ensures
        i <= skip_ws(s, i) <= s.len(),
    decreases s.len() - i,
{
    if i < s.len() && is_ws(s[i]) {
        lemma_skip_ws_bounds(s, i + 1);
    }
}

proof fn lemma_skip_ws_at(s: Seq<char>, i: int, j: int)
    requires
        0 <= i <= j <= s.len(),
        forall|m: int| i <= m < j ==> is_ws(s[m]),
        j < s.len() ==> !is_ws(s[j]),
    ensures
        skip_ws(s, i) == j,
    decreases j - i,
{
    if i < j {
        lemma_skip_ws_at(s, i + 1, j);
    }
}

/// Advances past white space.
fn skip_ws_exec(v: &Vec<char>, i: usize) -> (r: usize)
    requires
        i <= v@.len(),
    ensures
        r == skip_ws(v@, i as int),
        i <= r <= v@.len(),
{
    let mut j: usize = i;
    while j < v.len() && is_ws_exec(v[j])
        invariant
            i <= j <= v@.len(),
            forall|m: int| i <= m < j ==> is_ws(v@[m]),
        decreases v@.len() - j,
    {
        j = j + 1;
    }
    proof {
        lemma_skip_ws_at(v@, i as int, j as int);
    }
    j
}

/// End of the digit run that starts at `i`.
pub open spec fn digits_end(s: Seq<char>, i: int) -> int
    decreases s.len() - i,
{
    if i < 0 || i >= s.len() {
        i
    } else if is_digit(s[i]) {
        digits_end(s, i + 1)
    } else {
        i
    }
}

proof fn lemma_digits_end_at(s: Seq<char>, i: int, j: int)
    requires
        0 <= i <= j <= s.len(),
        forall|m: int| i <= m < j ==> is_digit(s[m]),
        j < s.len() ==> !is_digit(s[j]),
    ensures
        digits_end(s, i) == j,
    decreases j - i,
{
    if i < j {
        lemma_digits_end_at(s, i + 1, j);
    }
}

fn is_digit_exec(c: char) -> (r: bool)
    ensures
        r == is_digit(c),
{
    '0' <= c && c <= '9'
}

/// A decimal number token at `i`: its value and the index after it. Defined
/// when a digit stands at `i` and the run's value fits in a `u64`.
pub open spec fn parse_num_at(s: Seq<char>, i: int) -> Option<(u64, int)> {
    if 0 <= i < s.len() && is_digit(s[i]) {
        let j = digits_end(s, i);
        match parse_u64_spec(s.subrange(i, j)) {
            Some(v) => Some((v, j)),
            None => None,
        }
    } else {
        None
    }
}

proof fn lemma_parse_num_bounds(s: Seq<char>, i: int)
    requires
        parse_num_at(s, i) is Some,
    ensures
        i < parse_num_at(s, i)->Some_0.1 <= s.len(),
{
    lemma_digits_end_bounds(s, i);
    if parse_u64_spec(s.subrange(i, digits_end(s, i))) is Some {
        if digits_end(s, i) == i {
            assert(s.subrange(i, i).len() == 0);
        }
    }
}

proof fn lemma_digits_end_bounds(s: Seq<char>, i: int)
    requires
        0 <= i <= s.len(),
    ensures
        i <= digits_end(s, i) <= s.len(),
        0 <= i < s.len() && is_digit(s[i]) ==> digits_end(s, i) > i,
    decreases s.len() - i,
{
    if i < s.len() && is_digit(s[i]) {
        lemma_digits_end_bounds(s, i + 1);
    }
}

fn parse_num_at_exec(v: &Vec<char>, i: usize) -> (r: Option<(u64, usize)>)
    requires
        i <= v@.len(),
    ensures
        match r {
            Some((x, n)) => parse_num_at(v@, i as int) == Some((x, n as int)) && i < n <= v@.len(),
            None => parse_num_at(v@, i as int) is None,
        },
{
    if i >= v.len() {
        return None;
    }
    let c = v[i];
    if !('0' <= c && c <= '9') {
        return None;
    }
    let mut j: usize = i;
    while j < v.len() && is_digit_exec(v[j])
        invariant
            i <= j <= v@.len(),
            forall|m: int| i <= m < j ==> is_digit(v@[m]),
        decreases v@.len() - j,
    {
        j = j + 1;
    }
    proof {
        lemma_digits_end_at(v@, i as int, j as int);
    }
    match crate::text::parse_u64_range(v, i, j) {
        Some(x) => Some((x, j)),
        None => None,
    }
}

/// The character an escape letter stands for, for the escapes this reader
/// knows.
pub open spec fn unescaped(e: char) -> Option<char> {
    if e == '"' {
        Some('"')
    } else if e == '\\' {
        Some('\\')
    } else if e == '/' {
        Some('/')
    } else if e == 'n' {
        Some('\n')
    } else if e == 't' {
        Some('\t')
    } else if e == 'r' {
        Some('\r')
    } else if e == 'b' {
        Some('\u{08}')
    } else if e == 'f' {
        Some('\u{0c}')
    } else {
        None
    }
}

fn unescaped_exec(e: char) -> (r: Option<char>)
    ensures
        r == unescaped(e),
{
    match e {
        '"' => Some('"'),
        '\\' => Some('\\'),
        '/' => Some('/'),
        'n' => Some('\n'),
        't' => Some('\t'),
        'r' => Some('\r'),
        'b' => Some('\u{08}'),
        'f' => Some('\u{0c}'),
        _ => None,
    }
}

/// Relies on `char::from_u32` of core: it yields the character of a code
/// point, and nothing for a surrogate or a value beyond the last code point.
pub assume_specification[ char::from_u32 ](v: u32) -> (r: Option<char>)
    ensures
        r is Some <==> (v < 0xD800 || (0xDFFF < v && v <= 0x10FFFF)),
        r is Some ==> r->Some_0 as u32 == v,
;

/// The value of a hexadecimal digit, or 16 for any other character.
pub open spec fn hex_val(c: char) -> int {
    if is_digit(c) {
        crate::text::digit_val(c)
    } else if 'a' <= c && c <= 'f' {
        10 + (c as int - 'a' as int)
    } else if 'A' <= c && c <= 'F' {
        10 + (c as int - 'A' as int)
    } else {
        16
    }
}

/// Whether four hexadecimal digits stand at `i`.
pub open spec fn is_hex4(s: Seq<char>, i: int) -> bool {
    &&& 0 <= i
    &&& i + 4 <= s.len()
    &&& hex_val(s[i]) < 16
    &&& hex_val(s[i + 1]) < 16
    &&& hex_val(s[i + 2]) < 16
    &&& hex_val(s[i + 3]) < 16
}

/// The character whose code point is `v`: the one character whose numeric
/// value is `v`, defined for every valid code point.
pub open spec fn code_char(v: int) -> char {
    choose|c: char| (#[trigger] (c as u32)) == v
}

proof fn lemma_code_char_unique(c: char, v: u32)
    requires
        c as u32 == v,
    ensures
        code_char(v as int) == c,
{
    assert(exists|c2: char| (#[trigger] (c2 as u32)) == v as int) by {
        assert((c as u32) == v as int);
    }
    let c0 = code_char(v as int);
    assert((c0 as u32) == v as int);
    assert(c0 as u32 == c as u32);
    assert(c0 == c);
}

/// The value of the four hexadecimal digits at `i`.
pub open spec fn hex4_val(s: Seq<char>, i: int) -> int {
    hex_val(s[i]) * 0x1000 + hex_val(s[i + 1]) * 0x100 + hex_val(s[i + 2]) * 0x10 + hex_val(
        s[i + 3],
    )
}

/// The content of a JSON string whose opening quote stands just before `i`:
/// the unescaped text and the index after the closing quote. A `\uXXXX`
/// escape yields its code point, a surrogate pair the code point it encodes;
/// an unterminated string, an unknown escape or a lone surrogate is a
/// failure.
pub open spec fn parse_str_body(s: Seq<char>, i: int) -> Option<(Seq<char>, int)>
    decreases s.len() - i,
{
    if i < 0 || i >= s.len() {
        None
    } else if s[i] == '"' {
        Some((Seq::empty(), i + 1))
    } else if s[i] == '\\' {
        if i + 1 >= s.len() {
            None
        } else if s[i + 1] == 'u' {
            if is_hex4(s, i + 2) {
                let va = hex4_val(s, i + 2);
                if 0xD800 <= va && va < 0xDC00 {
                    if i + 8 <= s.len() && s[i + 6] == '\\' && s[i + 7] == 'u' && is_hex4(
                        s,
                        i + 8,
                    ) {
                        let vb = hex4_val(s, i + 8);
                        if 0xDC00 <= vb && vb < 0xE000 {
                            let cp = 0x10000 + (va - 0xD800) * 0x400 + (vb - 0xDC00);
                            match parse_str_body(s, i + 12) {
                                Some((t, n)) => Some((seq![code_char(cp)] + t, n)),
                                None => None,
                            }
                        } else {
                            None
                        }
                    } else {
                        None
                    }
                } else if 0xDC00 <= va && va < 0xE000 {
                    None
                } else {
                    match parse_str_body(s, i + 6) {
                        Some((t, n)) => Some((seq![code_char(va)] + t, n)),
                        None => None,
                    }
                }
            } else {
                None
            }
        } else {
            match unescaped(s[i + 1]) {
                Some(c) => match parse_str_body(s, i + 2) {
                    Some((t, n)) => Some((seq![c] + t, n)),
                    None => None,
                },
                None => None,
            }
        }
    } else {
        match parse_str_body(s, i + 1) {
            Some((t, n)) => Some((seq![s[i]] + t, n)),
            None => None,
        }
    }
}

proof fn lemma_parse_str_body_bounds(s: Seq<char>, i: int)
    requires
        parse_str_body(s, i) is Some,
    ensures
        i < parse_str_body(s, i)->Some_0.1 <= s.len(),
    decreases s.len() - i,
{
    if 0 <= i < s.len() {
        if s[i] == '"' {
        } else if s[i] == '\\' {
            if i + 1 < s.len() && s[i + 1] == 'u' {
                if is_hex4(s, i + 2) {
                    let va = hex4_val(s, i + 2);
                    if 0xD800 <= va && va < 0xDC00 {
                        if parse_str_body(s, i + 12) is Some {
                            lemma_parse_str_body_bounds(s, i + 12);
                        }
                    } else if parse_str_body(s, i + 6) is Some {
                        lemma_parse_str_body_bounds(s, i + 6);
                    }
                }
            } else if i + 1 < s.len() && unescaped(s[i + 1]) is Some {
                lemma_parse_str_body_bounds(s, i + 2);
            }
        } else {
            lemma_parse_str_body_bounds(s, i + 1);
        }
    }
}


fn hex_val_exec(c: char) -> (r: u8)
    ensures
        r as int == hex_val(c),
{
    if '0' <= c && c <= '9' {
        ((c as u32) - ('0' as u32)) as u8
    } else if 'a' <= c && c <= 'f' {
        (10 + ((c as u32) - ('a' as u32))) as u8
    } else if 'A' <= c && c <= 'F' {
        (10 + ((c as u32) - ('A' as u32))) as u8
    } else {
        16
    }
}

/// Reads four hexadecimal digits at `i`.
fn hex4_exec(v: &Vec<char>, i: usize) -> (r: Option<u32>)
    requires
        i <= v@.len(),
    ensures
        match r {
            Some(x) => is_hex4(v@, i as int) && x == hex4_val(v@, i as int) && x < 0x10000,
            None => !is_hex4(v@, i as int),
        },
{
    if v.len() - i < 4 {
        return None;
    }
    let a = hex_val_exec(v[i]);
    let b = hex_val_exec(v[i + 1]);
    let c = hex_val_exec(v[i + 2]);
    let d = hex_val_exec(v[i + 3]);
    if a == 16 || b == 16 || c == 16 || d == 16 {
        return None;
    }
    Some((a as u32) * 0x1000 + (b as u32) * 0x100 + (c as u32) * 0x10 + (d as u32))
}

fn parse_str_body_exec(v: &Vec<char>, i: usize) -> (r: Option<(Vec<char>, usize)>)
    requires
        i <= v@.len(),
    ensures
        match r {
            Some(p) => parse_str_body(v@, i as int) == Some((p.0@, p.1 as int)) && i < p.1
                <= v@.len(),
            None => parse_str_body(v@, i as int) is None,
        },
{
    let mut acc: Vec<char> = Vec::new();
    let mut j: usize = i;
    loop
        invariant
            i <= j <= v@.len(),
            parse_str_body(v@, i as int) == match parse_str_body(v@, j as int) {
                Some((t, n)) => Some((acc@ + t, n)),
                None => None::<(Seq<char>, int)>,
            },
        decreases v@.len() - j,
    {
        if j >= v.len() {
            return None;
        }
        let c = v[j];
        if c == '"' {
            proof {
                assert(acc@ + Seq::<char>::empty() =~= acc@);
            }
            return Some((acc, j + 1));
        } else if c == '\\' {
            if j + 1 >= v.len() {
                return None;
            }
            if v[j + 1] == 'u' {
                let va = match hex4_exec(v, j + 2) {
                    Some(x) => x,
                    None => {
                        return None;
                    },
                };
                if 0xD800 <= va && va < 0xDC00 {
                    if v.len() - j < 8 || v[j + 6] != '\\' || v[j + 7] != 'u' {
                        return None;
                    }
                    let vb = match hex4_exec(v, j + 8) {
                        Some(x) => x,
                        None => {
                            return None;
                        },
                    };
                    if !(0xDC00 <= vb && vb < 0xE000) {
                        return None;
                    }
                    let cp: u32 = 0x10000 + (va - 0xD800) * 0x400 + (vb - 0xDC00);
                    let ch = match char::from_u32(cp) {
                        Some(ch) => ch,
                        None => vstd::pervasive::unreached(),
                    };
                    proof {
                        lemma_code_char_unique(ch, cp);
                        let rest = parse_str_body(v@, j + 12 as int);
                        if rest is Some {
                            assert(acc@ + (seq![ch] + rest->Some_0.0) =~= acc@.push(ch)
                                + rest->Some_0.0);
                        }
                    }
                    acc.push(ch);
                    j = j + 12;
                } else if 0xDC00 <= va && va < 0xE000 {
                    return None;
                } else {
                    let ch = match char::from_u32(va) {
                        Some(ch) => ch,
                        None => vstd::pervasive::unreached(),
                    };
                    proof {
                        lemma_code_char_unique(ch, va);
                        let rest = parse_str_body(v@, j + 6 as int);
                        if rest is Some {
                            assert(acc@ + (seq![ch] + rest->Some_0.0) =~= acc@.push(ch)
                                + rest->Some_0.0);
                        }
                    }
                    acc.push(ch);
                    j = j + 6;
                }
            } else {
                match unescaped_exec(v[j + 1]) {
                    Some(u) => {
                        proof {
                            let rest = parse_str_body(v@, j + 2 as int);
                            if rest is Some {
                                assert(acc@ + (seq![u] + rest->Some_0.0) =~= acc@.push(u)
                                    + rest->Some_0.0);
                            }
                        }
                        acc.push(u);
                        j = j + 2;
                    },
                    None => {
                        return None;
                    },
                }
            }
        } else {
            proof {
                let rest = parse_str_body(v@, j + 1 as int);
                if rest is Some {
                    assert(acc@ + (seq![c] + rest->Some_0.0) =~= acc@.push(c) + rest->Some_0.0);
                }
            }
            acc.push(c);
            j = j + 1;
        }
    }
}

/// Character-for-character equality of two character vectors.
fn eq_chars(a: &Vec<char>, b: &Vec<char>) -> (r: bool)
    ensures
        r == (a@ == b@),
{
    let n = a.len();
    if n != b.len() {
        return false;
    }
    let mut j: usize = 0;
    while j < n
        invariant
            0 <= j <= n,
            n == a@.len(),
            n == b@.len(),
            forall|m: int| 0 <= m < j ==> a@[m] == b@[m],
        decreases n - j,
    {
        if a[j] != b[j] {
            return false;
        }
        j = j + 1;
    }
    proof {
        assert(a@ =~= b@);
    }
    true
}

/// The `id` member key.
pub open spec fn key_id() -> Seq<char> {
    seq!['i', 'd']
}

/// The `translated_text` member key.
pub open spec fn key_text() -> Seq<char> {
    seq!['t', 'r', 'a', 'n', 's', 'l', 'a', 't', 'e', 'd', '_', 't', 'e', 'x', 't']
}

/// The `remove_ids` member key.
pub open spec fn key_remove() -> Seq<char> {
    seq!['r', 'e', 'm', 'o', 'v', 'e', '_', 'i', 'd', 's']
}

fn key_id_exec() -> (r: Vec<char>)
    ensures
        r@ == key_id(),
{
    let r = vec!['i', 'd'];
    proof {
        assert(r@ =~= key_id());
    }
    r
}

fn key_text_exec() -> (r: Vec<char>)
    ensures
        r@ == key_text(),
{
    let r = vec!['t', 'r', 'a', 'n', 's', 'l', 'a', 't', 'e', 'd', '_', 't', 'e', 'x', 't'];
    proof {
        assert(r@ =~= key_text());
    }
    r
}

fn key_remove_exec() -> (r: Vec<char>)
    ensures
        r@ == key_remove(),
{
    let r = vec!['r', 'e', 'm', 'o', 'v', 'e', '_', 'i', 'd', 's'];
    proof {
        assert(r@ =~= key_remove());
    }
    r
}

/// A character that can stand in an unquoted JSON scalar: digits and letters
/// (numbers, exponents, `true`, `false`, `null`), sign and dot.
pub open spec fn atom_char(c: char) -> bool {
    is_digit(c) || ('a' <= c && c <= 'z') || ('A' <= c && c <= 'Z') || c == '+' || c == '-' || c
        == '.'
}

fn atom_char_exec(c: char) -> (r: bool)
    ensures
        r == atom_char(c),
{
    ('0' <= c && c <= '9') || ('a' <= c && c <= 'z') || ('A' <= c && c <= 'Z') || c == '+' || c
        == '-' || c == '.'
}

/// End of the scalar-token run that starts at `i`.
pub open spec fn atom_end(s: Seq<char>, i: int) -> int
    decreases s.len() - i,
{
    if i < 0 || i >= s.len() {
        i
    } else if atom_char(s[i]) {
        atom_end(s, i + 1)
    } else {
        i
    }
}

proof fn lemma_atom_end_at(s: Seq<char>, i: int, j: int)
    requires
        0 <= i <= j <= s.len(),
        forall|m: int| i <= m < j ==> atom_char(s[m]),
        j < s.len() ==> !atom_char(s[j]),
    ensures
        atom_end(s, i) == j,
    decreases j - i,
{
    if i < j {
        lemma_atom_end_at(s, i + 1, j);
    }
}

proof fn lemma_atom_end_bounds(s: Seq<char>, i: int)
    requires
        0 <= i <= s.len(),
    ensures
        i <= atom_end(s, i) <= s.len(),
        0 <= i < s.len() && atom_char(s[i]) ==> atom_end(s, i) > i,
    decreases s.len() - i,
{
    if i < s.len() && atom_char(s[i]) {
        lemma_atom_end_bounds(s, i + 1);
    }
}

/// Consumes the remainder of a composite value whose `depth` brackets are
/// still open: brackets of either kind count nesting, strings are skipped
/// whole (so brackets inside them do not count), every other character is
/// consumed as it stands. Yields the index after the bracket that closes the
/// value, or nothing for an unterminated composite or an unreadable string.
pub open spec fn skip_composite(s: Seq<char>, i: int, depth: int) -> Option<int>
    decreases s.len() - i,
    when 0 <= i <= s.len()
    via skip_composite_dec
{
    if depth <= 0 {
        Some(i)
    } else if i >= s.len() {
        None
    } else if s[i] == '"' {
        match parse_str_body(s, i + 1) {
            Some((t, n)) => skip_composite(s, n, depth),
            None => None,
        }
    } else if s[i] == '{' || s[i] == '[' {
        skip_composite(s, i + 1, depth + 1)
    } else if s[i] == '}' || s[i] == ']' {
        skip_composite(s, i + 1, depth - 1)
    } else {
        skip_composite(s, i + 1, depth)
    }
}

#[via_fn]
proof fn skip_composite_dec(s: Seq<char>, i: int, depth: int) {
    if depth > 0 && 0 <= i < s.len() && s[i] == '"' && parse_str_body(s, i + 1) is Some {
        lemma_parse_str_body_bounds(s, i + 1);
    }
}

proof fn lemma_skip_composite_bounds(s: Seq<char>, i: int, depth: int)
    requires
        0 <= i <= s.len(),
        skip_composite(s, i, depth) is Some,
    ensures
        i <= skip_composite(s, i, depth)->Some_0 <= s.len(),
    decreases s.len() - i,
{
    if depth <= 0 {
    } else if i < s.len() {
        if s[i] == '"' {
            if parse_str_body(s, i + 1) is Some {
                lemma_parse_str_body_bounds(s, i + 1);
                let n = parse_str_body(s, i + 1)->Some_0.1;
                lemma_skip_composite_bounds(s, n, depth);
            }
        } else if s[i] == '{' || s[i] == '[' {
            lemma_skip_composite_bounds(s, i + 1, depth + 1);
        } else if s[i] == '}' || s[i] == ']' {
            lemma_skip_composite_bounds(s, i + 1, depth - 1);
        } else {
            lemma_skip_composite_bounds(s, i + 1, depth);
        }
    }
}

/// The index after one JSON value starting at `i` (a non-white-space
/// position): a string, a composite, or a scalar token. Members the reply
/// shapes do not know are skipped with this, as a deserializer that ignores
/// unknown fields would.
pub open spec fn skip_value(s: Seq<char>, i: int) -> Option<int> {
    if 0 <= i < s.len() {
        if s[i] == '"' {
            match parse_str_body(s, i + 1) {
                Some((t, n)) => Some(n),
                None => None,
            }
        } else if s[i] == '{' || s[i] == '[' {
            skip_composite(s, i + 1, 1)
        } else if atom_char(s[i]) {
            Some(atom_end(s, i))
        } else {
            None
        }
    } else {
        None
    }
}

proof fn lemma_skip_value_bounds(s: Seq<char>, i: int)
    requires
        0 <= i <= s.len(),
        skip_value(s, i) is Some,
    ensures
        i < skip_value(s, i)->Some_0 <= s.len(),
{
    if i < s.len() {
        if s[i] == '"' {
            lemma_parse_str_body_bounds(s, i + 1);
        } else if s[i] == '{' || s[i] == '[' {
            lemma_skip_composite_bounds(s, i + 1, 1);
        } else if atom_char(s[i]) {
            lemma_atom_end_bounds(s, i);
        }
    }
}

fn skip_value_exec(v: &Vec<char>, i: usize) -> (r: Option<usize>)
    requires
        i <= v@.len(),
    ensures
        match r {
            Some(n) => skip_value(v@, i as int) == Some(n as int) && i < n <= v@.len(),
            None => skip_value(v@, i as int) is None,
        },
{
    let len = v.len();
    if i >= len {
        return None;
    }
    let c0 = v[i];
    if c0 == '"' {
        match parse_str_body_exec(v, i + 1) {
            Some((_t, n)) => Some(n),
            None => None,
        }
    } else if c0 == '{' || c0 == '[' {
        let mut j: usize = i + 1;
        let mut depth: usize = 1;
        loop
            invariant
                i + 1 <= j <= len,
                len == v@.len(),
                depth <= j,
                skip_value(v@, i as int) == skip_composite(v@, j as int, depth as int),
            decreases 2 * (v@.len() - j) + depth,
        {
            if depth == 0 {
                return Some(j);
            }
            if j >= len {
                return None;
            }
            let c = v[j];
            if c == '"' {
                match parse_str_body_exec(v, j + 1) {
                    Some((_t, n)) => {
                        j = n;
                    },
                    None => {
                        return None;
                    },
                }
            } else if c == '{' || c == '[' {
                depth = depth + 1;
                j = j + 1;
            } else if c == '}' || c == ']' {
                depth = depth - 1;
                j = j + 1;
            } else {
                j = j + 1;
            }
        }
    } else if atom_char_exec(c0) {
        let mut j: usize = i;
        while j < len && atom_char_exec(v[j])
            invariant
                i <= j <= len,
                len == v@.len(),
                forall|m: int| i <= m < j ==> atom_char(v@[m]),
            decreases len - j,
        {
            j = j + 1;
        }
        proof {
            lemma_atom_end_at(v@, i as int, j as int);
        }
        Some(j)
    } else {
        None
    }
}

/// The text a ghost option of characters carries.
pub open spec fn opt_text_view(o: Option<Vec<char>>) -> Option<Seq<char>> {
    match o {
        Some(t) => Some(t@),
        None => None,
    }
}

/// The members of a reply object, starting after the opening brace or a
/// comma: the `id` and `translated_text` members may come in either order,
/// any member with another key is skipped, and a repeated known member is a
/// failure — the rules of a deserializer that ignores unknown fields.
pub open spec fn parse_obj_members(
    s: Seq<char>,
    i: int,
    id: Option<u64>,
    text: Option<Seq<char>>,
) -> Option<((u64, Seq<char>), int)>
    decreases s.len() - i,
    when 0 <= i <= s.len()
    via parse_obj_members_dec
{
    let a = skip_ws(s, i);
    if a < s.len() && s[a] == '"' {
        match parse_str_body(s, a + 1) {
            Some((key, j)) => {
                let c = skip_ws(s, j);
                if c < s.len() && s[c] == ':' {
                    let w = skip_ws(s, c + 1);
                    if key == key_id() {
                        if id is Some {
                            None
                        } else {
                            match parse_num_at(s, w) {
                                Some((x, n)) => parse_obj_tail(s, n, Some(x), text),
                                None => None,
                            }
                        }
                    } else if key == key_text() {
                        if text is Some {
                            None
                        } else {
                            if w < s.len() && s[w] == '"' {
                                match parse_str_body(s, w + 1) {
                                    Some((t, n)) => parse_obj_tail(s, n, id, Some(t)),
                                    None => None,
                                }
                            } else {
                                None
                            }
                        }
                    } else {
                        match skip_value(s, w) {
                            Some(n) => parse_obj_tail(s, n, id, text),
                            None => None,
                        }
                    }
                } else {
                    None
                }
            },
            None => None,
        }
    } else {
        None
    }
}

/// What follows one member: a comma and further members, or the closing
/// brace — at which point both known members must have been seen.
pub open spec fn parse_obj_tail(
    s: Seq<char>,
    i: int,
    id: Option<u64>,
    text: Option<Seq<char>>,
) -> Option<((u64, Seq<char>), int)>
    decreases s.len() - i,
    when 0 <= i <= s.len()
    via parse_obj_tail_dec
{
    let k = skip_ws(s, i);
    if k < s.len() && s[k] == ',' {
        parse_obj_members(s, k + 1, id, text)
    } else if k < s.len() && s[k] == '}' {
        match (id, text) {
            (Some(x), Some(t)) => Some(((x, t), k + 1)),
            _ => None,
        }
    } else {
        None
    }
}

#[via_fn]
proof fn parse_obj_members_dec(s: Seq<char>, i: int, id: Option<u64>, text: Option<Seq<char>>) {
    lemma_skip_ws_bounds(s, i);
    let a = skip_ws(s, i);
    if a < s.len() && s[a] == '"' && parse_str_body(s, a + 1) is Some {
        lemma_parse_str_body_bounds(s, a + 1);
        let j = parse_str_body(s, a + 1)->Some_0.1;
        lemma_skip_ws_bounds(s, j);
        let c = skip_ws(s, j);
        if c < s.len() && s[c] == ':' {
            lemma_skip_ws_bounds(s, c + 1);
            let w = skip_ws(s, c + 1);
            if parse_num_at(s, w) is Some {
                lemma_parse_num_bounds(s, w);
            }
            if w < s.len() && s[w] == '"' && parse_str_body(s, w + 1) is Some {
                lemma_parse_str_body_bounds(s, w + 1);
            }
            if skip_value(s, w) is Some {
                lemma_skip_value_bounds(s, w);
            }
        }
    }
}

#[via_fn]
proof fn parse_obj_tail_dec(s: Seq<char>, i: int, id: Option<u64>, text: Option<Seq<char>>) {
    lemma_skip_ws_bounds(s, i);
}

proof fn lemma_parse_obj_members_bounds(
    s: Seq<char>,
    i: int,
    id: Option<u64>,
    text: Option<Seq<char>>,
)
    requires
        0 <= i <= s.len(),
        parse_obj_members(s, i, id, text) is Some,
    ensures
        i < parse_obj_members(s, i, id, text)->Some_0.1 <= s.len(),
    decreases s.len() - i,
{
    lemma_skip_ws_bounds(s, i);
    let a = skip_ws(s, i);
    lemma_parse_str_body_bounds(s, a + 1);
    let (key, j) = parse_str_body(s, a + 1)->Some_0;
    lemma_skip_ws_bounds(s, j);
    let c = skip_ws(s, j);
    lemma_skip_ws_bounds(s, c + 1);
    let w = skip_ws(s, c + 1);
    if key == key_id() {
        lemma_parse_num_bounds(s, w);
        let n = parse_num_at(s, w)->Some_0.1;
        lemma_parse_obj_tail_bounds(s, n, Some(parse_num_at(s, w)->Some_0.0), text);
    } else if key == key_text() {
        lemma_parse_str_body_bounds(s, w + 1);
        let (t, n) = parse_str_body(s, w + 1)->Some_0;
        lemma_parse_obj_tail_bounds(s, n, id, Some(t));
    } else {
        lemma_skip_value_bounds(s, w);
        let n = skip_value(s, w)->Some_0;
        lemma_parse_obj_tail_bounds(s, n, id, text);
    }
}

proof fn lemma_parse_obj_tail_bounds(s: Seq<char>, i: int, id: Option<u64>, text: Option<Seq<char>>)
    requires
        0 <= i <= s.len(),
        parse_obj_tail(s, i, id, text) is Some,
    ensures
        i < parse_obj_tail(s, i, id, text)->Some_0.1 <= s.len(),
    decreases s.len() - i,
{
    lemma_skip_ws_bounds(s, i);
    let k = skip_ws(s, i);
    if k < s.len() && s[k] == ',' {
        lemma_parse_obj_members_bounds(s, k + 1, id, text);
    }
}

/// One reply object `{"id": n, "translated_text": "..."}`: the two members
/// in either order, unknown members ignored.
pub open spec fn parse_pair_obj(s: Seq<char>, i: int) -> Option<((u64, Seq<char>), int)> {
    let a = skip_ws(s, i);
    if 0 <= a < s.len() && s[a] == '{' {
        parse_obj_members(s, a + 1, None, None)
    } else {
        None
    }
}

proof fn lemma_parse_pair_obj_bounds(s: Seq<char>, i: int)
    requires
        0 <= i <= s.len(),
        parse_pair_obj(s, i) is Some,
    ensures
        i < parse_pair_obj(s, i)->Some_0.1 <= s.len(),
{
    lemma_skip_ws_bounds(s, i);
    let a = skip_ws(s, i);
    lemma_parse_obj_members_bounds(s, a + 1, None, None);
}

fn parse_pair_obj_exec(v: &Vec<char>, i: usize) -> (r: Option<((u64, Vec<char>), usize)>)
    requires
        i <= v@.len(),
    ensures
        match r {
            Some(p) => parse_pair_obj(v@, i as int) == Some(((p.0.0, p.0.1@), p.1 as int)) && i
                < p.1 <= v@.len(),
            None => parse_pair_obj(v@, i as int) is None,
        },
{
    let kid = key_id_exec();
    let ktext = key_text_exec();
    let a = skip_ws_exec(v, i);
    if a >= v.len() || v[a] != '{' {
        return None;
    }
    let ghost target = parse_pair_obj(v@, i as int);
    let mut j: usize = a + 1;
    let mut id_found: Option<u64> = None;
    let mut text_found: Option<Vec<char>> = None;
    proof {
        assert(target == parse_obj_members(v@, j as int, id_found, opt_text_view(text_found)));
    }
    loop
        invariant
            i < j <= v@.len(),
            kid@ == key_id(),
            ktext@ == key_text(),
            parse_pair_obj(v@, i as int) == parse_obj_members(
                v@,
                j as int,
                id_found,
                opt_text_view(text_found),
            ),
        decreases v@.len() - j,
    {
        let a2 = skip_ws_exec(v, j);
        if a2 >= v.len() || v[a2] != '"' {
            return None;
        }
        let (key, j2) = match parse_str_body_exec(v, a2 + 1) {
            Some(p) => p,
            None => {
                return None;
            },
        };
        let c = skip_ws_exec(v, j2);
        if c >= v.len() || v[c] != ':' {
            return None;
        }
        let w = skip_ws_exec(v, c + 1);
        let jn: usize;
        if eq_chars(&key, &kid) {
            if id_found.is_some() {
                return None;
            }
            match parse_num_at_exec(v, w) {
                Some((x, n)) => {
                    id_found = Some(x);
                    jn = n;
                },
                None => {
                    return None;
                },
            }
        } else if eq_chars(&key, &ktext) {
            if text_found.is_some() {
                return None;
            }
            if w >= v.len() || v[w] != '"' {
                return None;
            }
            match parse_str_body_exec(v, w + 1) {
                Some((t, n)) => {
                    text_found = Some(t);
                    jn = n;
                },
                None => {
                    return None;
                },
            }
        } else {
            match skip_value_exec(v, w) {
                Some(n) => {
                    jn = n;
                },
                None => {
                    return None;
                },
            }
        }
        proof {
            assert(parse_pair_obj(v@, i as int) == parse_obj_tail(
                v@,
                jn as int,
                id_found,
                opt_text_view(text_found),
            ));
        }
        let k = skip_ws_exec(v, jn);
        if k < v.len() && v[k] == ',' {
            j = k + 1;
        } else if k < v.len() && v[k] == '}' {
            match (id_found, text_found) {
                (Some(x), Some(t)) => {
                    return Some(((x, t), k + 1));
                },
                _ => {
                    return None;
                },
            }
        } else {
            return None;
        }
    }
}

/// The view of a list of decoded id/text pairs.
pub open spec fn pairs_view(ps: Seq<(u64, Vec<char>)>) -> Seq<(u64, Seq<char>)> {
    ps.map_values(|p: (u64, Vec<char>)| (p.0, p.1@))
}

/// One or more comma-separated reply objects starting at `i`; the index
/// returned points just after the last object.
pub open spec fn parse_pair_items(s: Seq<char>, i: int) -> Option<(Seq<(u64, Seq<char>)>, int)>
    decreases s.len() - i,
    when 0 <= i <= s.len()
    via parse_pair_items_dec
{
    match parse_pair_obj(s, i) {
        Some((p, j)) => {
            let k = skip_ws(s, j);
            if k < s.len() && s[k] == ',' {
                match parse_pair_items(s, k + 1) {
                    Some((ps, m)) => Some((seq![p] + ps, m)),
                    None => None,
                }
            } else {
                Some((seq![p], j))
            }
        },
        None => None,
    }
}

#[via_fn]
proof fn parse_pair_items_dec(s: Seq<char>, i: int) {
    if parse_pair_obj(s, i) is Some {
        lemma_parse_pair_obj_bounds(s, i);
        let j = parse_pair_obj(s, i)->Some_0.1;
        lemma_skip_ws_bounds(s, j);
    }
}

proof fn lemma_parse_pair_items_bounds(s: Seq<char>, i: int)
    requires
        0 <= i <= s.len(),
        parse_pair_items(s, i) is Some,
    ensures
        i < parse_pair_items(s, i)->Some_0.1 <= s.len(),
    decreases s.len() - i,
{
    lemma_parse_pair_obj_bounds(s, i);
    let j = parse_pair_obj(s, i)->Some_0.1;
    let k = skip_ws(s, j);
    lemma_skip_ws_bounds(s, j);
    if k < s.len() && s[k] == ',' {
        lemma_parse_pair_items_bounds(s, k + 1);
    }
}

fn parse_pair_items_exec(v: &Vec<char>, i: usize) -> (r: Option<(Vec<(u64, Vec<char>)>, usize)>)
    requires
        i <= v@.len(),
    ensures
        match r {
            Some(p) => parse_pair_items(v@, i as int) == Some((pairs_view(p.0@), p.1 as int))
                && i < p.1 <= v@.len(),
            None => parse_pair_items(v@, i as int) is None,
        },
{
    let mut acc: Vec<(u64, Vec<char>)> = Vec::new();
    let mut j: usize = i;
    proof {
        assert(pairs_view(acc@) =~= Seq::<(u64, Seq<char>)>::empty());
    }
    loop
        invariant
            i <= j <= v@.len(),
            parse_pair_items(v@, i as int) == match parse_pair_items(v@, j as int) {
                Some((ps, m)) => Some((pairs_view(acc@) + ps, m)),
                None => None::<(Seq<(u64, Seq<char>)>, int)>,
            },
        decreases v@.len() - j,
    {
        match parse_pair_obj_exec(v, j) {
            Some((p, j2)) => {
                let k = skip_ws_exec(v, j2);
                if k < v.len() && v[k] == ',' {
                    proof {
                        let ghost pv = (p.0, p.1@);
                        assert(forall|ps: Seq<(u64, Seq<char>)>|
                            pairs_view(acc@).push(pv) + ps =~= pairs_view(acc@) + (seq![pv] + ps));
                        assert(pairs_view(acc@.push(p)) =~= pairs_view(acc@).push(pv));
                    }
                    acc.push(p);
                    if k + 1 > v.len() {
                        proof {
                            assert(false);
                        }
                    }
                    j = k + 1;
                } else {
                    proof {
                        let ghost pv = (p.0, p.1@);
                        assert(parse_pair_items(v@, j as int) == Some((seq![pv], j2 as int)));
                        assert(pairs_view(acc@.push(p)) =~= pairs_view(acc@) + seq![pv]);
                    }
                    acc.push(p);
                    return Some((acc, j2));
                }
            },
            None => {
                return None;
            },
        }
    }
}

/// A whole reply document that is a JSON array of reply objects, with
/// nothing but white space around it. The empty array is allowed.
pub open spec fn parse_pairs_doc(s: Seq<char>) -> Option<Seq<(u64, Seq<char>)>> {
    let a = skip_ws(s, 0);
    if 0 <= a < s.len() && s[a] == '[' {
        let b = skip_ws(s, a + 1);
        if b < s.len() && s[b] == ']' {
            if skip_ws(s, b + 1) == s.len() {
                Some(Seq::empty())
            } else {
                None
            }
        } else {
            match parse_pair_items(s, a + 1) {
                Some((ps, j)) => {
                    let k = skip_ws(s, j);
                    if k < s.len() && s[k] == ']' && skip_ws(s, k + 1) == s.len() {
                        Some(ps)
                    } else {
                        None
                    }
                },
                None => None,
            }
        }
    } else {
        None
    }
}

/// Parses a JSON array of `{"id": n, "translated_text": s}` objects.
pub fn parse_pairs_doc_exec(v: &Vec<char>) -> (r: Option<Vec<(u64, Vec<char>)>>)
    ensures
        match r {
            Some(ps) => parse_pairs_doc(v@) == Some(pairs_view(ps@)),
            None => parse_pairs_doc(v@) is None,
        },
{
    let a = skip_ws_exec(v, 0);
    if a >= v.len() || v[a] != '[' {
        return None;
    }
    let b = skip_ws_exec(v, a + 1);
    if b < v.len() && v[b] == ']' {
        if skip_ws_exec(v, b + 1) == v.len() {
            let empty: Vec<(u64, Vec<char>)> = Vec::new();
            proof {
                assert(pairs_view(empty@) =~= Seq::<(u64, Seq<char>)>::empty());
            }
            return Some(empty);
        } else {
            return None;
        }
    }
    match parse_pair_items_exec(v, a + 1) {
        Some((ps, j)) => {
            let k = skip_ws_exec(v, j);
            if k < v.len() && v[k] == ']' && skip_ws_exec(v, k + 1) == v.len() {
                Some(ps)
            } else {
                None
            }
        },
        None => None,
    }
}

/// One or more comma-separated numbers starting at `i`.
pub open spec fn parse_num_items(s: Seq<char>, i: int) -> Option<(Seq<u64>, int)>
    decreases s.len() - i,
    when 0 <= i <= s.len()
    via parse_num_items_dec
{
    let a = skip_ws(s, i);
    match parse_num_at(s, a) {
        Some((x, j)) => {
            let k = skip_ws(s, j);
            if k < s.len() && s[k] == ',' {
                match parse_num_items(s, k + 1) {
                    Some((xs, m)) => Some((seq![x] + xs, m)),
                    None => None,
                }
            } else {
                Some((seq![x], j))
            }
        },
        None => None,
    }
}

#[via_fn]
proof fn parse_num_items_dec(s: Seq<char>, i: int) {
    lemma_skip_ws_bounds(s, i);
    let a = skip_ws(s, i);
    if parse_num_at(s, a) is Some {
        lemma_parse_num_bounds(s, a);
        let j = parse_num_at(s, a)->Some_0.1;
        lemma_skip_ws_bounds(s, j);
    }
}

fn parse_num_items_exec(v: &Vec<char>, i: usize) -> (r: Option<(Vec<u64>, usize)>)
    requires
        i <= v@.len(),
    ensures
        match r {
            Some(p) => parse_num_items(v@, i as int) == Some((p.0@, p.1 as int)) && i <= p.1
                <= v@.len(),
            None => parse_num_items(v@, i as int) is None,
        },
{
    let mut acc: Vec<u64> = Vec::new();
    let mut j: usize = i;
    loop
        invariant
            i <= j <= v@.len(),
            parse_num_items(v@, i as int) == match parse_num_items(v@, j as int) {
                Some((xs, m)) => Some((acc@ + xs, m)),
                None => None::<(Seq<u64>, int)>,
            },
        decreases v@.len() - j,
    {
        let a = skip_ws_exec(v, j);
        match parse_num_at_exec(v, a) {
            Some((x, j2)) => {
                let k = skip_ws_exec(v, j2);
                if k < v.len() && v[k] == ',' {
                    proof {
                        assert(forall|xs: Seq<u64>|
                            acc@.push(x) + xs =~= acc@ + (seq![x] + xs));
                    }
                    acc.push(x);
                    j = k + 1;
                } else {
                    proof {
                        assert(acc@.push(x) =~= acc@ + seq![x]);
                    }
                    acc.push(x);
                    return Some((acc, j2));
                }
            },
            None => {
                return None;
            },
        }
    }
}

/// A bracketed list of numbers starting at `i`; the empty list is allowed.
pub open spec fn parse_num_array(s: Seq<char>, i: int) -> Option<(Seq<u64>, int)> {
    if 0 <= i < s.len() && s[i] == '[' {
        let e = skip_ws(s, i + 1);
        if e < s.len() && s[e] == ']' {
            Some((Seq::empty(), e + 1))
        } else {
            match parse_num_items(s, i + 1) {
                Some((xs, j)) => {
                    let k = skip_ws(s, j);
                    if k < s.len() && s[k] == ']' {
                        Some((xs, k + 1))
                    } else {
                        None
                    }
                },
                None => None,
            }
        }
    } else {
        None
    }
}

proof fn lemma_parse_num_items_bounds(s: Seq<char>, i: int)
    requires
        0 <= i <= s.len(),
        parse_num_items(s, i) is Some,
    ensures
        i < parse_num_items(s, i)->Some_0.1 <= s.len(),
    decreases s.len() - i,
{
    lemma_skip_ws_bounds(s, i);
    let a = skip_ws(s, i);
    lemma_parse_num_bounds(s, a);
    let j = parse_num_at(s, a)->Some_0.1;
    lemma_skip_ws_bounds(s, j);
    let k = skip_ws(s, j);
    if k < s.len() && s[k] == ',' {
        lemma_parse_num_items_bounds(s, k + 1);
    }
}

proof fn lemma_parse_num_array_bounds(s: Seq<char>, i: int)
    requires
        0 <= i <= s.len(),
        parse_num_array(s, i) is Some,
    ensures
        i < parse_num_array(s, i)->Some_0.1 <= s.len(),
{
    lemma_skip_ws_bounds(s, i + 1);
    let e = skip_ws(s, i + 1);
    if !(e < s.len() && s[e] == ']') {
        lemma_parse_num_items_bounds(s, i + 1);
        let j = parse_num_items(s, i + 1)->Some_0.1;
        lemma_skip_ws_bounds(s, j);
    }
}

fn parse_num_array_exec(v: &Vec<char>, i: usize) -> (r: Option<(Vec<u64>, usize)>)
    requires
        i <= v@.len(),
    ensures
        match r {
            Some(p) => parse_num_array(v@, i as int) == Some((p.0@, p.1 as int)) && i < p.1
                <= v@.len(),
            None => parse_num_array(v@, i as int) is None,
        },
{
    if i >= v.len() || v[i] != '[' {
        return None;
    }
    let e = skip_ws_exec(v, i + 1);
    if e < v.len() && v[e] == ']' {
        let empty: Vec<u64> = Vec::new();
        return Some((empty, e + 1));
    }
    match parse_num_items_exec(v, i + 1) {
        Some((xs, j)) => {
            let k = skip_ws_exec(v, j);
            if k < v.len() && v[k] == ']' {
                Some((xs, k + 1))
            } else {
                None
            }
        },
        None => None,
    }
}

/// The ids a ghost option of a decoded list carries.
pub open spec fn opt_ids_view(o: Option<Vec<u64>>) -> Option<Seq<u64>> {
    match o {
        Some(xs) => Some(xs@),
        None => None,
    }
}

/// The members of a filter reply object, starting after the opening brace or
/// a comma: the `remove_ids` member holds the id array, any member with
/// another key is skipped, and a repeated `remove_ids` member is a failure.
pub open spec fn parse_rm_members(s: Seq<char>, i: int, ids: Option<Seq<u64>>) -> Option<(
    Seq<u64>,
    int,
)>
    decreases s.len() - i,
    when 0 <= i <= s.len()
    via parse_rm_members_dec
{
    let a = skip_ws(s, i);
    if a < s.len() && s[a] == '"' {
        match parse_str_body(s, a + 1) {
            Some((key, j)) => {
                let c = skip_ws(s, j);
                if c < s.len() && s[c] == ':' {
                    let w = skip_ws(s, c + 1);
                    if key == key_remove() {
                        if ids is Some {
                            None
                        } else {
                            match parse_num_array(s, w) {
                                Some((xs, n)) => parse_rm_tail(s, n, Some(xs)),
                                None => None,
                            }
                        }
                    } else {
                        match skip_value(s, w) {
                            Some(n) => parse_rm_tail(s, n, ids),
                            None => None,
                        }
                    }
                } else {
                    None
                }
            },
            None => None,
        }
    } else {
        None
    }
}

/// What follows one member of a filter reply object: a comma and further
/// members, or the closing brace — at which point the ids must have been
/// seen.
pub open spec fn parse_rm_tail(s: Seq<char>, i: int, ids: Option<Seq<u64>>) -> Option<(
    Seq<u64>,
    int,
)>
    decreases s.len() - i,
    when 0 <= i <= s.len()
    via parse_rm_tail_dec
{
    let k = skip_ws(s, i);
    if k < s.len() && s[k] == ',' {
        parse_rm_members(s, k + 1, ids)
    } else if k < s.len() && s[k] == '}' {
        match ids {
            Some(xs) => Some((xs, k + 1)),
            None => None,
        }
    } else {
        None
    }
}

#[via_fn]
proof fn parse_rm_members_dec(s: Seq<char>, i: int, ids: Option<Seq<u64>>) {
    lemma_skip_ws_bounds(s, i);
    let a = skip_ws(s, i);
    if a < s.len() && s[a] == '"' && parse_str_body(s, a + 1) is Some {
        lemma_parse_str_body_bounds(s, a + 1);
        let j = parse_str_body(s, a + 1)->Some_0.1;
        lemma_skip_ws_bounds(s, j);
        let c = skip_ws(s, j);
        if c < s.len() && s[c] == ':' {
            lemma_skip_ws_bounds(s, c + 1);
            let w = skip_ws(s, c + 1);
            if parse_num_array(s, w) is Some {
                lemma_parse_num_array_bounds(s, w);
            }
            if skip_value(s, w) is Some {
                lemma_skip_value_bounds(s, w);
            }
        }
    }
}

#[via_fn]
proof fn parse_rm_tail_dec(s: Seq<char>, i: int, ids: Option<Seq<u64>>) {
    lemma_skip_ws_bounds(s, i);
}

/// A whole filter reply document: a JSON object whose `remove_ids` member
/// holds the ids, with nothing but white space around it; unknown members
/// are ignored.
pub open spec fn parse_remove_ids_doc(s: Seq<char>) -> Option<Seq<u64>> {
    let a = skip_ws(s, 0);
    if 0 <= a < s.len() && s[a] == '{' {
        match parse_rm_members(s, a + 1, None) {
            Some((xs, n)) => if skip_ws(s, n) == s.len() {
                Some(xs)
            } else {
                None
            },
            None => None,
        }
    } else {
        None
    }
}

/// Parses a `{"remove_ids": [...]}` reply.
pub fn parse_remove_ids_doc_exec(v: &Vec<char>) -> (r: Option<Vec<u64>>)
    ensures
        match r {
            Some(xs) => parse_remove_ids_doc(v@) == Some(xs@),
            None => parse_remove_ids_doc(v@) is None,
        },
{
    let krm = key_remove_exec();
    let a = skip_ws_exec(v, 0);
    if a >= v.len() || v[a] != '{' {
        return None;
    }
    let mut j: usize = a + 1;
    let mut ids_found: Option<Vec<u64>> = None;
    proof {
        assert(parse_remove_ids_doc(v@) == (match parse_rm_members(
            v@,
            j as int,
            opt_ids_view(ids_found),
        ) {
            Some((xs, n)) => if skip_ws(v@, n) == v@.len() {
                Some(xs)
            } else {
                None::<Seq<u64>>
            },
            None => None::<Seq<u64>>,
        }));
    }
    loop
        invariant
            0 < j <= v@.len(),
            krm@ == key_remove(),
            parse_remove_ids_doc(v@) == (match parse_rm_members(
                v@,
                j as int,
                opt_ids_view(ids_found),
            ) {
                Some((xs, n)) => if skip_ws(v@, n) == v@.len() {
                    Some(xs)
                } else {
                    None::<Seq<u64>>
                },
                None => None::<Seq<u64>>,
            }),
        decreases v@.len() - j,
    {
        let a2 = skip_ws_exec(v, j);
        if a2 >= v.len() || v[a2] != '"' {
            return None;
        }
        let (key, j2) = match parse_str_body_exec(v, a2 + 1) {
            Some(p) => p,
            None => {
                return None;
            },
        };
        let c = skip_ws_exec(v, j2);
        if c >= v.len() || v[c] != ':' {
            return None;
        }
        let w = skip_ws_exec(v, c + 1);
        let jn: usize;
        if eq_chars(&key, &krm) {
            if ids_found.is_some() {
                return None;
            }
            match parse_num_array_exec(v, w) {
                Some((xs, n)) => {
                    ids_found = Some(xs);
                    jn = n;
                },
                None => {
                    return None;
                },
            }
        } else {
            match skip_value_exec(v, w) {
                Some(n) => {
                    jn = n;
                },
                None => {
                    return None;
                },
            }
        }
        let k = skip_ws_exec(v, jn);
        if k < v.len() && v[k] == ',' {
            j = k + 1;
        } else if k < v.len() && v[k] == '}' {
            match ids_found {
                Some(xs) => {
                    if skip_ws_exec(v, k + 1) == v.len() {
                        return Some(xs);
                    } else {
                        return None;
                    }
                },
                None => {
                    return None;
                },
            }
        } else {
            return None;
        }
    }
}

} // verus!

