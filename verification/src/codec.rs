//! The batch protocol codec: four interchangeable ways to encode a window of
//! items into a request payload and to decode the model's reply back into
//! window-local `{id, text}` pairs.
//!
//! Decoding is tolerant: code fences are stripped first, a reply that cannot
//! be parsed at all is a recoverable failure (`None`), and the stages fall
//! back per item — a missing id resolves to a caller-chosen text, never to an
//! abort.

use vstd::prelude::*;
use crate::segment::{BatchItem, BatchTranslationResponse};
use crate::text::{
    trim_spec, trim_chars, strip_prefix_rep, strip_suffix_rep, strip_prefix_rep_chars,
    strip_suffix_rep_chars, lines_spec, split_lines, parse_u64_spec, parse_u64_range,
    subrange_chars, str_to_chars, string_from_chars,
};
use crate::json::{parse_pairs_doc, parse_pairs_doc_exec, pairs_view};

verus! {

/// How a window is encoded for the model and how the reply is read back.
#[derive(Clone, Copy, PartialEq, Eq, Structural, Debug)]
pub enum Codec {
    /// A JSON array of reply objects, with the schema enforced server-side.
    SchemaJson,
    /// A best-effort JSON array of reply objects, no server-side schema.
    BestEffortJson,
    /// One line per item, each prefixed with its bracketed id.
    TaggedLines,
    /// One line per item, relying on line order alone.
    PositionalLines,
}

pub open spec fn fence() -> Seq<char> {
    seq!['`', '`', '`']
}

pub open spec fn fence_json() -> Seq<char> {
    seq!['`', '`', '`', 'j', 's', 'o', 'n']
}

/// A reply with white space and Markdown code-fence wrappers stripped, the
/// form every decoder parses.
pub open spec fn cleaned(s: Seq<char>) -> Seq<char> {
    trim_spec(
        strip_suffix_rep(
            strip_prefix_rep(strip_prefix_rep(trim_spec(s), fence_json()), fence()),
            fence(),
        ),
    )
}

/// Strips white space and code fences from a reply.
pub fn clean_reply(v: &Vec<char>) -> (r: Vec<char>)
    ensures
        r@ == cleaned(v@),
{
    let fj: Vec<char> = vec!['`', '`', '`', 'j', 's', 'o', 'n'];
    let f: Vec<char> = vec!['`', '`', '`'];
    proof {
        assert(fj@ =~= fence_json());
        assert(f@ =~= fence());
    }
    let t = trim_chars(v);
    let a = strip_prefix_rep_chars(&t, &fj);
    let b = strip_prefix_rep_chars(&a, &f);
    let c = strip_suffix_rep_chars(&b, &f);
    trim_chars(&c)
}

/// First index of `c` in `s`, or `s.len()` if it does not occur.
pub open spec fn find_char(s: Seq<char>, c: char) -> int
    decreases s.len(),
{
    if s.len() == 0 {
        0
    } else if s[0] == c {
        0
    } else {
        1 + find_char(s.drop_first(), c)
    }
}

proof fn lemma_find_char_at(s: Seq<char>, c: char, k: int)
    requires
        0 <= k <= s.len(),
        forall|j: int| 0 <= j < k ==> s[j] != c,
        k < s.len() ==> s[k] == c,
    ensures
        find_char(s, c) == k,
    decreases k,
{
    if s.len() == 0 {
    } else if k == 0 {
    } else {
        let t = s.drop_first();
        assert(forall|j: int| 0 <= j < k - 1 ==> #[trigger] t[j] == s[j + 1]);
        lemma_find_char_at(t, c, k - 1);
    }
}

/// Finds the first `c` at or after `from`, or `v.len()`.
pub fn find_char_from(v: &Vec<char>, c: char, from: usize) -> (r: usize)
    requires
        from <= v@.len(),
    ensures
        from <= r <= v@.len(),
        r - from == find_char(v@.skip(from as int), c),
        r < v@.len() ==> v@[r as int] == c,
{
    let n = v.len();
    let mut j: usize = from;
    while j < n && v[j] != c
        invariant
            from <= j <= n,
            n == v@.len(),
            forall|m: int| from <= m < j ==> v@[m] != c,
        decreases n - j,
    {
        j = j + 1;
    }
    proof {
        let t = v@.skip(from as int);
        assert(forall|m: int| 0 <= m < j - from ==> #[trigger] t[m] == v@[m + from] && t[m] != c);
        if j < n {
            assert(t[j - from] == c);
        }
        lemma_find_char_at(t, c, j - from);
    }
    j
}

/// What one tagged line decodes to: the id between the first bracket pair and
/// the trimmed text after it, or nothing when the line carries no readable
/// id.
pub open spec fn parse_tagged_line(l: Seq<char>) -> Option<(u64, Seq<char>)> {
    let k1 = find_char(l, '[');
    if k1 < l.len() {
        let k2 = k1 + 1 + find_char(l.skip(k1 + 1), ']');
        if k2 < l.len() {
            match parse_u64_spec(l.subrange(k1 + 1, k2)) {
                Some(id) => Some((id, trim_spec(l.skip(k2 + 1)))),
                None => None,
            }
        } else {
            None
        }
    } else {
        None
    }
}

fn parse_tagged_line_exec(l: &Vec<char>) -> (r: Option<(u64, Vec<char>)>)
    ensures
        match r {
            Some(p) => parse_tagged_line(l@) == Some((p.0, p.1@)),
            None => parse_tagged_line(l@) is None,
        },
{
    let n = l.len();
    let k1 = find_char_from(l, '[', 0);
    proof {
        assert(l@.skip(0) =~= l@);
    }
    if k1 >= n {
        return None;
    }
    let k2 = find_char_from(l, ']', k1 + 1);
    proof {
        assert(k2 - (k1 + 1) == find_char(l@.skip(k1 + 1 as int), ']'));
    }
    if k2 >= n {
        return None;
    }
    match parse_u64_range(l, k1 + 1, k2) {
        Some(id) => {
            let rest = subrange_chars(l, k2 + 1, n);
            proof {
                assert(rest@ =~= l@.skip(k2 + 1 as int));
            }
            let text = trim_chars(&rest);
            Some((id, text))
        },
        None => None,
    }
}

/// The id/text pairs of a tagged-lines reply, in line order; lines without a
/// readable id contribute nothing.
pub open spec fn tagged_pairs(ls: Seq<Seq<char>>) -> Seq<(u64, Seq<char>)>
    decreases ls.len(),
{
    if ls.len() == 0 {
        Seq::empty()
    } else {
        tagged_pairs(ls.drop_last()) + (match parse_tagged_line(ls.last()) {
            Some(p) => seq![p],
            None => Seq::empty(),
        })
    }
}

/// The id/text pairs of a positional reply: line `i` is the text of id `i`,
/// trimmed.
pub open spec fn positional_pairs(ls: Seq<Seq<char>>) -> Seq<(u64, Seq<char>)> {
    Seq::new(ls.len(), |i: int| (i as u64, trim_spec(ls[i])))
}

/// The decoded id/text pairs of a raw reply under a codec; `None` is a total
/// decode failure, possible only for the JSON strategies.
pub open spec fn decoded_pairs(codec: Codec, reply: Seq<char>) -> Option<Seq<(u64, Seq<char>)>> {
    match codec {
        Codec::SchemaJson => parse_pairs_doc(cleaned(reply)),
        Codec::BestEffortJson => parse_pairs_doc(cleaned(reply)),
        Codec::TaggedLines => Some(tagged_pairs(lines_spec(cleaned(reply)))),
        Codec::PositionalLines => Some(positional_pairs(lines_spec(cleaned(reply)))),
    }
}

/// Decodes a reply into id/text pairs.
pub fn decode_reply(codec: Codec, reply: &str) -> (r: Option<Vec<(u64, String)>>)
    ensures
        match r {
            Some(ps) => decoded_pairs(codec, reply@) == Some(str_pairs_view(ps@)),
            None => decoded_pairs(codec, reply@) is None,
        },
{
    let chars = str_to_chars(reply);
    match decode_reply_chars(codec, &chars) {
        Some(ps) => {
            let mut out: Vec<(u64, String)> = Vec::new();
            let mut i: usize = 0;
            while i < ps.len()
                invariant
                    0 <= i <= ps@.len(),
                    out@.len() == i,
                    forall|j: int|
                        0 <= j < i ==> out@[j].0 == ps@[j].0 && out@[j].1@ == ps@[j].1@,
                decreases ps@.len() - i,
            {
                let id = ps[i].0;
                let text = string_from_chars(&ps[i].1);
                out.push((id, text));
                i = i + 1;
            }
            proof {
                assert(str_pairs_view(out@) =~= pairs_view(ps@));
            }
            Some(out)
        },
        None => None,
    }
}

/// The view of id/text pairs carried as strings.
pub open spec fn str_pairs_view(ps: Seq<(u64, String)>) -> Seq<(u64, Seq<char>)> {
    ps.map_values(|p: (u64, String)| (p.0, p.1@))
}

fn decode_reply_chars(codec: Codec, reply: &Vec<char>) -> (r: Option<Vec<(u64, Vec<char>)>>)
    ensures
        match r {
            Some(ps) => decoded_pairs(codec, reply@) == Some(pairs_view(ps@)),
            None => decoded_pairs(codec, reply@) is None,
        },
{
    let content = clean_reply(reply);
    match codec {
        Codec::SchemaJson | Codec::BestEffortJson => parse_pairs_doc_exec(&content),
        Codec::TaggedLines => {
            let ls = split_lines(&content);
            let mut out: Vec<(u64, Vec<char>)> = Vec::new();
            let ghost sls = lines_spec(content@);
            let mut i: usize = 0;
            while i < ls.len()
                invariant
                    0 <= i <= ls@.len(),
                    ls@.len() == sls.len(),
                    forall|j: int| 0 <= j < ls@.len() ==> ls@[j]@ == sls[j],
                    pairs_view(out@) == tagged_pairs(sls.take(i as int)),
                decreases ls@.len() - i,
            {
                proof {
                    assert(sls.take(i + 1 as int).drop_last() =~= sls.take(i as int));
                    assert(sls.take(i + 1 as int).last() == sls[i as int]);
                }
                match parse_tagged_line_exec(&ls[i]) {
                    Some(p) => {
                        proof {
                            let pv = (p.0, p.1@);
                            assert(pairs_view(out@.push(p)) =~= pairs_view(out@) + seq![pv]);
                        }
                        out.push(p);
                    },
                    None => {
                        proof {
                            assert(pairs_view(out@) + Seq::<(u64, Seq<char>)>::empty() =~= pairs_view(
                                out@,
                            ));
                        }
                    },
                }
                i = i + 1;
            }
            proof {
                assert(sls.take(sls.len() as int) =~= sls);
            }
            Some(out)
        },
        Codec::PositionalLines => {
            let ls = split_lines(&content);
            let mut out: Vec<(u64, Vec<char>)> = Vec::new();
            let ghost sls = lines_spec(content@);
            let mut i: usize = 0;
            while i < ls.len()
                invariant
                    0 <= i <= ls@.len(),
                    ls@.len() == sls.len(),
                    forall|j: int| 0 <= j < ls@.len() ==> ls@[j]@ == sls[j],
                    out@.len() == i,
                    forall|j: int| 0 <= j < i ==> (#[trigger] out@[j]).0 == j as u64,
                    forall|j: int| 0 <= j < i ==> (#[trigger] out@[j]).1@ == trim_spec(sls[j]),
                decreases ls@.len() - i,
            {
                let text = trim_chars(&ls[i]);
                proof {
                    assert(text@ == trim_spec(sls[i as int]));
                }
                let ghost out0 = out@;
                out.push((i as u64, text));
                proof {
                    assert(forall|j: int| 0 <= j < out0.len() ==> out@[j] == out0[j]);
                    assert(out@[i as int].0 == i as u64);
                    assert(out@[i as int].1@ == trim_spec(sls[i as int]));
                }
                i = i + 1;
            }
            proof {
                assert(pairs_view(out@) =~= positional_pairs(sls));
            }
            Some(out)
        },
    }
}

/// The text of the last pair carrying `id`, if any: when a reply names one
/// id twice, the later line overwrites the earlier one.
pub open spec fn lookup_pair(ps: Seq<(u64, Seq<char>)>, id: int) -> Option<Seq<char>>
    decreases ps.len(),
{
    if ps.len() == 0 {
        None
    } else if ps.last().0 == id {
        Some(ps.last().1)
    } else {
        lookup_pair(ps.drop_last(), id)
    }
}

fn lookup_pair_exec(ps: &Vec<(u64, Vec<char>)>, id: u64) -> (r: Option<Vec<char>>)
    ensures
        match r {
            Some(t) => lookup_pair(pairs_view(ps@), id as int) == Some(t@),
            None => lookup_pair(pairs_view(ps@), id as int) is None,
        },
{
    let mut i: usize = ps.len();
    proof {
        assert(pairs_view(ps@).take(ps@.len() as int) =~= pairs_view(ps@));
    }
    while i > 0
        invariant
            0 <= i <= ps@.len(),
            lookup_pair(pairs_view(ps@), id as int) == lookup_pair(
                pairs_view(ps@).take(i as int),
                id as int,
            ),
        decreases i,
    {
        i = i - 1;
        proof {
            let pre = pairs_view(ps@).take(i + 1 as int);
            assert(pre.last() == (ps@[i as int].0, ps@[i as int].1@));
            assert(pre.drop_last() =~= pairs_view(ps@).take(i as int));
        }
        if ps[i].0 == id {
            let t = subrange_chars(&ps[i].1, 0, ps[i].1.len());
            proof {
                assert(t@ =~= ps@[i as int].1@);
            }
            return Some(t);
        }
    }
    proof {
        assert(pairs_view(ps@).take(0) =~= Seq::<(u64, Seq<char>)>::empty());
    }
    None
}

/// The text the translation stage assigns to item `i` of a window: the last
/// decoded pair for id `i` where there is one (a repeated id overwrites the
/// earlier line); the item's own source text on a total decode failure or a
/// missing id; and — positional replies only — the empty string for a
/// truncated tail, since truncated output cannot be re-aligned to higher
/// ids.
pub open spec fn translate_reply_text(
    codec: Codec,
    reply: Seq<char>,
    items: Seq<BatchItem>,
    i: int,
) -> Seq<char> {
    match decoded_pairs(codec, reply) {
        None => items[i].text@,
        Some(ps) => match lookup_pair(ps, i) {
            Some(t) => t,
            None => if codec is PositionalLines {
                Seq::empty()
            } else {
                items[i].text@
            },
        },
    }
}

/// Decodes a translation reply against the window that produced it. The
/// output always has one response per item, id `i` at position `i`, whatever
/// the model returned.
pub fn decode_translation(codec: Codec, items: &Vec<BatchItem>, reply: &str) -> (out: Vec<
    BatchTranslationResponse,
>)
    requires
        forall|i: int| 0 <= i < items@.len() ==> items@[i].id == i,
    ensures
        out@.len() == items@.len(),
        forall|i: int| 0 <= i < out@.len() ==> (#[trigger] out@[i]).id == i,
        forall|i: int|
            0 <= i < out@.len() ==> (#[trigger] out@[i]).translated_text@ == translate_reply_text(
                codec,
                reply@,
                items@,
                i,
            ),
{
    let chars = str_to_chars(reply);
    let (have, ps): (bool, Vec<(u64, Vec<char>)>) = match decode_reply_chars(codec, &chars) {
        Some(ps) => (true, ps),
        None => (false, Vec::new()),
    };
    let mut out: Vec<BatchTranslationResponse> = Vec::new();
    let mut i: usize = 0;
    while i < items.len()
        invariant
            0 <= i <= items@.len(),
            out@.len() == i,
            forall|j: int| 0 <= j < items@.len() ==> items@[j].id == j,
            have ==> decoded_pairs(codec, reply@) == Some(pairs_view(ps@)),
            !have ==> decoded_pairs(codec, reply@) is None,
            forall|j: int| 0 <= j < i ==> (#[trigger] out@[j]).id == j,
            forall|j: int|
                0 <= j < i ==> (#[trigger] out@[j]).translated_text@ == translate_reply_text(
                    codec,
                    reply@,
                    items@,
                    j,
                ),
        decreases items@.len() - i,
    {
        let text: String = if have {
            match lookup_pair_exec(&ps, i as u64) {
                Some(t) => string_from_chars(&t),
                None => {
                    if matches!(codec, Codec::PositionalLines) {
                        String::new()
                    } else {
                        items[i].text.clone()
                    }
                },
            }
        } else {
            items[i].text.clone()
        };
        proof {
            assert((i as u64) as int == i as int);
            assert(text@ == translate_reply_text(codec, reply@, items@, i as int));
        }
        let ghost out0 = out@;
        out.push(BatchTranslationResponse { id: i, translated_text: text });
        proof {
            assert(forall|j: int| 0 <= j < out0.len() ==> out@[j] == out0[j]);
            assert(out@[i as int].id == i);
            assert(out@[i as int].translated_text@ == translate_reply_text(
                codec,
                reply@,
                items@,
                i as int,
            ));
        }
        i = i + 1;
    }
    out
}

/// An id absent from a decoded reply resolves to the item's own text under
/// every id-carrying codec: the identity fallback.
pub proof fn lemma_identity_fallback(codec: Codec, reply: Seq<char>, items: Seq<BatchItem>, i: int)
    requires
        0 <= i < items.len(),
        !(codec is PositionalLines),
        decoded_pairs(codec, reply) is Some,
        lookup_pair(decoded_pairs(codec, reply)->Some_0, i) is None,
    ensures
        translate_reply_text(codec, reply, items, i) == items[i].text@,
{
}

/// A reply that cannot be decoded at all resolves every item to its own
/// text: one window's decode failure degrades, it never aborts.
pub proof fn lemma_decode_failure_identity(
    codec: Codec,
    reply: Seq<char>,
    items: Seq<BatchItem>,
    i: int,
)
    requires
        0 <= i < items.len(),
        decoded_pairs(codec, reply) is None,
    ensures
        translate_reply_text(codec, reply, items, i) == items[i].text@,
{
}

/// One tagged payload line: `[id] text`.
pub open spec fn tagged_line(item: BatchItem) -> Seq<char> {
    seq!['['] + crate::text::dec_str(item.id as int) + seq![']', ' '] + item.text@
}

/// The tagged-lines payload: one line per item, joined by line feeds.
pub open spec fn tagged_payload(items: Seq<BatchItem>) -> Seq<char>
    decreases items.len(),
{
    if items.len() == 0 {
        Seq::empty()
    } else if items.len() == 1 {
        tagged_line(items[0])
    } else {
        tagged_payload(items.drop_last()) + seq!['\n'] + tagged_line(items.last())
    }
}

/// The positional payload: the bare texts, one line per item.
pub open spec fn positional_payload(items: Seq<BatchItem>) -> Seq<char>
    decreases items.len(),
{
    if items.len() == 0 {
        Seq::empty()
    } else if items.len() == 1 {
        items[0].text@
    } else {
        positional_payload(items.drop_last()) + seq!['\n'] + items.last().text@
    }
}

/// One item as a JSON object, `{"id":n,"text":"..."}`.
pub open spec fn item_obj(item: BatchItem) -> Seq<char> {
    "{\"id\":"@ + crate::text::dec_str(item.id as int) + ",\"text\":"@ + crate::json::json_quoted(
        item.text@,
    ) + "}"@
}

pub open spec fn json_objs(items: Seq<BatchItem>) -> Seq<char>
    decreases items.len(),
{
    if items.len() == 0 {
        Seq::empty()
    } else if items.len() == 1 {
        item_obj(items[0])
    } else {
        json_objs(items.drop_last()) + ","@ + item_obj(items.last())
    }
}

/// The JSON payload: the items as an array of objects, as the JSON
/// strategies send them.
pub open spec fn json_payload(items: Seq<BatchItem>) -> Seq<char> {
    "["@ + json_objs(items) + "]"@
}

/// The request payload a codec derives from a window's items.
pub open spec fn payload(codec: Codec, items: Seq<BatchItem>) -> Seq<char> {
    match codec {
        Codec::SchemaJson => json_payload(items),
        Codec::BestEffortJson => json_payload(items),
        Codec::TaggedLines => tagged_payload(items),
        Codec::PositionalLines => positional_payload(items),
    }
}

fn push_tagged_line(out: &mut Vec<char>, item: &BatchItem)
    ensures
        final(out)@ == old(out)@ + tagged_line(*item),
{
    out.push('[');
    let d = crate::text::u64_to_dec_chars(item.id as u64);
    crate::json::push_all(out, &d);
    out.push(']');
    out.push(' ');
    let t = str_to_chars(item.text.as_str());
    crate::json::push_all(out, &t);
    proof {
        assert((item.id as u64) as int == item.id as int);
        assert(out@ =~= old(out)@ + tagged_line(*item));
    }
}

fn push_item_obj(out: &mut Vec<char>, item: &BatchItem)
    ensures
        final(out)@ == old(out)@ + item_obj(*item),
{
    crate::json::push_str_chars(out, "{\"id\":");
    let d = crate::text::u64_to_dec_chars(item.id as u64);
    crate::json::push_all(out, &d);
    crate::json::push_str_chars(out, ",\"text\":");
    let t = str_to_chars(item.text.as_str());
    crate::json::push_json_quoted(out, &t);
    crate::json::push_str_chars(out, "}");
    proof {
        assert((item.id as u64) as int == item.id as int);
        assert(out@ =~= old(out)@ + item_obj(*item));
    }
}

/// Encodes a window's items as the payload of the chosen codec.
pub fn encode_items(codec: Codec, items: &Vec<BatchItem>) -> (r: String)
    ensures
        r@ == payload(codec, items@),
{
    let mut out: Vec<char> = Vec::new();
    match codec {
        Codec::SchemaJson | Codec::BestEffortJson => {
            crate::json::push_str_chars(&mut out, "[");
            proof {
                assert(out@ =~= "["@ + json_objs(items@.take(0)));
            }
            let mut i: usize = 0;
            while i < items.len()
                invariant
                    0 <= i <= items@.len(),
                    out@ == "["@ + json_objs(items@.take(i as int)),
                decreases items@.len() - i,
            {
                proof {
                    assert(items@.take(i + 1 as int).drop_last() =~= items@.take(i as int));
                    assert(items@.take(i + 1 as int).last() == items@[i as int]);
                }
                if i > 0 {
                    crate::json::push_str_chars(&mut out, ",");
                    proof {
                        assert(out@ =~= "["@ + (json_objs(items@.take(i as int)) + ","@));
                    }
                }
                push_item_obj(&mut out, &items[i]);
                proof {
                    assert(out@ =~= "["@ + json_objs(items@.take(i + 1 as int)));
                }
                i = i + 1;
            }
            crate::json::push_str_chars(&mut out, "]");
            proof {
                assert(items@.take(items@.len() as int) =~= items@);
                assert(out@ =~= json_payload(items@));
            }
        },
        Codec::TaggedLines => {
            let mut i: usize = 0;
            proof {
                assert(out@ =~= tagged_payload(items@.take(0)));
            }
            while i < items.len()
                invariant
                    0 <= i <= items@.len(),
                    out@ == tagged_payload(items@.take(i as int)),
                decreases items@.len() - i,
            {
                proof {
                    assert(items@.take(i + 1 as int).drop_last() =~= items@.take(i as int));
                    assert(items@.take(i + 1 as int).last() == items@[i as int]);
                }
                if i > 0 {
                    out.push('\n');
                    proof {
                        assert(out@ =~= tagged_payload(items@.take(i as int)) + seq!['\n']);
                    }
                }
                push_tagged_line(&mut out, &items[i]);
                proof {
                    assert(out@ =~= tagged_payload(items@.take(i + 1 as int)));
                }
                i = i + 1;
            }
            proof {
                assert(items@.take(items@.len() as int) =~= items@);
            }
        },
        Codec::PositionalLines => {
            let mut i: usize = 0;
            proof {
                assert(out@ =~= positional_payload(items@.take(0)));
            }
            while i < items.len()
                invariant
                    0 <= i <= items@.len(),
                    out@ == positional_payload(items@.take(i as int)),
                decreases items@.len() - i,
            {
                proof {
                    assert(items@.take(i + 1 as int).drop_last() =~= items@.take(i as int));
                    assert(items@.take(i + 1 as int).last() == items@[i as int]);
                }
                if i > 0 {
                    out.push('\n');
                    proof {
                        assert(out@ =~= positional_payload(items@.take(i as int)) + seq!['\n']);
                    }
                }
                let t = str_to_chars(items[i].text.as_str());
                crate::json::push_all(&mut out, &t);
                proof {
                    assert(out@ =~= positional_payload(items@.take(i + 1 as int)));
                }
                i = i + 1;
            }
            proof {
                assert(items@.take(items@.len() as int) =~= items@);
            }
        },
    }
    string_from_chars(&out)
}

} // verus!

