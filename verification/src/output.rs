//! Rendering of run output: SRT timestamps and the SRT document text. The
//! file writing itself belongs to the caller.

use vstd::prelude::*;
use crate::segment::TranslatedSegment;
use crate::text::{dec_str, dec_str_pad, u64_to_dec_pad, u64_to_dec_chars, str_to_chars,
    string_from_chars};
use crate::json::{push_all, push_str_chars};

verus! {

/// An SRT timestamp, `HH:MM:SS,mmm`, for a non-negative time in
/// milliseconds.
pub open spec fn timestamp_spec(ms: int) -> Seq<char> {
    dec_str_pad(ms / 3600000, 2) + seq![':'] + dec_str_pad((ms % 3600000) / 60000, 2) + seq![':']
        + dec_str_pad((ms % 60000) / 1000, 2) + seq![','] + dec_str_pad(ms % 1000, 3)
}

/// Renders a time in milliseconds as an SRT timestamp.
pub fn format_timestamp(ms: i64) -> (r: String)
    requires
        ms >= 0,
    ensures
        r@ == timestamp_spec(ms as int),
{
    let t = ms as u64;
    let mut out: Vec<char> = Vec::new();
    let h = u64_to_dec_pad(t / 3600000, 2);
    push_all(&mut out, &h);
    out.push(':');
    let m = u64_to_dec_pad((t % 3600000) / 60000, 2);
    push_all(&mut out, &m);
    out.push(':');
    let s = u64_to_dec_pad((t % 60000) / 1000, 2);
    push_all(&mut out, &s);
    out.push(',');
    let mil = u64_to_dec_pad(t % 1000, 3);
    push_all(&mut out, &mil);
    proof {
        assert(out@ =~= timestamp_spec(ms as int));
    }
    string_from_chars(&out)
}

/// One SRT block: a one-based index, the time range, the translated text and
/// a blank line.
pub open spec fn srt_block(seg: TranslatedSegment, idx: int) -> Seq<char> {
    dec_str(idx + 1) + seq!['\n'] + timestamp_spec(seg.start as int) + " --> "@ + timestamp_spec(
        seg.end as int,
    ) + seq!['\n'] + seg.translated@ + seq!['\n', '\n']
}

/// The whole SRT document for a run's output.
pub open spec fn srt_spec(segs: Seq<TranslatedSegment>) -> Seq<char>
    decreases segs.len(),
{
    if segs.len() == 0 {
        Seq::empty()
    } else {
        srt_spec(segs.drop_last()) + srt_block(segs.last(), segs.len() - 1)
    }
}

/// Renders a run's output as one SRT document.
pub fn srt_text(segs: &Vec<TranslatedSegment>) -> (r: String)
    requires
        forall|i: int|
            0 <= i < segs@.len() ==> (#[trigger] segs@[i]).start >= 0 && segs@[i].end >= 0,
    ensures
        r@ == srt_spec(segs@),
{
    let mut out: Vec<char> = Vec::new();
    let mut i: usize = 0;
    proof {
        assert(out@ =~= srt_spec(segs@.take(0)));
    }
    while i < segs.len()
        invariant
            0 <= i <= segs@.len(),
            forall|j: int|
                0 <= j < segs@.len() ==> (#[trigger] segs@[j]).start >= 0 && segs@[j].end >= 0,
            out@ == srt_spec(segs@.take(i as int)),
        decreases segs@.len() - i,
    {
        proof {
            assert(segs@.take(i + 1 as int).drop_last() =~= segs@.take(i as int));
            assert(segs@.take(i + 1 as int).last() == segs@[i as int]);
        }
        let d = u64_to_dec_chars((i as u64) + 1);
        proof {
            assert((i as u64) + 1 == (i as int) + 1);
        }
        push_all(&mut out, &d);
        out.push('\n');
        let ts = format_timestamp(segs[i].start);
        push_str_chars(&mut out, ts.as_str());
        push_str_chars(&mut out, " --> ");
        let te = format_timestamp(segs[i].end);
        push_str_chars(&mut out, te.as_str());
        out.push('\n');
        let tr = str_to_chars(segs[i].translated.as_str());
        push_all(&mut out, &tr);
        out.push('\n');
        out.push('\n');
        proof {
            assert(out@ =~= srt_spec(segs@.take(i + 1 as int)));
        }
        i = i + 1;
    }
    proof {
        assert(segs@.take(segs@.len() as int) =~= segs@);
    }
    string_from_chars(&out)
}

} // verus!
