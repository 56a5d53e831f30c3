//! The four per-window stages: prompt building and reply application for
//! translate, edit, filter and summarize, plus the local-bridge backend's
//! batching rules.

use vstd::prelude::*;
use crate::codec::{Codec, payload, cleaned};
use crate::config::FilterConfig;
use crate::json::{push_str_chars, push_all};
use crate::provider::Message;
use crate::segment::{BatchItem, BatchTranslationResponse, FilterResponse, TranscriptSegment, TranslatedSegment};
use crate::text::{
    trim_spec, trim_chars, lines_spec, split_lines, dec_str, u64_to_dec_chars, str_to_chars,
    string_from_chars,
};
use vstd::string::{StringExecFns, StrSliceExecFns};

verus! {

/// The translated texts of a window, joined by a separator.
pub open spec fn join_translated(batch: Seq<TranslatedSegment>, sep: char) -> Seq<char>
    decreases batch.len(),
{
    if batch.len() == 0 {
        Seq::empty()
    } else if batch.len() == 1 {
        batch[0].translated@
    } else {
        join_translated(batch.drop_last(), sep) + seq![sep] + batch.last().translated@
    }
}

fn push_join_translated(out: &mut Vec<char>, batch: &Vec<TranslatedSegment>, sep: char)
    ensures
        final(out)@ == old(out)@ + join_translated(batch@, sep),
{
    let mut i: usize = 0;
    proof {
        assert(old(out)@ + join_translated(batch@.take(0), sep) =~= old(out)@);
    }
    while i < batch.len()
        invariant
            0 <= i <= batch@.len(),
            out@ == old(out)@ + join_translated(batch@.take(i as int), sep),
        decreases batch@.len() - i,
    {
        proof {
            assert(batch@.take(i + 1 as int).drop_last() =~= batch@.take(i as int));
            assert(batch@.take(i + 1 as int).last() == batch@[i as int]);
        }
        if i > 0 {
            out.push(sep);
            proof {
                assert(out@ =~= old(out)@ + (join_translated(batch@.take(i as int), sep)
                    + seq![sep]));
            }
        }
        let t = str_to_chars(batch[i].translated.as_str());
        push_all(out, &t);
        proof {
            assert(out@ =~= old(out)@ + join_translated(batch@.take(i + 1 as int), sep));
        }
        i = i + 1;
    }
    proof {
        assert(batch@.take(batch@.len() as int) =~= batch@);
    }
}

/// Free-text lines joined by line feeds.
pub open spec fn join_lines(xs: Seq<String>) -> Seq<char>
    decreases xs.len(),
{
    if xs.len() == 0 {
        Seq::empty()
    } else if xs.len() == 1 {
        xs[0]@
    } else {
        join_lines(xs.drop_last()) + seq!['\n'] + xs.last()@
    }
}

fn push_join_lines(out: &mut Vec<char>, xs: &Vec<String>)
    ensures
        final(out)@ == old(out)@ + join_lines(xs@),
{
    let mut i: usize = 0;
    proof {
        assert(old(out)@ + join_lines(xs@.take(0)) =~= old(out)@);
    }
    while i < xs.len()
        invariant
            0 <= i <= xs@.len(),
            out@ == old(out)@ + join_lines(xs@.take(i as int)),
        decreases xs@.len() - i,
    {
        proof {
            assert(xs@.take(i + 1 as int).drop_last() =~= xs@.take(i as int));
            assert(xs@.take(i + 1 as int).last() == xs@[i as int]);
        }
        if i > 0 {
            out.push('\n');
            proof {
                assert(out@ =~= old(out)@ + (join_lines(xs@.take(i as int)) + seq!['\n']));
            }
        }
        let t = str_to_chars(xs[i].as_str());
        push_all(out, &t);
        proof {
            assert(out@ =~= old(out)@ + join_lines(xs@.take(i + 1 as int)));
        }
        i = i + 1;
    }
    proof {
        assert(xs@.take(xs@.len() as int) =~= xs@);
    }
}

/// The format instruction a codec adds to the translation system prompt.
pub open spec fn codec_instruction(codec: Codec) -> Seq<char> {
    match codec {
        Codec::TaggedLines =>
            "The input text is a list of sentences, each starting with an ID in brackets like `[0]`, `[1]`, etc.\nTranslate each line one by one and output the translated text with the SAME ID prefix.\nExample Input:\n[0] Hello world\n[1] How are you?\nExample Output:\n[0] Bonjour le monde\n[1] Comment allez-vous ?\n\nMaintain the exact ID for each line.\nUse the provided summary to ensure natural flow and correct tone.\nOutput ONLY the translated text with IDs, no other comments or explanations."@,
        Codec::PositionalLines =>
            "The input text is a list of sentences, one per line.\nTranslate each line one by one and output the translated lines in the same order, one per line.\nDo not merge, split, or reorder lines.\nUse the provided summary to ensure natural flow and correct tone.\nOutput ONLY the translated text, no other comments or explanations."@,
        Codec::SchemaJson | Codec::BestEffortJson =>
            "The input is a JSON array of objects, each with an `id` and a `text` field.\nTranslate the `text` of each object and reply with a JSON array of objects, each carrying the same `id` and a `translated_text` field.\nUse the provided summary to ensure natural flow and correct tone.\nOutput ONLY the JSON array, no other comments or explanations."@,
    }
}

/// The translation system prompt: the run's extra instruction, the task
/// naming the target language, and the codec's format instruction.
pub open spec fn translate_system_prompt(
    codec: Codec,
    prepend: Seq<char>,
    target: Seq<char>,
) -> Seq<char> {
    prepend + "You are a professional video subtitle translator. Translate the following text into "@
        + target + ".\n"@ + codec_instruction(codec)
}

/// The translation user prompt: the rolling summary and the encoded window.
pub open spec fn translate_user_prompt(summary: Seq<char>, pl: Seq<char>) -> Seq<char> {
    "Summary of previous conversation: "@ + summary + "\n\nInput Text:\n"@ + pl
}

/// The JSON schema sent with the schema codec for translation replies.
pub open spec fn translate_schema_spec() -> Seq<char> {
    "{\"type\":\"array\",\"items\":{\"type\":\"object\",\"properties\":{\"id\":{\"type\":\"integer\"},\"translated_text\":{\"type\":\"string\"}},\"required\":[\"id\",\"translated_text\"],\"additionalProperties\":false}}"@
}

pub fn translate_schema() -> (r: &'static str)
    ensures
        r@ == translate_schema_spec(),
{
    "{\"type\":\"array\",\"items\":{\"type\":\"object\",\"properties\":{\"id\":{\"type\":\"integer\"},\"translated_text\":{\"type\":\"string\"}},\"required\":[\"id\",\"translated_text\"],\"additionalProperties\":false}}"
}

/// Whether a codec asks the provider for structured JSON output.
pub open spec fn codec_wants_json(codec: Codec) -> bool {
    codec is SchemaJson || codec is BestEffortJson
}

/// Builds the two translation messages for a window.
pub fn build_translate_messages(
    codec: Codec,
    items: &Vec<BatchItem>,
    target: &str,
    prepend: &str,
    summary: &str,
) -> (r: Vec<Message>)
    ensures
        r@.len() == 2,
        r@[0].role@ == "system"@,
        r@[0].content@ == translate_system_prompt(codec, prepend@, target@),
        r@[1].role@ == "user"@,
        r@[1].content@ == translate_user_prompt(summary@, payload(codec, items@)),
{
    let mut sys: Vec<char> = Vec::new();
    push_str_chars(&mut sys, prepend);
    push_str_chars(
        &mut sys,
        "You are a professional video subtitle translator. Translate the following text into ",
    );
    push_str_chars(&mut sys, target);
    push_str_chars(&mut sys, ".\n");
    match codec {
        Codec::TaggedLines => {
            push_str_chars(
                &mut sys,
                "The input text is a list of sentences, each starting with an ID in brackets like `[0]`, `[1]`, etc.\nTranslate each line one by one and output the translated text with the SAME ID prefix.\nExample Input:\n[0] Hello world\n[1] How are you?\nExample Output:\n[0] Bonjour le monde\n[1] Comment allez-vous ?\n\nMaintain the exact ID for each line.\nUse the provided summary to ensure natural flow and correct tone.\nOutput ONLY the translated text with IDs, no other comments or explanations.",
            );
        },
        Codec::PositionalLines => {
            push_str_chars(
                &mut sys,
                "The input text is a list of sentences, one per line.\nTranslate each line one by one and output the translated lines in the same order, one per line.\nDo not merge, split, or reorder lines.\nUse the provided summary to ensure natural flow and correct tone.\nOutput ONLY the translated text, no other comments or explanations.",
            );
        },
        Codec::SchemaJson | Codec::BestEffortJson => {
            push_str_chars(
                &mut sys,
                "The input is a JSON array of objects, each with an `id` and a `text` field.\nTranslate the `text` of each object and reply with a JSON array of objects, each carrying the same `id` and a `translated_text` field.\nUse the provided summary to ensure natural flow and correct tone.\nOutput ONLY the JSON array, no other comments or explanations.",
            );
        },
    }
    proof {
        assert(sys@ =~= translate_system_prompt(codec, prepend@, target@));
    }
    let mut user: Vec<char> = Vec::new();
    push_str_chars(&mut user, "Summary of previous conversation: ");
    push_str_chars(&mut user, summary);
    push_str_chars(&mut user, "\n\nInput Text:\n");
    let pl = crate::codec::encode_items(codec, items);
    push_str_chars(&mut user, pl.as_str());
    proof {
        assert(user@ =~= translate_user_prompt(summary@, payload(codec, items@)));
    }
    let mut r: Vec<Message> = Vec::new();
    r.push(Message { role: String::from_str("system"), content: string_from_chars(&sys) });
    r.push(Message { role: String::from_str("user"), content: string_from_chars(&user) });
    r
}

/// The text a window's final output carries at position `i`: the first
/// response with id `i`, or the fallback.
pub open spec fn response_text_for(
    rs: Seq<BatchTranslationResponse>,
    fallback: Seq<char>,
    i: int,
) -> Seq<char>
    decreases rs.len(),
{
    if rs.len() == 0 {
        fallback
    } else if rs.first().id == i {
        rs.first().translated_text@
    } else {
        response_text_for(rs.drop_first(), fallback, i)
    }
}

/// Maps a window's responses back onto its segments: position `i` keeps the
/// segment's timestamps and source text and takes the response with id `i`,
/// falling back to the source text where no response carries that id. The
/// output length always equals the window length.
pub fn map_window(
    chunk: &Vec<TranscriptSegment>,
    responses: &Vec<BatchTranslationResponse>,
) -> (out: Vec<TranslatedSegment>)
    ensures
        out@.len() == chunk@.len(),
        forall|i: int| 0 <= i < out@.len() ==> (#[trigger] out@[i]).start == chunk@[i].start,
        forall|i: int| 0 <= i < out@.len() ==> (#[trigger] out@[i]).end == chunk@[i].end,
        forall|i: int| 0 <= i < out@.len() ==> (#[trigger] out@[i]).original@ == chunk@[i].text@,
        forall|i: int|
            0 <= i < out@.len() ==> (#[trigger] out@[i]).translated@ == response_text_for(
                responses@,
                chunk@[i].text@,
                i,
            ),
{
    let mut out: Vec<TranslatedSegment> = Vec::new();
    let mut i: usize = 0;
    while i < chunk.len()
        invariant
            0 <= i <= chunk@.len(),
            out@.len() == i,
            forall|j: int| 0 <= j < i ==> (#[trigger] out@[j]).start == chunk@[j].start,
            forall|j: int| 0 <= j < i ==> (#[trigger] out@[j]).end == chunk@[j].end,
            forall|j: int| 0 <= j < i ==> (#[trigger] out@[j]).original@ == chunk@[j].text@,
            forall|j: int|
                0 <= j < i ==> (#[trigger] out@[j]).translated@ == response_text_for(
                    responses@,
                    chunk@[j].text@,
                    j,
                ),
        decreases chunk@.len() - i,
    {
        let translated = find_response_text(responses, i, &chunk[i].text);
        let seg = TranslatedSegment {
            start: chunk[i].start,
            end: chunk[i].end,
            original: chunk[i].text.clone(),
            translated,
        };
        out.push(seg);
        i = i + 1;
    }
    out
}

fn find_response_text(rs: &Vec<BatchTranslationResponse>, id: usize, fallback: &String) -> (r:
    String)
    ensures
        r@ == response_text_for(rs@, fallback@, id as int),
{
    let mut k: usize = 0;
    proof {
        assert(rs@.skip(0) =~= rs@);
    }
    while k < rs.len()
        invariant
            0 <= k <= rs@.len(),
            response_text_for(rs@, fallback@, id as int) == response_text_for(
                rs@.skip(k as int),
                fallback@,
                id as int,
            ),
        decreases rs@.len() - k,
    {
        proof {
            let tail = rs@.skip(k as int);
            assert(tail.first() == rs@[k as int]);
            assert(tail.drop_first() =~= rs@.skip(k + 1 as int));
        }
        if rs[k].id == id {
            return rs[k].translated_text.clone();
        }
        k = k + 1;
    }
    proof {
        assert(rs@.skip(rs@.len() as int) =~= Seq::<BatchTranslationResponse>::empty());
    }
    fallback.clone()
}

/// The edit system prompt, naming the target language and the combined
/// instructions.
pub open spec fn edit_system_prompt(target: Seq<char>, instructions: Seq<char>) -> Seq<char> {
    "You are a professional editor. Refine the following translated sentences based on these instructions:\nTarget Language: "@
        + target + "\nInstructions:\n"@ + instructions
        + "\nDO NOT TRANSLATE THE TEXT. JUST EDIT THE TEXT BASED ON THE INSTRUCTIONS.\nThe input text is a list of sentences separated by newlines.\nEdit each line one by one and output the refined text separated by newlines.\nIMPORTANT: You must maintain the exact line-by-line correspondence. Line N of the output must be the edited version of Line N of the input.\nDo not merge, split, or reorder lines.\nOutput ONLY the refined text, no other comments or explanations."@
}

/// The edit user prompt: the window's translated lines.
pub open spec fn edit_user_prompt(batch: Seq<TranslatedSegment>) -> Seq<char> {
    "Input Text:\n"@ + join_translated(batch, '\n')
}

/// Builds the two edit messages for an already-translated window.
pub fn build_edit_messages(
    batch: &Vec<TranslatedSegment>,
    instructions: &Vec<String>,
    target: &str,
) -> (r: Vec<Message>)
    ensures
        r@.len() == 2,
        r@[0].role@ == "system"@,
        r@[0].content@ == edit_system_prompt(target@, join_lines(instructions@)),
        r@[1].role@ == "user"@,
        r@[1].content@ == edit_user_prompt(batch@),
{
    let mut sys: Vec<char> = Vec::new();
    push_str_chars(
        &mut sys,
        "You are a professional editor. Refine the following translated sentences based on these instructions:\nTarget Language: ",
    );
    push_str_chars(&mut sys, target);
    push_str_chars(&mut sys, "\nInstructions:\n");
    push_join_lines(&mut sys, instructions);
    push_str_chars(
        &mut sys,
        "\nDO NOT TRANSLATE THE TEXT. JUST EDIT THE TEXT BASED ON THE INSTRUCTIONS.\nThe input text is a list of sentences separated by newlines.\nEdit each line one by one and output the refined text separated by newlines.\nIMPORTANT: You must maintain the exact line-by-line correspondence. Line N of the output must be the edited version of Line N of the input.\nDo not merge, split, or reorder lines.\nOutput ONLY the refined text, no other comments or explanations.",
    );
    proof {
        assert(sys@ =~= edit_system_prompt(target@, join_lines(instructions@)));
    }
    let mut user: Vec<char> = Vec::new();
    push_str_chars(&mut user, "Input Text:\n");
    push_join_translated(&mut user, batch, '\n');
    proof {
        assert(user@ =~= edit_user_prompt(batch@));
    }
    let mut r: Vec<Message> = Vec::new();
    r.push(Message { role: String::from_str("system"), content: string_from_chars(&sys) });
    r.push(Message { role: String::from_str("user"), content: string_from_chars(&user) });
    r
}

/// The text position `i` carries after the edit reply is applied: line `i` of
/// the cleaned reply, trimmed — or the prior translated text where the reply
/// has no line `i`. This is the positional correspondence rule with the
/// prior text as fallback.
pub open spec fn edited_text(reply: Seq<char>, batch: Seq<TranslatedSegment>, i: int) -> Seq<
    char,
> {
    let ls = lines_spec(cleaned(reply));
    if 0 <= i < ls.len() {
        trim_spec(ls[i])
    } else {
        batch[i].translated@
    }
}

/// Applies an edit reply to a window: text per `edited_text`, everything else
/// unchanged, the length always preserved.
pub fn apply_edit(batch: &Vec<TranslatedSegment>, reply: &str) -> (out: Vec<TranslatedSegment>)
    ensures
        out@.len() == batch@.len(),
        forall|i: int| 0 <= i < out@.len() ==> (#[trigger] out@[i]).start == batch@[i].start,
        forall|i: int| 0 <= i < out@.len() ==> (#[trigger] out@[i]).end == batch@[i].end,
        forall|i: int| 0 <= i < out@.len() ==> (#[trigger] out@[i]).original@ == batch@[i].original@,
        forall|i: int|
            0 <= i < out@.len() ==> (#[trigger] out@[i]).translated@ == edited_text(
                reply@,
                batch@,
                i,
            ),
{
    let chars = str_to_chars(reply);
    let content = crate::codec::clean_reply(&chars);
    let ls = split_lines(&content);
    let mut out: Vec<TranslatedSegment> = Vec::new();
    let mut i: usize = 0;
    while i < batch.len()
        invariant
            0 <= i <= batch@.len(),
            out@.len() == i,
            ls@.len() == lines_spec(cleaned(reply@)).len(),
            forall|j: int| 0 <= j < ls@.len() ==> ls@[j]@ == lines_spec(cleaned(reply@))[j],
            forall|j: int| 0 <= j < i ==> (#[trigger] out@[j]).start == batch@[j].start,
            forall|j: int| 0 <= j < i ==> (#[trigger] out@[j]).end == batch@[j].end,
            forall|j: int| 0 <= j < i ==> (#[trigger] out@[j]).original@ == batch@[j].original@,
            forall|j: int|
                0 <= j < i ==> (#[trigger] out@[j]).translated@ == edited_text(reply@, batch@, j),
        decreases batch@.len() - i,
    {
        let translated: String = if i < ls.len() {
            let t = trim_chars(&ls[i]);
            string_from_chars(&t)
        } else {
            batch[i].translated.clone()
        };
        proof {
            assert(translated@ == edited_text(reply@, batch@, i as int));
        }
        let seg = TranslatedSegment {
            start: batch[i].start,
            end: batch[i].end,
            original: batch[i].original.clone(),
            translated,
        };
        out.push(seg);
        i = i + 1;
    }
    out
}

/// The summary user prompt, built from the prior summary and the window's
/// translated text alone.
pub open spec fn summary_prompt(summary: Seq<char>, batch: Seq<TranslatedSegment>) -> Seq<char> {
    "Update the summary of the conversation based on the new text.\nOld Summary: "@ + summary
        + "\nNew Text: "@ + join_translated(batch, ' ')
        + "\nOutput ONLY the updated summary in one or two sentences."@
}

/// Builds the single summarize message for a completed window.
pub fn build_summary_message(summary: &str, batch: &Vec<TranslatedSegment>) -> (r: Vec<Message>)
    ensures
        r@.len() == 1,
        r@[0].role@ == "user"@,
        r@[0].content@ == summary_prompt(summary@, batch@),
{
    let mut user: Vec<char> = Vec::new();
    push_str_chars(
        &mut user,
        "Update the summary of the conversation based on the new text.\nOld Summary: ",
    );
    push_str_chars(&mut user, summary);
    push_str_chars(&mut user, "\nNew Text: ");
    push_join_translated(&mut user, batch, ' ');
    push_str_chars(&mut user, "\nOutput ONLY the updated summary in one or two sentences.");
    proof {
        assert(user@ =~= summary_prompt(summary@, batch@));
    }
    let mut r: Vec<Message> = Vec::new();
    r.push(Message { role: String::from_str("user"), content: string_from_chars(&user) });
    r
}

/// The rolling summary a reply sets: the reply, trimmed.
pub fn next_summary(reply: &str) -> (r: String)
    ensures
        r@ == trim_spec(reply@),
{
    let chars = str_to_chars(reply);
    let t = trim_chars(&chars);
    string_from_chars(&t)
}

/// How many items of a window the local bridge is called for: those with
/// non-empty text. Empty source text short-circuits to an empty translation
/// without a call.
pub open spec fn nonempty_count(items: Seq<BatchItem>) -> int
    decreases items.len(),
{
    if items.len() == 0 {
        0
    } else {
        nonempty_count(items.drop_last()) + if items.last().text@.len() > 0 {
            1int
        } else {
            0int
        }
    }
}

proof fn lemma_nonempty_count_bounds(items: Seq<BatchItem>)
    ensures
        0 <= nonempty_count(items) <= items.len(),
    decreases items.len(),
{
    if items.len() > 0 {
        lemma_nonempty_count_bounds(items.drop_last());
    }
}

/// The texts the local bridge is asked to translate, in window order.
pub fn texts_for_local(items: &Vec<BatchItem>) -> (r: Vec<String>)
    ensures
        r@.len() == nonempty_count(items@),
        forall|i: int|
            0 <= i < r@.len() ==> (#[trigger] r@[i])@ == local_input_at(items@, i),
{
    let mut r: Vec<String> = Vec::new();
    let mut i: usize = 0;
    while i < items.len()
        invariant
            0 <= i <= items@.len(),
            r@.len() == nonempty_count(items@.take(i as int)),
            forall|j: int|
                0 <= j < r@.len() ==> (#[trigger] r@[j])@ == local_input_at(items@.take(i as int), j),
        decreases items@.len() - i,
    {
        proof {
            assert(items@.take(i + 1 as int).drop_last() =~= items@.take(i as int));
            assert(items@.take(i + 1 as int).last() == items@[i as int]);
            lemma_local_input_extend(items@.take(i as int), items@[i as int]);
            assert(items@.take(i as int).push(items@[i as int]) =~= items@.take(i + 1 as int));
        }
        if items[i].text.as_str().unicode_len() > 0 {
            r.push(items[i].text.clone());
        }
        i = i + 1;
    }
    proof {
        assert(items@.take(items@.len() as int) =~= items@);
    }
    r
}

/// The `k`-th non-empty text of a window.
pub open spec fn local_input_at(items: Seq<BatchItem>, k: int) -> Seq<char>
    decreases items.len(),
{
    if items.len() == 0 {
        Seq::empty()
    } else if k < nonempty_count(items.drop_last()) {
        local_input_at(items.drop_last(), k)
    } else if items.last().text@.len() > 0 && k == nonempty_count(items.drop_last()) {
        items.last().text@
    } else {
        Seq::empty()
    }
}

proof fn lemma_local_input_extend(items: Seq<BatchItem>, item: BatchItem)
    ensures
        forall|k: int|
            0 <= k < nonempty_count(items) ==> local_input_at(items.push(item), k)
                == #[trigger] local_input_at(items, k),
        item.text@.len() > 0 ==> local_input_at(items.push(item), nonempty_count(items))
            == item.text@,
{
    assert(items.push(item).drop_last() =~= items);
}

/// Assembles the local backend's per-item replies into one response list:
/// position `i` keeps id `i`; an empty source text yields the empty
/// translation without a call; the `k`-th non-empty text takes the `k`-th
/// reply.
pub fn assemble_local_results(items: &Vec<BatchItem>, replies: &Vec<String>) -> (out: Vec<
    BatchTranslationResponse,
>)
    requires
        replies@.len() == nonempty_count(items@),
        forall|i: int| 0 <= i < items@.len() ==> (#[trigger] items@[i]).id == i,
    ensures
        out@.len() == items@.len(),
        forall|i: int| 0 <= i < out@.len() ==> (#[trigger] out@[i]).id == i,
        forall|i: int|
            0 <= i < out@.len() ==> (#[trigger] out@[i]).translated_text@ == (
            if items@[i].text@.len() == 0 {
                Seq::<char>::empty()
            } else {
                replies@[nonempty_count(items@.take(i))]@
            }),
{
    let mut out: Vec<BatchTranslationResponse> = Vec::new();
    let nr = replies.len();
    let mut k: usize = 0;
    let mut i: usize = 0;
    while i < items.len()
        invariant
            0 <= i <= items@.len(),
            out@.len() == i,
            k == nonempty_count(items@.take(i as int)),
            0 <= k <= nr,
            nr == replies@.len(),
            replies@.len() == nonempty_count(items@),
            forall|j: int| 0 <= j < out@.len() ==> (#[trigger] out@[j]).id == j,
            forall|j: int|
                0 <= j < out@.len() ==> (#[trigger] out@[j]).translated_text@ == (
                if items@[j].text@.len() == 0 {
                    Seq::<char>::empty()
                } else {
                    replies@[nonempty_count(items@.take(j))]@
                }),
        decreases items@.len() - i,
    {
        proof {
            assert(items@.take(i + 1 as int).drop_last() =~= items@.take(i as int));
            assert(items@.take(i + 1 as int).last() == items@[i as int]);
            lemma_nonempty_prefix_le(items@, i + 1 as int);
        }
        let ne = items[i].text.as_str().unicode_len() > 0;
        proof {
            if ne {
                assert(nonempty_count(items@.take(i + 1 as int)) == k + 1);
                assert(k < nr);
            }
        }
        let text: String = if !ne {
            String::new()
        } else {
            let t = replies[k].clone();
            k = k + 1;
            t
        };
        out.push(BatchTranslationResponse { id: i, translated_text: text });
        i = i + 1;
    }
    out
}

proof fn lemma_nonempty_prefix_le(items: Seq<BatchItem>, i: int)
    requires
        0 <= i <= items.len(),
    ensures
        nonempty_count(items.take(i)) <= nonempty_count(items),
    decreases items.len() - i,
{
    if i == items.len() {
        assert(items.take(i) =~= items);
    } else {
        assert(items.take(i + 1).drop_last() =~= items.take(i));
        lemma_nonempty_prefix_le(items, i + 1);
    }
}

/// One filter condition as a line of the combined filter instruction.
pub open spec fn filter_line(f: FilterConfig, idx: int) -> Seq<char> {
    dec_str(idx + 1) + ". "@ + f.prompt@ + " (Confidence Threshold: "@ + threshold_str(
        spec_threshold(f),
    ) + ")\n"@
}

/// A condition's confidence threshold in hundredths; the default is 70.
pub open spec fn spec_threshold(f: FilterConfig) -> int {
    match f.threshold {
        Some(t) => t as int,
        None => 70,
    }
}

/// A threshold in hundredths rendered the way its decimal value prints: an
/// integer part, then the non-zero fraction digits.
pub open spec fn threshold_str(t: int) -> Seq<char> {
    dec_str(t / 100) + (if t % 100 == 0 {
        Seq::<char>::empty()
    } else if t % 10 == 0 {
        seq!['.', crate::text::digit_char((t % 100) / 10)]
    } else {
        seq!['.', crate::text::digit_char((t % 100) / 10), crate::text::digit_char(t % 10)]
    })
}

fn push_threshold(out: &mut Vec<char>, t: u32)
    ensures
        final(out)@ == old(out)@ + threshold_str(t as int),
{
    let d = u64_to_dec_chars((t / 100) as u64);
    push_all(out, &d);
    if t % 100 != 0 {
        out.push('.');
        let hi = ((t % 100) / 10) as u64;
        let c1 = crate::text::digit_char_exec(hi);
        out.push(c1);
        if t % 10 != 0 {
            let c2 = crate::text::digit_char_exec((t % 10) as u64);
            out.push(c2);
        }
    }
    proof {
        assert(out@ =~= old(out)@ + threshold_str(t as int));
    }
}

/// The enumerated filter conditions, one line each.
pub open spec fn filter_lines(fs: Seq<FilterConfig>) -> Seq<char>
    decreases fs.len(),
{
    if fs.len() == 0 {
        Seq::empty()
    } else {
        filter_lines(fs.drop_last()) + filter_line(fs.last(), fs.len() - 1)
    }
}

/// The combined filter prompt around the enumerated conditions.
pub open spec fn filter_prompt(fs: Seq<FilterConfig>) -> Seq<char> {
    "You are a content filter. Analyze the following JSON list of texts and identify items that should be removed based on the following instructions:\n"@
        + filter_lines(fs)
        + "For each item, if it matches any of the instructions with a confidence score higher than the specified threshold, mark it for removal.\nReturn the IDs of items to remove in JSON format: { \"remove_ids\": [0, 2, ...] }. Output ONLY the JSON."@
}

/// The single filter message: the combined prompt and the window's items as
/// JSON.
pub open spec fn filter_user_prompt(fs: Seq<FilterConfig>, items: Seq<BatchItem>) -> Seq<char> {
    filter_prompt(fs) + "\n\nInput JSON:\n"@ + crate::codec::json_payload(items)
}

/// The JSON schema sent with filter requests.
pub open spec fn filter_schema_spec() -> Seq<char> {
    "{\"type\":\"object\",\"properties\":{\"remove_ids\":{\"type\":\"array\",\"items\":{\"type\":\"integer\"}}},\"required\":[\"remove_ids\"],\"additionalProperties\":false}"@
}

pub fn filter_schema() -> (r: &'static str)
    ensures
        r@ == filter_schema_spec(),
{
    "{\"type\":\"object\",\"properties\":{\"remove_ids\":{\"type\":\"array\",\"items\":{\"type\":\"integer\"}}},\"required\":[\"remove_ids\"],\"additionalProperties\":false}"
}

/// Builds the single filter message for a window: every condition is
/// evaluated in this one combined request.
pub fn build_filter_messages(batch: &Vec<TranslatedSegment>, filters: &Vec<FilterConfig>) -> (r:
    Vec<Message>)
    ensures
        r@.len() == 1,
        r@[0].role@ == "user"@,
        r@[0].content@ == filter_user_prompt(filters@, filter_items_spec(batch@)),
{
    let items = filter_items(batch);
    let mut user: Vec<char> = Vec::new();
    push_str_chars(
        &mut user,
        "You are a content filter. Analyze the following JSON list of texts and identify items that should be removed based on the following instructions:\n",
    );
    let mut i: usize = 0;
    proof {
        assert(user@ =~= "You are a content filter. Analyze the following JSON list of texts and identify items that should be removed based on the following instructions:\n"@
            + filter_lines(filters@.take(0)));
    }
    while i < filters.len()
        invariant
            0 <= i <= filters@.len(),
            user@ == "You are a content filter. Analyze the following JSON list of texts and identify items that should be removed based on the following instructions:\n"@
                + filter_lines(filters@.take(i as int)),
        decreases filters@.len() - i,
    {
        proof {
            assert(filters@.take(i + 1 as int).drop_last() =~= filters@.take(i as int));
            assert(filters@.take(i + 1 as int).last() == filters@[i as int]);
        }
        let d = u64_to_dec_chars((i as u64) + 1);
        push_all(&mut user, &d);
        push_str_chars(&mut user, ". ");
        let p = str_to_chars(filters[i].prompt.as_str());
        push_all(&mut user, &p);
        push_str_chars(&mut user, " (Confidence Threshold: ");
        let t: u32 = match filters[i].threshold {
            Some(t) => t,
            None => 70,
        };
        push_threshold(&mut user, t);
        push_str_chars(&mut user, ")\n");
        proof {
            assert((i as u64) + 1 == (i as int) + 1);
            assert(user@ =~= "You are a content filter. Analyze the following JSON list of texts and identify items that should be removed based on the following instructions:\n"@
                + filter_lines(filters@.take(i + 1 as int)));
        }
        i = i + 1;
    }
    proof {
        assert(filters@.take(filters@.len() as int) =~= filters@);
    }
    push_str_chars(
        &mut user,
        "For each item, if it matches any of the instructions with a confidence score higher than the specified threshold, mark it for removal.\nReturn the IDs of items to remove in JSON format: { \"remove_ids\": [0, 2, ...] }. Output ONLY the JSON.",
    );
    push_str_chars(&mut user, "\n\nInput JSON:\n");
    let pl = crate::codec::encode_items(Codec::BestEffortJson, &items);
    push_str_chars(&mut user, pl.as_str());
    proof {
        assert(user@ =~= filter_user_prompt(filters@, filter_items_spec(batch@)));
    }
    let mut r: Vec<Message> = Vec::new();
    r.push(Message { role: String::from_str("user"), content: string_from_chars(&user) });
    r
}

/// The filter request's items: id `i` carries the translated text at
/// position `i`.
pub open spec fn filter_items_spec(batch: Seq<TranslatedSegment>) -> Seq<BatchItem> {
    Seq::new(batch.len(), |i: int| BatchItem { id: i as usize, text: batch[i].translated })
}

fn filter_items(batch: &Vec<TranslatedSegment>) -> (r: Vec<BatchItem>)
    ensures
        r@.len() == batch@.len(),
        forall|i: int| 0 <= i < r@.len() ==> (#[trigger] r@[i]).id == i,
        forall|i: int| 0 <= i < r@.len() ==> (#[trigger] r@[i]).text@ == batch@[i].translated@,
        r@ == filter_items_spec(batch@),
{
    let mut r: Vec<BatchItem> = Vec::new();
    let mut i: usize = 0;
    while i < batch.len()
        invariant
            0 <= i <= batch@.len(),
            r@.len() == i,
            forall|j: int| 0 <= j < i ==> r@[j] == filter_items_spec(batch@)[j],
        decreases batch@.len() - i,
    {
        r.push(BatchItem { id: i, text: batch[i].translated.clone() });
        proof {
            assert(r@[i as int] == filter_items_spec(batch@)[i as int]);
        }
        i = i + 1;
    }
    proof {
        assert(r@ =~= filter_items_spec(batch@));
    }
    r
}

/// Whether a window-local id is among the ids to remove.
pub open spec fn id_removed(remove: Seq<u64>, i: int) -> bool {
    exists|k: int| 0 <= k < remove.len() && remove[k] == i
}

/// The segments that survive the filter decision: those whose position is not
/// named in `remove`, in order.
pub open spec fn kept_segments(
    batch: Seq<TranslatedSegment>,
    remove: Seq<u64>,
    n: int,
) -> Seq<TranslatedSegment>
    decreases n,
{
    if n <= 0 {
        Seq::empty()
    } else {
        kept_segments(batch, remove, n - 1) + (if id_removed(remove, n - 1) {
            Seq::empty()
        } else {
            seq![batch[n - 1]]
        })
    }
}

/// The filter never grows a window.
pub proof fn lemma_filter_never_grows(batch: Seq<TranslatedSegment>, remove: Seq<u64>, n: int)
    ensures
        kept_segments(batch, remove, n).len() <= (if n >= 0 {
            n
        } else {
            0
        }),
    decreases n,
{
    if n > 0 {
        lemma_filter_never_grows(batch, remove, n - 1);
    }
}

/// The ids of a decoded filter decision, as the removal predicate reads them.
pub open spec fn remove_view(fr: FilterResponse) -> Seq<u64> {
    fr.remove_ids@.map_values(|x: usize| x as u64)
}

/// Whether a decoded id list fits the window-local id type.
pub open spec fn ids_fit(xs: Seq<u64>) -> bool {
    forall|k: int| 0 <= k < xs.len() ==> (#[trigger] xs[k]) <= usize::MAX
}

/// Decodes a filter reply into the decision; `None` is a total decode failure
/// (unparseable text, or an id too large to name a position), which the
/// caller recovers from by keeping every item.
pub fn decode_filter_reply(reply: &str) -> (r: Option<FilterResponse>)
    ensures
        match r {
            Some(fr) => crate::json::parse_remove_ids_doc(cleaned(reply@)) matches Some(xs)
                && remove_view(fr) == xs,
            None => crate::json::parse_remove_ids_doc(cleaned(reply@)) is None
                || !ids_fit(crate::json::parse_remove_ids_doc(cleaned(reply@))->Some_0),
        },
{
    let chars = str_to_chars(reply);
    let content = crate::codec::clean_reply(&chars);
    match crate::json::parse_remove_ids_doc_exec(&content) {
        Some(xs) => {
            let mut ids: Vec<usize> = Vec::new();
            let mut i: usize = 0;
            while i < xs.len()
                invariant
                    0 <= i <= xs@.len(),
                    ids@.len() == i,
                    crate::json::parse_remove_ids_doc(cleaned(reply@)) == Some(xs@),
                    forall|k: int| 0 <= k < i ==> (#[trigger] ids@[k]) as u64 == xs@[k],
                decreases xs@.len() - i,
            {
                let x = xs[i];
                if x > (usize::MAX as u64) {
                    proof {
                        assert(xs@[i as int] > usize::MAX);
                        assert(!ids_fit(xs@));
                    }
                    return None;
                }
                ids.push(x as usize);
                i = i + 1;
            }
            let fr = FilterResponse { remove_ids: ids };
            proof {
                assert(remove_view(fr) =~= xs@);
            }
            Some(fr)
        },
        None => None,
    }
}

/// Applies a filter decision: with a decoded decision the named positions are
/// dropped, nothing is added or rewritten, and order is kept; with none —
/// the fail-open rule — every segment is kept. The output is never longer
/// than the input.
pub fn apply_filter(batch: &Vec<TranslatedSegment>, remove: &Option<FilterResponse>) -> (out: Vec<
    TranslatedSegment,
>)
    ensures
        match remove {
            Some(fr) => out@ == kept_segments(batch@, remove_view(*fr), batch@.len() as int),
            None => out@.len() == batch@.len() && forall|i: int|
                0 <= i < batch@.len() ==> out@[i] == batch@[i],
        },
        out@.len() <= batch@.len(),
{
    match remove {
        Some(fr) => {
            let ids = &fr.remove_ids;
            let mut out: Vec<TranslatedSegment> = Vec::new();
            let mut i: usize = 0;
            let ghost rv = remove_view(*fr);
            while i < batch.len()
                invariant
                    0 <= i <= batch@.len(),
                    rv == remove_view(*fr),
                    rv.len() == ids@.len(),
                    forall|k: int| 0 <= k < rv.len() ==> rv[k] == (#[trigger] ids@[k]) as u64,
                    out@ == kept_segments(batch@, rv, i as int),
                decreases batch@.len() - i,
            {
                let mut hit = false;
                let mut k: usize = 0;
                while k < ids.len()
                    invariant
                        0 <= k <= ids@.len(),
                        rv.len() == ids@.len(),
                        forall|m: int| 0 <= m < rv.len() ==> rv[m] == (#[trigger] ids@[m]) as u64,
                        hit <==> exists|m: int| 0 <= m < k && rv[m] == i as int,
                    decreases ids@.len() - k,
                {
                    if ids[k] == i {
                        proof {
                            assert(rv[k as int] == i as int);
                        }
                        hit = true;
                    }
                    k = k + 1;
                }
                proof {
                    assert(hit == id_removed(rv, i as int));
                }
                if !hit {
                    out.push(batch[i].clone_seg());
                    proof {
                        assert(out@ =~= kept_segments(batch@, rv, i + 1 as int));
                    }
                } else {
                    proof {
                        assert(out@ =~= kept_segments(batch@, rv, i + 1 as int));
                    }
                }
                i = i + 1;
            }
            proof {
                lemma_filter_never_grows(batch@, rv, batch@.len() as int);
            }
            out
        },
        None => {
            let mut out: Vec<TranslatedSegment> = Vec::new();
            let mut i: usize = 0;
            while i < batch.len()
                invariant
                    0 <= i <= batch@.len(),
                    out@.len() == i,
                    forall|j: int| 0 <= j < i ==> out@[j] == batch@[j],
                decreases batch@.len() - i,
            {
                out.push(batch[i].clone_seg());
                i = i + 1;
            }
            out
        },
    }
}

/// When a response list carries id `j + off` at each position `j`, the lookup
/// for id `i` resolves to position `i - off`.
pub proof fn lemma_response_lookup(
    rs: Seq<BatchTranslationResponse>,
    f: Seq<char>,
    i: int,
    off: int,
)
    requires
        forall|j: int| 0 <= j < rs.len() ==> (#[trigger] rs[j]).id == j + off,
        0 <= i - off < rs.len(),
    ensures
        response_text_for(rs, f, i) == rs[i - off].translated_text@,
    decreases rs.len(),
{
    if rs.first().id == i {
        assert(rs[0].id == off);
    } else {
        let t = rs.drop_first();
        assert(forall|j: int| 0 <= j < t.len() ==> (#[trigger] t[j]).id == j + (off + 1));
        lemma_response_lookup(t, f, i, off + 1);
        assert(t[i - off - 1] == rs[i - off]);
    }
}

proof fn lemma_join_translated_congruence(
    a: Seq<TranslatedSegment>,
    b: Seq<TranslatedSegment>,
    sep: char,
)
    requires
        a.len() == b.len(),
        forall|i: int| 0 <= i < a.len() ==> (#[trigger] a[i]).translated@ == b[i].translated@,
    ensures
        join_translated(a, sep) == join_translated(b, sep),
    decreases a.len(),
{
    if a.len() > 0 {
        let a2 = a.drop_last();
        let b2 = b.drop_last();
        assert(forall|i: int|
            0 <= i < a2.len() ==> (#[trigger] a2[i]).translated@ == b2[i].translated@);
        lemma_join_translated_congruence(a2, b2, sep);
    }
}

/// Law: the summary update request for a window is a function of the rolling
/// summary and that window's translated text alone — two runs that agree on
/// those send the same request, whatever else (later windows included)
/// differs. Together with the summary becoming the trimmed reply to exactly
/// this request, nothing from a future window can reach the rolling summary.
pub proof fn lemma_summary_request_local(
    s1: Seq<char>,
    w1: Seq<TranslatedSegment>,
    s2: Seq<char>,
    w2: Seq<TranslatedSegment>,
)
    requires
        s1 == s2,
        w1.len() == w2.len(),
        forall|i: int| 0 <= i < w1.len() ==> (#[trigger] w1[i]).translated@ == w2[i].translated@,
    ensures
        summary_prompt(s1, w1) == summary_prompt(s2, w2),
{
    lemma_join_translated_congruence(w1, w2, ' ');
}

} // verus!


