//! Value types of the pipeline and fixed-size windowing over the segment
//! sequence.

use vstd::prelude::*;

verus! {

/// One time-coded segment of the source transcript, produced upstream by
/// speech recognition. Timestamps are pass-through: the pipeline never
/// recomputes or reorders them.
pub struct TranscriptSegment {
    pub start: i64,
    pub end: i64,
    pub text: String,
}

/// One translated segment. `start`, `end` and `original` are copied from the
/// source segment; `translated` may later be rewritten by the edit stage, and
/// the whole segment may be dropped (never mutated) by the filter stage.
pub struct TranslatedSegment {
    pub start: i64,
    pub end: i64,
    pub original: String,
    pub translated: String,
}

/// Provider-agnostic request unit: a window-local id and the text to work on.
pub struct BatchItem {
    pub id: usize,
    pub text: String,
}

/// Reply unit: the id of the originating `BatchItem` and its translated text.
/// An id missing from a decoded reply is a recoverable gap, not an error.
pub struct BatchTranslationResponse {
    pub id: usize,
    pub translated_text: String,
}

/// What a filter reply decodes to: the window-local ids to drop.
pub struct FilterResponse {
    pub remove_ids: Vec<usize>,
}

impl TranscriptSegment {
    pub fn clone_seg(&self) -> (r: TranscriptSegment)
        ensures
            r.start == self.start,
            r.end == self.end,
            r.text@ == self.text@,
    {
        TranscriptSegment { start: self.start, end: self.end, text: self.text.clone() }
    }
}

impl TranslatedSegment {
    pub fn clone_seg(&self) -> (r: TranslatedSegment)
        ensures
            r == *self,
    {
        TranslatedSegment {
            start: self.start,
            end: self.end,
            original: self.original.clone(),
            translated: self.translated.clone(),
        }
    }
}

/// Copies the segments of one window out of the full sequence.
pub fn window_slice(segs: &Vec<TranscriptSegment>, start: usize, size: usize) -> (r: Vec<
    TranscriptSegment,
>)
    requires
        start < segs@.len(),
        size > 0,
    ensures
        r@.len() == if start + size <= segs@.len() {
            size as int
        } else {
            segs@.len() - start
        },
        forall|i: int|
            0 <= i < r@.len() ==> {
                &&& r@[i].start == segs@[start + i].start
                &&& r@[i].end == segs@[start + i].end
                &&& r@[i].text@ == segs@[start + i].text@
            },
{
    let end: usize = if segs.len() - start >= size {
        start + size
    } else {
        segs.len()
    };
    let mut r: Vec<TranscriptSegment> = Vec::new();
    let mut i: usize = start;
    while i < end
        invariant
            start <= i <= end <= segs@.len(),
            end == if start + size <= segs@.len() {
                (start + size) as int
            } else {
                segs@.len() as int
            },
            r@.len() == i - start,
            forall|j: int|
                0 <= j < r@.len() ==> {
                    &&& r@[j].start == segs@[start + j].start
                    &&& r@[j].end == segs@[start + j].end
                    &&& r@[j].text@ == segs@[start + j].text@
                },
        decreases end - i,
    {
        r.push(segs[i].clone_seg());
        i = i + 1;
    }
    r
}

/// Builds the window-local batch: item `i` carries id `i` and the text of the
/// `i`-th segment of the window. The id space `0..window_len` is shared by
/// every stage of the window.
pub fn make_batch_items(chunk: &Vec<TranscriptSegment>) -> (r: Vec<BatchItem>)
    ensures
        r@.len() == chunk@.len(),
        forall|i: int|
            0 <= i < r@.len() ==> r@[i].id == i && r@[i].text@ == chunk@[i].text@,
{
    let mut r: Vec<BatchItem> = Vec::new();
    let mut i: usize = 0;
    while i < chunk.len()
        invariant
            0 <= i <= chunk@.len(),
            r@.len() == i,
            forall|j: int|
                0 <= j < r@.len() ==> r@[j].id == j && r@[j].text@ == chunk@[j].text@,
        decreases chunk@.len() - i,
    {
        r.push(BatchItem { id: i, text: chunk[i].text.clone() });
        i = i + 1;
    }
    r
}

} // verus!
