//! Translation frame arithmetic for coding sub-features.

use vstd::prelude::*;

verus! {

/// The frame of the feature that follows a feature of span `span` carrying
/// frame `frame`: the number of bases to discard from the next feature's
/// transcript-wise 5' end to stay in frame.
pub open spec fn spec_next_frame(span: int, frame: int) -> int {
    if span >= frame {
        (3 - ((span - frame) % 3)) % 3
    } else {
        3 - ((frame - span) % 3)
    }
}

/// The running frame after walking features with the given spans in
/// transcription order, starting from frame 0.
pub open spec fn frames_fold(spans: Seq<int>) -> int
    decreases spans.len(),
{
    if spans.len() == 0 {
        0
    } else {
        spec_next_frame(spans.last(), frames_fold(spans.drop_last()))
    }
}

/// A fold over non-negative spans keeps the running frame within `0..3`.
pub proof fn lemma_frames_fold_range(spans: Seq<int>)
    requires
        forall|i: int| 0 <= i < spans.len() ==> spans[i] >= 0,
    ensures
        0 <= frames_fold(spans) < 3,
    decreases spans.len(),
{
    if spans.len() > 0 {
        lemma_frames_fold_range(spans.drop_last());
    }
}

/// Calculates the frame of the feature that follows one of span `cur_span`
/// and frame `cur_frame` in transcription order.
pub fn calc_next_frame(cur_span: u64, cur_frame: u8) -> (r: u8)
    ensures
        r == spec_next_frame(cur_span as int, cur_frame as int),
{
    let cast_cur_frame = cur_frame as u64;
    if cur_span >= cast_cur_frame {
        ((3 - ((cur_span - cast_cur_frame) % 3)) % 3) as u8
    } else {
        (3 - ((cast_cur_frame - cur_span) % 3)) as u8
    }
}

} // verus!
