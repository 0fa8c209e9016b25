//! How a finished recording is sent for transcription: its speech segments, resampled to
//! 16 kHz, are laid end to end with a short silence between them and sent as one chunk
//! when that stays within ten minutes; otherwise each segment is sent alone and the
//! pieces of text are joined.
use vstd::prelude::*;

verus! {

/// Silence between two stitched segments: 20 ms at 16 kHz.
pub const GAP_16K_SAMPLES: usize = 320;

/// Longest stitched chunk: ten minutes at 16 kHz.
pub const MERGED_MAX_16K_SAMPLES: usize = 9_600_000;

/// Length of the stitched audio for segments of these lengths: a gap goes before a
/// segment only when audio precedes it.
pub open spec fn merged_total(lens: Seq<usize>) -> nat
    decreases lens.len(),
{
    if lens.len() == 0 {
        0
    } else {
        let t = merged_total(lens.drop_last());
        t + (if t > 0 {
            GAP_16K_SAMPLES as nat
        } else {
            0
        }) + lens.last() as nat
    }
}

/// Where the segment after `before` begins in the stitched audio.
pub open spec fn segment_start(before: Seq<usize>) -> nat {
    let t = merged_total(before);
    t + if t > 0 {
        GAP_16K_SAMPLES as nat
    } else {
        0
    }
}

/// The stitched length never shrinks as segments are added.
pub proof fn lemma_merged_total_grows(lens: Seq<usize>, i: int)
    requires
        0 <= i <= lens.len(),
    ensures
        merged_total(lens.take(i)) <= merged_total(lens),
    decreases lens.len() - i,
{
    if i < lens.len() {
        lemma_merged_total_grows(lens, i + 1);
        assert(lens.take(i + 1).drop_last() =~= lens.take(i));
    } else {
        assert(lens.take(i) =~= lens);
    }
}

/// Stitched segments never overlap and keep their order: each segment ends before any
/// later one begins, and exactly one gap separates a segment from the audio before it.
pub proof fn lemma_segments_do_not_overlap(lens: Seq<usize>, i: int, j: int)
    requires
        0 <= i < j < lens.len(),
    ensures
        segment_start(lens.take(i)) + lens[i] <= segment_start(lens.take(j)),
        merged_total(lens.take(j)) > 0 ==> segment_start(lens.take(j)) == merged_total(
            lens.take(j),
        ) + GAP_16K_SAMPLES,
{
    let prefix = lens.take(j);
    assert(lens.take(i + 1).drop_last() =~= lens.take(i));
    assert(lens.take(i + 1).last() == lens[i]);
    lemma_merged_total_grows(prefix, i + 1);
    assert(prefix.take(i + 1) =~= lens.take(i + 1));
}

/// The start of each segment in the stitched audio, and its total length.
pub fn merged_layout(lens: &[usize]) -> (r: (Vec<usize>, usize))
    requires
        merged_total(lens@) <= usize::MAX,
    ensures
        r.0@.len() == lens@.len(),
        forall|i: int| 0 <= i < lens@.len() ==> r.0@[i] == segment_start(#[trigger] lens@.take(i)),
        r.1 == merged_total(lens@),
{
    let mut starts: Vec<usize> = Vec::new();
    let mut total: usize = 0;
    let mut i: usize = 0;
    assert(lens@.take(0) =~= Seq::<usize>::empty());
    while i < lens.len()
        invariant
            i <= lens@.len(),
            merged_total(lens@) <= usize::MAX,
            total == merged_total(lens@.take(i as int)),
            starts@.len() == i,
            forall|k: int| 0 <= k < i ==> starts@[k] == segment_start(#[trigger] lens@.take(k)),
        decreases lens@.len() - i,
    {
        proof {
            lemma_merged_total_grows(lens@, i + 1);
            assert(lens@.take(i + 1).drop_last() =~= lens@.take(i as int));
        }
        let start = if total > 0 {
            total + GAP_16K_SAMPLES
        } else {
            total
        };
        starts.push(start);
        total = start + lens[i];
        i = i + 1;
    }
    assert(lens@.take(lens@.len() as int) =~= lens@);
    (starts, total)
}

/// Whether the stitched audio is sent as one chunk: it holds samples and stays within
/// ten minutes.
pub fn use_merged(total: usize) -> (r: bool)
    ensures
        r == (0 < total <= MERGED_MAX_16K_SAMPLES),
{
    total > 0 && total <= MERGED_MAX_16K_SAMPLES
}

/// Text after adding one segment's piece: empty pieces add nothing; others are appended,
/// after a space when text precedes them.
pub open spec fn joined_piece(text: Seq<char>, piece: Seq<char>) -> Seq<char> {
    if piece.len() == 0 {
        text
    } else if text.len() == 0 {
        piece
    } else {
        text + seq![' '] + piece
    }
}

/// Appends one segment's text to what the earlier segments gave.
pub fn join_piece(combined: &mut String, piece: &str)
    ensures
        final(combined)@ == joined_piece(old(combined)@, piece@),
{
    if !piece.is_empty() {
        if !combined.as_str().is_empty() {
            crate::text::push_str(combined, " ");
            proof {
                reveal_strlit(" ");
            }
        }
        crate::text::push_str(combined, piece);
    }
}

/// The status line when the recording held no samples.
pub fn empty_recording_outcome() -> (r: &'static str)
    ensures
        r@ == "Hold longer — nothing pasted"@,
{
    "Hold longer — nothing pasted"
}

/// The status line when no speech segment was found.
pub fn no_speech_outcome() -> (r: &'static str)
    ensures
        r@ == "No speech heard — hold and speak"@,
{
    "No speech heard — hold and speak"
}

} // verus!
