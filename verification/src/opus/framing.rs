//! What a frame is: the arithmetic of cutting `n` samples into frames of
//! `frame_len`, the last one filled up with silence.

use vstd::prelude::*;
use vstd::slice::slice_to_vec;

verus! {

/// How many frames of `frame_len` samples it takes to hold `sample_count`
/// samples: the quotient, rounded up.
pub open spec fn frame_count(sample_count: int, frame_len: int) -> int
    recommends
        sample_count >= 0,
        frame_len > 0,
{
    (sample_count + frame_len - 1) / frame_len
}

/// How many samples of silence fill up the last frame.
pub open spec fn padding_len(sample_count: int, frame_len: int) -> int
    recommends
        sample_count >= 0,
        frame_len > 0,
{
    (frame_len - sample_count % frame_len) % frame_len
}

/// Frame number `index` of `samples`: `frame_len` samples starting at
/// `index * frame_len`, with `silence` wherever `samples` has run out.
pub open spec fn frame<S>(samples: Seq<S>, frame_len: int, index: int, silence: S) -> Seq<S> {
    Seq::new(
        frame_len as nat,
        |j: int|
            if index * frame_len + j < samples.len() {
                samples[index * frame_len + j]
            } else {
                silence
            },
    )
}

/// `samples` followed by as much silence as fills up the last frame.
pub open spec fn padded<S>(samples: Seq<S>, frame_len: int, silence: S) -> Seq<S> {
    samples + Seq::new(padding_len(samples.len() as int, frame_len) as nat, |j: int| silence)
}

/// The frames hold the samples and the padding, and nothing else: the padding
/// is shorter than a frame, and there is a frame only where there is a sample.
pub proof fn lemma_frame_count(sample_count: int, frame_len: int)
    requires
        sample_count >= 0,
        frame_len > 0,
    ensures
        frame_count(sample_count, frame_len) * frame_len == sample_count + padding_len(
            sample_count,
            frame_len,
        ),
        0 <= padding_len(sample_count, frame_len) < frame_len,
        0 <= frame_count(sample_count, frame_len) <= sample_count,
        sample_count == 0 <==> frame_count(sample_count, frame_len) == 0,
{
    let q = sample_count / frame_len;
    let r = sample_count % frame_len;
    assert(sample_count == q * frame_len + r && 0 <= r < frame_len && q >= 0) by (nonlinear_arith)
        requires
            sample_count >= 0,
            frame_len > 0,
            q == sample_count / frame_len,
            r == sample_count % frame_len,
    ;
    if r == 0 {
        assert((frame_len - 0) % frame_len == 0) by (nonlinear_arith)
            requires
                frame_len > 0,
        ;
        assert((q * frame_len + frame_len - 1) / frame_len == q) by (nonlinear_arith)
            requires
                frame_len > 0,
        ;
    } else {
        assert((frame_len - r) % frame_len == frame_len - r) by (nonlinear_arith)
            requires
                0 < r < frame_len,
        ;
        assert((q * frame_len + r + frame_len - 1) / frame_len == q + 1) by (nonlinear_arith)
            requires
                0 < r < frame_len,
        ;
        assert((q + 1) * frame_len == q * frame_len + frame_len) by (nonlinear_arith);
    }
    assert(q * frame_len >= q) by (nonlinear_arith)
        requires
            q >= 0,
            frame_len > 0,
    ;
}

/// `frame_count` is the least number of frames that hold all the samples.
pub proof fn lemma_frame_count_is_least(sample_count: int, frame_len: int, frames: int)
    requires
        sample_count >= 0,
        frame_len > 0,
    ensures
        frames * frame_len >= sample_count <==> frames >= frame_count(sample_count, frame_len),
{
    lemma_frame_count(sample_count, frame_len);
    let count = frame_count(sample_count, frame_len);
    if frames >= count {
        assert(frames * frame_len >= count * frame_len) by (nonlinear_arith)
            requires
                frames >= count,
                frame_len > 0,
        ;
    } else {
        assert(frames * frame_len <= (count - 1) * frame_len) by (nonlinear_arith)
            requires
                frames <= count - 1,
                frame_len > 0,
        ;
        assert((count - 1) * frame_len == count * frame_len - frame_len) by (nonlinear_arith);
    }
}

/// A chunk at the end of the samples, filled up with silence, is that frame.
pub proof fn lemma_padded_chunk_is_frame<S>(
    samples: Seq<S>,
    frame_len: int,
    index: int,
    silence: S,
    end: int,
)
    requires
        frame_len > 0,
        0 <= index * frame_len <= end <= samples.len(),
        end == samples.len() || end == index * frame_len + frame_len,
        end <= index * frame_len + frame_len,
    ensures
        samples.subrange(index * frame_len, end) + Seq::new(
            (index * frame_len + frame_len - end) as nat,
            |j: int| silence,
        ) == frame(samples, frame_len, index, silence),
{
}

/// Only the last frame holds silence: every frame before it is a run of
/// `frame_len` samples, and the last is what is left of the samples followed
/// by `padding_len` samples of silence.
pub proof fn lemma_only_last_frame_is_padded<S>(
    samples: Seq<S>,
    frame_len: int,
    index: int,
    silence: S,
)
    requires
        frame_len > 0,
        0 <= index < frame_count(samples.len() as int, frame_len),
    ensures
        index < frame_count(samples.len() as int, frame_len) - 1 ==> frame(
            samples,
            frame_len,
            index,
            silence,
        ) == samples.subrange(index * frame_len, index * frame_len + frame_len),
        index == frame_count(samples.len() as int, frame_len) - 1 ==> frame(
            samples,
            frame_len,
            index,
            silence,
        ) == samples.subrange(index * frame_len, samples.len() as int) + Seq::new(
            padding_len(samples.len() as int, frame_len) as nat,
            |j: int| silence,
        ),
{
    let n = samples.len() as int;
    let count = frame_count(n, frame_len);
    lemma_frame_count(n, frame_len);
    lemma_frame_count_is_least(n, frame_len, index);
    lemma_frame_count_is_least(n, frame_len, index + 1);
    assert((index + 1) * frame_len == index * frame_len + frame_len) by (nonlinear_arith);
    assert(0 <= index * frame_len) by (nonlinear_arith)
        requires
            index >= 0,
            frame_len > 0,
    ;
    if index < count - 1 {
        lemma_padded_chunk_is_frame(
            samples,
            frame_len,
            index,
            silence,
            index * frame_len + frame_len,
        );
    } else {
        lemma_padded_chunk_is_frame(samples, frame_len, index, silence, n);
    }
}

/// The frames, one after the other, are the samples followed by the padding:
/// sample `offset` of frame `index` is sample `index * frame_len + offset`
/// of [`padded`].
pub proof fn lemma_frames_tile_padded<S>(
    samples: Seq<S>,
    frame_len: int,
    index: int,
    offset: int,
    silence: S,
)
    requires
        frame_len > 0,
        0 <= index < frame_count(samples.len() as int, frame_len),
        0 <= offset < frame_len,
    ensures
        padded(samples, frame_len, silence).len() == frame_count(samples.len() as int, frame_len)
            * frame_len,
        0 <= index * frame_len + offset < padded(samples, frame_len, silence).len(),
        frame(samples, frame_len, index, silence)[offset] == padded(
            samples,
            frame_len,
            silence,
        )[index * frame_len + offset],
{
    let n = samples.len() as int;
    let count = frame_count(n, frame_len);
    lemma_frame_count(n, frame_len);
    assert(0 <= index * frame_len && index * frame_len + frame_len <= count * frame_len)
        by (nonlinear_arith)
        requires
            0 <= index < count,
            frame_len > 0,
    ;
}

/// `chunk` filled up with `silence` to `frame_len` samples.
pub fn pad_frame<S: Copy>(chunk: &[S], frame_len: usize, silence: S) -> (out: Vec<S>)
    requires
        chunk@.len() <= frame_len,
    ensures
        out@ == chunk@ + Seq::new((frame_len - chunk@.len()) as nat, |j: int| silence),
{
    let mut out = slice_to_vec(chunk);
    while out.len() < frame_len
        invariant
            chunk@.len() <= out@.len() <= frame_len,
            out@ == chunk@ + Seq::new((out@.len() - chunk@.len()) as nat, |j: int| silence),
        decreases frame_len - out@.len(),
    {
        out.push(silence);
    }
    out
}

} // verus!
