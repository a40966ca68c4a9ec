//! Playback: the settings of the output stream, and what goes into the
//! buffers that the output stream asks to have filled.

use vstd::prelude::*;
use vstd::std_specs::iter::IteratorSpec;

verus! {

/// The buffer sizes, in frames, that a device can work with.
#[derive(Debug, Clone, Copy, PartialEq, Eq)]
pub enum SupportedBufferSize {
    /// Any size from `min` to `max`.
    Range { min: u32, max: u32 },
    /// The device does not say before a stream runs.
    Unknown,
}

/// The buffer size, in frames, that a stream is opened with.
#[derive(Debug, Clone, Copy, PartialEq, Eq)]
pub enum BufferSize {
    /// Whatever the device picks.
    Default,
    /// This many frames.
    Fixed(u32),
}

/// What a device offers for a stream.
#[derive(Debug, Clone, Copy, PartialEq, Eq)]
pub struct SupportedStreamConfig {
    /// The number of channels.
    pub channels: u16,
    /// Samples per second and channel, in Hz.
    pub sample_rate: u32,
    /// The buffer sizes the device can work with.
    pub buffer_size: SupportedBufferSize,
}

/// What a stream is opened with.
#[derive(Debug, Clone, Copy, PartialEq, Eq)]
pub struct StreamConfig {
    /// The number of channels.
    pub channels: u16,
    /// Samples per second and channel, in Hz.
    pub sample_rate: u32,
    /// The size of the buffers that the stream asks to have filled.
    pub buffer_size: BufferSize,
}

/// The settings for playing on a device that offers `supported`: its
/// channels and sample rate, and the smallest buffer it can work with, for
/// the shortest delay. Where the device names no sizes the choice is left to
/// it.
pub open spec fn spec_output_stream_config(supported: SupportedStreamConfig) -> StreamConfig {
    StreamConfig {
        channels: supported.channels,
        sample_rate: supported.sample_rate,
        buffer_size: match supported.buffer_size {
            SupportedBufferSize::Range { min, max } => BufferSize::Fixed(min),
            SupportedBufferSize::Unknown => BufferSize::Default,
        },
    }
}

/// The settings for playing on a device that offers `supported`.
pub fn output_stream_config(supported: &SupportedStreamConfig) -> (config: StreamConfig)
    ensures
        config == spec_output_stream_config(*supported),
{
    StreamConfig {
        channels: supported.channels,
        sample_rate: supported.sample_rate,
        buffer_size: match supported.buffer_size {
            SupportedBufferSize::Range { min, max: _ } => BufferSize::Fixed(min),
            SupportedBufferSize::Unknown => BufferSize::Default,
        },
    }
}

/// What is played in slot number `index` of a stream fed from `source`: the
/// sample at that place, and `silence` once the source has run out.
pub open spec fn played<T>(source: Seq<T>, index: int, silence: T) -> T {
    if 0 <= index < source.len() {
        source[index]
    } else {
        silence
    }
}

/// What is left of `source` after `slots` slots were filled from it.
pub open spec fn left_after<T>(source: Seq<T>, slots: int) -> Seq<T> {
    if slots < source.len() {
        source.skip(slots)
    } else {
        Seq::empty()
    }
}

/// Fills the buffer that the output stream handed over: each slot gets the
/// next sample of `samples`. Once `samples` has none left, that slot and
/// every slot after it in the buffer gets `silence`, and `samples` is not
/// asked again for this buffer. Running out is no error: the stream goes on,
/// silent.
///
/// What the slots hold is stated of a source that ends and stays ended, as
/// iterators over stored samples do. Of a source that goes on forever, or
/// that would come back after it ended, only the buffer's length is stated.
pub fn fill_output<T: Copy, S: Iterator<Item = T>>(data: &mut [T], samples: &mut S, silence: T)
    ensures
        final(data)@.len() == old(data)@.len(),
        (*final(samples)).obeys_prophetic_iter_laws() == (*old(samples)).obeys_prophetic_iter_laws(),
        (*old(samples)).obeys_prophetic_iter_laws() ==> {
            &&& forall|i: int|
                0 <= i < final(data)@.len() ==> #[trigger] final(data)@[i] == played(
                    (*old(samples)).remaining(),
                    i,
                    silence,
                )
            &&& (*final(samples)).remaining() == left_after(
                (*old(samples)).remaining(),
                old(data)@.len() as int,
            )
        },
{
    let slots = data.len();
    let ghost source = (*samples).remaining();
    let ghost lawful = (*samples).obeys_prophetic_iter_laws();
    let mut exhausted = false;
    let mut i: usize = 0;
    while i < slots
        invariant
            i <= slots,
            slots == data@.len(),
            (*samples).obeys_prophetic_iter_laws() == lawful,
            lawful ==> (*samples).remaining() == left_after(source, i as int),
            lawful && exhausted ==> source.len() <= i,
            lawful ==> forall|k: int| 0 <= k < i ==> #[trigger] data@[k] == played(source, k, silence),
        decreases slots - i,
    {
        let next = if exhausted {
            None
        } else {
            samples.next()
        };
        match next {
            Some(sample) => {
                data[i] = sample;
            },
            None => {
                exhausted = true;
                data[i] = silence;
            },
        }
        i += 1;
    }
}

/// A stream that is filled buffer by buffer plays what it would play if it
/// were filled in one go: slot `index` of the buffer that is filled after
/// `slots` slots is slot `slots + index` of the stream.
pub proof fn lemma_fills_continue<T>(source: Seq<T>, slots: int, index: int, silence: T)
    requires
        0 <= slots,
        0 <= index,
    ensures
        played(left_after(source, slots), index, silence) == played(source, slots + index, silence),
        left_after(left_after(source, slots), index) == left_after(source, slots + index),
{
}

/// How many slots the first `count` buffers of the sizes `sizes` have.
pub open spec fn slots_before(sizes: Seq<nat>, count: int) -> int
    decreases count,
{
    if count <= 0 {
        0
    } else {
        slots_before(sizes, count - 1) + sizes[count - 1]
    }
}

/// What is left of `source` when the first `count` buffers of the sizes
/// `sizes` were filled from it, one after the other.
pub open spec fn left_after_fills<T>(source: Seq<T>, sizes: Seq<nat>, count: int) -> Seq<T>
    decreases count,
{
    if count <= 0 {
        source
    } else {
        left_after(left_after_fills(source, sizes, count - 1), sizes[count - 1] as int)
    }
}

/// However the stream cuts its requests into buffers, it plays the source
/// and then silence, for as long as it asks: slot `index` of the buffer that
/// is filled after `count` others is slot `slots_before(sizes, count) + index`
/// of the stream, and that is silence once the source's samples are played.
pub proof fn lemma_stream_of_fills<T>(
    source: Seq<T>,
    sizes: Seq<nat>,
    count: int,
    index: int,
    silence: T,
)
    requires
        0 <= count <= sizes.len(),
        0 <= index,
    ensures
        0 <= slots_before(sizes, count),
        left_after_fills(source, sizes, count) == left_after(source, slots_before(sizes, count)),
        played(left_after_fills(source, sizes, count), index, silence) == played(
            source,
            slots_before(sizes, count) + index,
            silence,
        ),
        slots_before(sizes, count) + index >= source.len() ==> played(
            left_after_fills(source, sizes, count),
            index,
            silence,
        ) == silence,
    decreases count,
{
    if count > 0 {
        lemma_stream_of_fills(source, sizes, count - 1, index, silence);
        lemma_fills_continue(
            source,
            slots_before(sizes, count - 1),
            sizes[count - 1] as int,
            silence,
        );
        lemma_fills_continue(source, slots_before(sizes, count), index, silence);
    } else {
        lemma_fills_continue(source, 0, index, silence);
    }
}

} // verus!
