//! Recording: every buffer of samples that the input stream delivers is put
//! at the end of the recording, in the order of delivery.

use std::collections::VecDeque;
use vstd::prelude::*;

verus! {

/// Puts the delivered samples at the end of the recording. What was recorded
/// before stays as it was, so a recording only ever grows.
pub fn capture_samples<T: Copy>(buffer: &mut Vec<T>, data: &[T])
    ensures
        final(buffer)@ == old(buffer)@ + data@,
        final(buffer)@.len() == old(buffer)@.len() + data@.len(),
        old(buffer)@.is_prefix_of(final(buffer)@),
{
    let ghost before = buffer@;
    let mut i: usize = 0;
    while i < data.len()
        invariant
            i <= data@.len(),
            buffer@ == before + data@.subrange(0, i as int),
        decreases data@.len() - i,
    {
        buffer.push(data[i]);
        i += 1;
    }
    assert(data@.subrange(0, i as int) == data@);
}

/// Puts the delivered samples at the back of a recording that is kept as a
/// queue. What was recorded before stays as it was, so a recording only ever
/// grows.
pub fn capture_samples_queued<T: Copy>(buffer: &mut VecDeque<T>, data: &[T])
    ensures
        final(buffer)@ == old(buffer)@ + data@,
        final(buffer)@.len() == old(buffer)@.len() + data@.len(),
        old(buffer)@.is_prefix_of(final(buffer)@),
{
    let ghost before = buffer@;
    let mut i: usize = 0;
    while i < data.len()
        invariant
            i <= data@.len(),
            buffer@ == before + data@.subrange(0, i as int),
        decreases data@.len() - i,
    {
        buffer.push_back(data[i]);
        i += 1;
    }
    assert(data@.subrange(0, i as int) == data@);
}

/// What a recording that started empty holds once the first `count` of the
/// `deliveries` were captured.
pub open spec fn recording_after<T>(deliveries: Seq<Seq<T>>, count: int) -> Seq<T>
    decreases count,
{
    if count <= 0 {
        Seq::empty()
    } else {
        recording_after(deliveries, count - 1) + deliveries[count - 1]
    }
}

/// Whenever a recording is looked at while it is made, it holds what it held
/// the time before, followed by what was delivered since: it never shrinks
/// and nothing in it changes.
pub proof fn lemma_recording_only_grows<T>(deliveries: Seq<Seq<T>>, earlier: int, later: int)
    requires
        0 <= earlier <= later <= deliveries.len(),
    ensures
        recording_after(deliveries, earlier).is_prefix_of(recording_after(deliveries, later)),
        recording_after(deliveries, earlier).len() <= recording_after(deliveries, later).len(),
    decreases later - earlier,
{
    if earlier < later {
        lemma_recording_only_grows(deliveries, earlier, later - 1);
    }
}

} // verus!
