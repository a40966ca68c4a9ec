//! Encoding and then decoding gives the samples back, as far as the codec
//! does.

use vstd::prelude::*;

use super::decode::{codec_decodes, decoded_as, frame_start, packet_decodes_to, spec_packet_fec};
use super::encode::{codec_encodes, encoded_as, packet_of, StreamFormat};
use super::framing::{frame, frame_count, lemma_frame_count, lemma_frames_tile_padded, padded};
use super::SoundPacket;

verus! {

/// What a pair of codecs keeps of a frame of `frame_len` samples: whatever
/// `decoder` makes of a payload that `encoder` made of a frame is, sample by
/// sample, `close` to that frame.
///
/// For a lossless pair `close` is equality. For a lossy pair it is the bound
/// on the error that the codec keeps to.
pub open spec fn within_tolerance<
    S,
    E1,
    E2,
    C: Fn(&[S]) -> Result<Vec<u8>, E1>,
    D: Fn(&[u8], usize, bool) -> Result<Vec<S>, E2>,
>(encoder: C, decoder: D, frame_len: int, close: spec_fn(S, S) -> bool) -> bool {
    forall|sent: Seq<S>, payload: Vec<u8>, fec: bool, decoded: Vec<S>|
        sent.len() == frame_len && decoded@.len() == frame_len && #[trigger] codec_encodes(
            encoder,
            sent,
            Ok(payload),
        ) && #[trigger] codec_decodes(decoder, payload@, frame_len as usize, fec, Ok(decoded))
            ==> forall|j: int| 0 <= j < frame_len ==> close(#[trigger] sent[j], decoded@[j])
}

/// Packets that all carry the same frame size lie one frame apart.
pub proof fn lemma_frame_start_of_equal_frames(
    packets: Seq<SoundPacket>,
    frame_len: int,
    index: int,
)
    requires
        0 <= index <= packets.len(),
        forall|i: int| 0 <= i < packets.len() ==> (#[trigger] packets[i]).samples_per_frame == frame_len,
    ensures
        frame_start(packets, index) == index * frame_len,
    decreases index,
{
    if index > 0 {
        lemma_frame_start_of_equal_frames(packets, frame_len, index - 1);
        assert(packets[index - 1].samples_per_frame == frame_len);
        assert((index - 1) * frame_len + frame_len == index * frame_len) by (nonlinear_arith);
    }
}

/// Decoding what was encoded gives back the samples, followed by the silence
/// that filled up the last frame, each sample within the codec's tolerance.
///
/// `packets` are what [`encode_samples_opus`](super::encode::encode_samples_opus)
/// made of `samples`, and `decoded` is what
/// [`decode_samples_opus`](super::decode::decode_samples_opus) made of `packets`.
pub proof fn lemma_round_trip<
    S,
    E1,
    E2,
    C: Fn(&[S]) -> Result<Vec<u8>, E1>,
    D: Fn(&[u8], usize, bool) -> Result<Vec<S>, E2>,
>(
    encoder: C,
    decoder: D,
    format: StreamFormat,
    samples: Seq<S>,
    silence: S,
    frame_len: int,
    packets: Seq<SoundPacket>,
    decoded: Seq<S>,
    close: spec_fn(S, S) -> bool,
)
    requires
        0 < frame_len <= usize::MAX,
        encoded_as(encoder, format, samples, silence, frame_len, packets),
        decoded_as(decoder, packets, decoded),
        within_tolerance(encoder, decoder, frame_len, close),
    ensures
        decoded.len() == padded(samples, frame_len, silence).len(),
        decoded.len() == frame_count(samples.len() as int, frame_len) * frame_len,
        forall|k: int|
            0 <= k < decoded.len() ==> close(
                #[trigger] padded(samples, frame_len, silence)[k],
                decoded[k],
            ),
{
    let count = frame_count(samples.len() as int, frame_len);
    lemma_frame_count(samples.len() as int, frame_len);
    assert forall|i: int| 0 <= i < packets.len() implies (#[trigger] packets[i]).samples_per_frame
        == frame_len by {
        assert(packets[i] == packet_of(format, packets[i].bytes, frame_len));
    }
    lemma_frame_start_of_equal_frames(packets, frame_len, count);
    assert(padded(samples, frame_len, silence).len() == count * frame_len);
    assert forall|k: int| 0 <= k < decoded.len() implies close(
        #[trigger] padded(samples, frame_len, silence)[k],
        decoded[k],
    ) by {
        let i = k / frame_len;
        let j = k % frame_len;
        assert(k == i * frame_len + j && 0 <= j < frame_len && 0 <= i < count) by (nonlinear_arith)
            requires
                0 <= k < count * frame_len,
                frame_len > 0,
                i == k / frame_len,
                j == k % frame_len,
        ;
        lemma_frame_start_of_equal_frames(packets, frame_len, i);
        lemma_frame_start_of_equal_frames(packets, frame_len, i + 1);
        assert((i + 1) * frame_len == i * frame_len + frame_len) by (nonlinear_arith);
        assert(i * frame_len + frame_len <= count * frame_len) by (nonlinear_arith)
            requires
                i < count,
                frame_len > 0,
        ;
        lemma_frames_tile_padded(samples, frame_len, i, j, silence);
        let sent = frame(samples, frame_len, i, silence);
        let part = decoded.subrange(i * frame_len, i * frame_len + frame_len);
        assert(packets[i] == packet_of(format, packets[i].bytes, frame_len));
        assert(codec_encodes(encoder, sent, Ok(packets[i].bytes)));
        assert(packet_decodes_to(decoder, packets[i], spec_packet_fec(packets[i]), part));
        let frame_vec = choose|v: Vec<S>|
            v@ == part && #[trigger] codec_decodes(
                decoder,
                packets[i].bytes@,
                packets[i].samples_per_frame as usize,
                spec_packet_fec(packets[i]),
                Ok(v),
            );
        assert(close(sent[j], frame_vec@[j]));
        assert(part[j] == decoded[k]);
    }
}

/// With a codec pair that loses nothing, decoding what was encoded gives
/// exactly the samples followed by the silence that filled up the last
/// frame.
pub proof fn lemma_round_trip_exact<
    S,
    E1,
    E2,
    C: Fn(&[S]) -> Result<Vec<u8>, E1>,
    D: Fn(&[u8], usize, bool) -> Result<Vec<S>, E2>,
>(
    encoder: C,
    decoder: D,
    format: StreamFormat,
    samples: Seq<S>,
    silence: S,
    frame_len: int,
    packets: Seq<SoundPacket>,
    decoded: Seq<S>,
)
    requires
        0 < frame_len <= usize::MAX,
        encoded_as(encoder, format, samples, silence, frame_len, packets),
        decoded_as(decoder, packets, decoded),
        within_tolerance(encoder, decoder, frame_len, |a: S, b: S| a == b),
    ensures
        decoded == padded(samples, frame_len, silence),
{
    lemma_round_trip(
        encoder,
        decoder,
        format,
        samples,
        silence,
        frame_len,
        packets,
        decoded,
        |a: S, b: S| a == b,
    );
    assert(decoded =~= padded(samples, frame_len, silence));
}

} // verus!
