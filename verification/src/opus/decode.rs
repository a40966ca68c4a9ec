//! From [`SoundPacket`]s back to raw samples.

use vstd::prelude::*;

use super::encode::{Channels, EncoderType};
use super::{CodecError, SoundPacket};

verus! {

/// The settings of a decoder.
#[derive(Debug, Clone, Copy, PartialEq, Eq)]
pub struct DecoderConfig {
    /// Samples per second and channel, in Hz.
    pub sample_rate: u32,
    /// How many channels the output interleaves.
    pub channels: Channels,
}

/// The settings of an Opus decoder for the given sample rate. It decodes in
/// stereo.
pub fn create_opus_decoder(sample_rate: u32) -> (decoder: DecoderConfig)
    ensures
        decoder == (DecoderConfig { sample_rate, channels: Channels::Stereo }),
{
    DecoderConfig { sample_rate, channels: Channels::Stereo }
}

/// The error-correction flag that a packet carries.
pub open spec fn spec_packet_fec(packet: SoundPacket) -> bool {
    match packet.encoder_type {
        EncoderType::Opus(fec) => fec,
    }
}

/// The error-correction flag that a packet carries.
pub fn packet_fec(packet: &SoundPacket) -> (fec: bool)
    ensures
        fec == spec_packet_fec(*packet),
{
    match packet.encoder_type {
        EncoderType::Opus(fec) => fec,
    }
}

/// `result` is something that `codec` may answer when it is asked to decode
/// `payload` into `frame_len` samples.
pub open spec fn codec_decodes<S, E, D: Fn(&[u8], usize, bool) -> Result<Vec<S>, E>>(
    codec: D,
    payload: Seq<u8>,
    frame_len: usize,
    fec: bool,
    result: Result<Vec<S>, E>,
) -> bool {
    exists|input: &[u8]|
        input@ == payload && #[trigger] call_ensures(codec, (input, frame_len, fec), result)
}

/// `codec` is ready to be asked for `packet`'s frame with the flag `fec`.
pub open spec fn codec_takes<S, E, D: Fn(&[u8], usize, bool) -> Result<Vec<S>, E>>(
    codec: D,
    packet: SoundPacket,
    fec: bool,
) -> bool {
    packet.samples_per_frame <= usize::MAX ==> forall|input: &[u8]|
        #[trigger] input@ == packet.bytes@ ==> call_requires(
            codec,
            (input, packet.samples_per_frame as usize, fec),
        )
}

/// `codec`, asked with the flag `fec`, may decode `packet` into `samples`,
/// and they are as many as the packet says.
pub open spec fn packet_decodes_to<S, E, D: Fn(&[u8], usize, bool) -> Result<Vec<S>, E>>(
    codec: D,
    packet: SoundPacket,
    fec: bool,
    samples: Seq<S>,
) -> bool {
    &&& packet.samples_per_frame <= usize::MAX
    &&& samples.len() == packet.samples_per_frame
    &&& exists|decoded: Vec<S>|
        decoded@ == samples && #[trigger] codec_decodes(
            codec,
            packet.bytes@,
            packet.samples_per_frame as usize,
            fec,
            Ok(decoded),
        )
}

/// Decoding `packet` with `codec` and the flag `fec` may fail with `error`:
/// the codec may reject the payload with it, or the frame does not have the
/// size that the packet says.
pub open spec fn packet_fails_with<S, E, D: Fn(&[u8], usize, bool) -> Result<Vec<S>, E>>(
    codec: D,
    packet: SoundPacket,
    fec: bool,
    error: CodecError<E>,
) -> bool {
    match error {
        CodecError::Transform(e) => {
            &&& packet.samples_per_frame <= usize::MAX
            &&& codec_decodes(
                codec,
                packet.bytes@,
                packet.samples_per_frame as usize,
                fec,
                Err::<Vec<S>, E>(e),
            )
        },
        CodecError::InvalidFrameSize => {
            ||| packet.samples_per_frame > usize::MAX
            ||| exists|decoded: Vec<S>|
                decoded@.len() != packet.samples_per_frame && #[trigger] codec_decodes(
                    codec,
                    packet.bytes@,
                    packet.samples_per_frame as usize,
                    fec,
                    Ok(decoded),
                )
        },
        CodecError::UnsupportedConfiguration => false,
    }
}

/// Passes on what the codec made of one payload, once it is seen to have the
/// size that the packet promised.
pub fn checked_frame<S, E>(decoded: Result<Vec<S>, E>, samples_per_frame: usize) -> (result: Result<
    Vec<S>,
    CodecError<E>,
>)
    ensures
        match decoded {
            Ok(samples) => if samples@.len() == samples_per_frame {
                result == Ok::<Vec<S>, CodecError<E>>(samples)
            } else {
                result == Err::<Vec<S>, CodecError<E>>(CodecError::InvalidFrameSize)
            },
            Err(e) => result == Err::<Vec<S>, CodecError<E>>(CodecError::Transform(e)),
        },
{
    match decoded {
        Ok(samples) => {
            if samples.len() == samples_per_frame {
                Ok(samples)
            } else {
                Err(CodecError::InvalidFrameSize)
            }
        },
        Err(e) => Err(CodecError::Transform(e)),
    }
}

/// Decodes one packet into the `samples_per_frame` samples that it says it
/// holds. `fec` tells the codec whether to use the stream's forward error
/// correction.
///
/// # Errors
/// - [`CodecError::Transform`] with the codec's error where the codec
///   rejects the payload;
/// - [`CodecError::InvalidFrameSize`] where the codec hands back another
///   number of samples than the packet says, or the packet asks for more
///   samples than a buffer can hold (the codec is not asked then).
pub fn decode_sample_set_size_opus<S, E, D: Fn(&[u8], usize, bool) -> Result<Vec<S>, E>>(
    codec: &D,
    sound_packet: SoundPacket,
    fec: bool,
) -> (result: Result<Vec<S>, CodecError<E>>)
    requires
        codec_takes(*codec, sound_packet, fec),
    ensures
        sound_packet.samples_per_frame > usize::MAX ==> result == Err::<Vec<S>, CodecError<E>>(
            CodecError::InvalidFrameSize,
        ),
        match result {
            Ok(samples) => packet_decodes_to(*codec, sound_packet, fec, samples@),
            Err(error) => packet_fails_with(*codec, sound_packet, fec, error),
        },
{
    if sound_packet.samples_per_frame > usize::MAX as u64 {
        return Err(CodecError::InvalidFrameSize);
    }
    let frame_len: usize = sound_packet.samples_per_frame as usize;
    let input = sound_packet.bytes.as_slice();
    let decoded = codec(input, frame_len, fec);
    assert(codec_decodes(*codec, sound_packet.bytes@, frame_len, fec, decoded));
    checked_frame(decoded, frame_len)
}

/// Where the samples of packet number `index` start in the decoded stream:
/// the frame sizes of the packets before it, added up.
pub open spec fn frame_start(packets: Seq<SoundPacket>, index: int) -> int
    decreases index,
{
    if index <= 0 {
        0
    } else {
        frame_start(packets, index - 1) + packets[index - 1].samples_per_frame
    }
}

/// Later packets start later: `frame_start` never decreases.
pub proof fn lemma_frame_start_increases(packets: Seq<SoundPacket>, from: int, to: int)
    requires
        0 <= from <= to,
    ensures
        0 <= frame_start(packets, from) <= frame_start(packets, to),
    decreases to,
{
    if from < to {
        lemma_frame_start_increases(packets, from, to - 1);
    } else if 0 < from {
        lemma_frame_start_increases(packets, 0, from - 1);
    }
}

/// `samples` are the frames that `codec` decoded from `packets`, one after
/// the other in the order of the packets, each packet decoded with the flag
/// and into the number of samples that it carries.
pub open spec fn decoded_as<S, E, D: Fn(&[u8], usize, bool) -> Result<Vec<S>, E>>(
    codec: D,
    packets: Seq<SoundPacket>,
    samples: Seq<S>,
) -> bool {
    &&& samples.len() == frame_start(packets, packets.len() as int)
    &&& forall|i: int|
        0 <= i < packets.len() ==> packet_decodes_to(
            codec,
            #[trigger] packets[i],
            spec_packet_fec(packets[i]),
            samples.subrange(frame_start(packets, i), frame_start(packets, i + 1)),
        )
}

/// `codec` may decode packet number `index` into a frame of the size that
/// the packet says.
pub open spec fn decodes_at<S, E, D: Fn(&[u8], usize, bool) -> Result<Vec<S>, E>>(
    codec: D,
    packets: Seq<SoundPacket>,
    index: int,
) -> bool {
    exists|samples: Seq<S>| #[trigger]
        packet_decodes_to(codec, packets[index], spec_packet_fec(packets[index]), samples)
}

/// Packet number `index` is the first that failed, with `error`: every
/// packet before it was decoded.
pub open spec fn failed_at<S, E, D: Fn(&[u8], usize, bool) -> Result<Vec<S>, E>>(
    codec: D,
    packets: Seq<SoundPacket>,
    index: int,
    error: CodecError<E>,
) -> bool {
    &&& packet_fails_with(codec, packets[index], spec_packet_fec(packets[index]), error)
    &&& forall|k: int| 0 <= k < index ==> #[trigger] decodes_at(codec, packets, k)
}

/// Decodes the packets one after the other and returns their samples as one
/// run, in the order of the packets. Each packet is decoded into the number
/// of samples and with the error-correction flag that it carries.
///
/// The packets are taken in the order given: nothing in a packet says where
/// it belongs, so packets handed over in another order than they were made
/// in come out as sound in that other order.
///
/// # Errors
/// The first packet that fails ends the decoding, with the error that
/// [`decode_sample_set_size_opus`] gave for it; no packet is skipped.
pub fn decode_samples_opus<S, E, D: Fn(&[u8], usize, bool) -> Result<Vec<S>, E>>(
    codec: D,
    sound_packets: Vec<SoundPacket>,
) -> (result: Result<Vec<S>, CodecError<E>>)
    requires
        forall|i: int|
            0 <= i < sound_packets@.len() ==> codec_takes(
                codec,
                #[trigger] sound_packets@[i],
                spec_packet_fec(sound_packets@[i]),
            ),
    ensures
        sound_packets@.len() == 0 ==> (result matches Ok(samples) && samples@.len() == 0),
        match result {
            Ok(samples) => decoded_as(codec, sound_packets@, samples@),
            Err(error) => exists|i: int|
                0 <= i < sound_packets@.len() && #[trigger] failed_at(
                    codec,
                    sound_packets@,
                    i,
                    error,
                ),
        },
{
    let mut samples: Vec<S> = Vec::new();
    let ghost packets = sound_packets@;
    for sound_packet in iter: sound_packets
        invariant
            iter.seq() == packets,
            forall|i: int|
                0 <= i < packets.len() ==> codec_takes(
                    codec,
                    #[trigger] packets[i],
                    spec_packet_fec(packets[i]),
                ),
            samples@.len() == frame_start(packets, iter.index() as int),
            forall|i: int|
                0 <= i < iter.index() ==> packet_decodes_to(
                    codec,
                    #[trigger] packets[i],
                    spec_packet_fec(packets[i]),
                    samples@.subrange(frame_start(packets, i), frame_start(packets, i + 1)),
                ),
    {
        let ghost index = iter.index() as int;
        let ghost before = samples@;
        let fec = packet_fec(&sound_packet);
        match decode_sample_set_size_opus(&codec, sound_packet, fec) {
            Ok(frame) => {
                let mut frame = frame;
                let ghost decoded = frame@;
                samples.append(&mut frame);
                proof {
                    assert(samples@.subrange(
                        frame_start(packets, index),
                        frame_start(packets, index + 1),
                    ) == decoded);
                    assert forall|i: int| 0 <= i < index implies samples@.subrange(
                        #[trigger] frame_start(packets, i),
                        frame_start(packets, i + 1),
                    ) == before.subrange(frame_start(packets, i), frame_start(packets, i + 1)) by {
                        lemma_frame_start_increases(packets, i + 1, index);
                        lemma_frame_start_increases(packets, 0, i);
                    }
                }
            },
            Err(error) => {
                proof {
                    assert forall|k: int| 0 <= k < index implies #[trigger] decodes_at(
                        codec,
                        packets,
                        k,
                    ) by {
                        assert(packet_decodes_to(
                            codec,
                            packets[k],
                            spec_packet_fec(packets[k]),
                            before.subrange(frame_start(packets, k), frame_start(packets, k + 1)),
                        ));
                    }
                    assert(failed_at(codec, packets, index, error));
                }
                return Err(error);
            },
        }
    }
    Ok(samples)
}

} // verus!
