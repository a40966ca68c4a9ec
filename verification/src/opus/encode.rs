//! From raw samples to [`SoundPacket`]s.

use vstd::prelude::*;

use vstd::slice::slice_subrange;

use super::framing::{
    frame, frame_count, lemma_frame_count, lemma_frame_count_is_least,
    lemma_padded_chunk_is_frame, pad_frame,
};
use super::{CodecError, SoundPacket};

verus! {

/// The codec that encoded a packet.
#[derive(Debug, Clone, Copy, PartialEq, Eq)]
pub enum EncoderType {
    /// Opus. The flag says whether the encoder wrote in-band forward error
    /// correction into the stream.
    Opus(bool),
}

/// How many channels the samples interleave.
#[derive(Debug, Clone, Copy, PartialEq, Eq)]
pub enum Channels {
    /// One channel.
    Mono,
    /// Two channels, left before right.
    Stereo,
}

impl Channels {
    /// The number of channels.
    pub open spec fn spec_count(self) -> int {
        match self {
            Channels::Mono => 1,
            Channels::Stereo => 2,
        }
    }

    /// The number of channels.
    pub fn count(self) -> (n: u32)
        ensures
            n == self.spec_count(),
    {
        match self {
            Channels::Mono => 1,
            Channels::Stereo => 2,
        }
    }
}

/// What the encoder is tuned for.
#[derive(Debug, Clone, Copy, PartialEq, Eq)]
pub enum Application {
    /// Speech, for calls.
    Voip,
    /// Music and anything else that is not mainly speech.
    Audio,
    /// The lowest delay the codec can do, at some cost in quality.
    LowDelay,
}

/// The bitrate the encoder aims at.
#[derive(Debug, Clone, Copy, PartialEq, Eq)]
pub enum Bitrate {
    /// This many bits per second.
    Bits(i32),
    /// As many bits as the packets can carry.
    Max,
    /// Whatever the codec picks.
    Auto,
}

/// The settings of an encoder.
#[derive(Debug, Clone, Copy, PartialEq, Eq)]
pub struct EncoderConfig {
    /// Samples per second and channel, in Hz.
    pub sample_rate: u32,
    /// How many channels the input interleaves.
    pub channels: Channels,
    /// What the encoder is tuned for.
    pub application: Application,
    /// The bitrate to aim at.
    pub bitrate: Bitrate,
    /// Whether the encoder writes in-band forward error correction.
    pub inband_fec: bool,
}

/// What a running encoder reports of itself, and what every packet that it
/// makes records.
#[derive(Debug, Clone, Copy, PartialEq, Eq)]
pub struct StreamFormat {
    /// Samples per second and channel, in Hz.
    pub sample_rate: u32,
    /// How many channels the frames interleave.
    pub channels: Channels,
    /// Whether the encoder writes in-band forward error correction.
    pub inband_fec: bool,
}

impl EncoderConfig {
    /// The format of the stream that an encoder with these settings makes.
    pub open spec fn spec_format(self) -> StreamFormat {
        StreamFormat {
            sample_rate: self.sample_rate,
            channels: self.channels,
            inband_fec: self.inband_fec,
        }
    }

    /// The format of the stream that an encoder with these settings makes.
    pub fn format(&self) -> (format: StreamFormat)
        ensures
            format == self.spec_format(),
    {
        StreamFormat {
            sample_rate: self.sample_rate,
            channels: self.channels,
            inband_fec: self.inband_fec,
        }
    }
}

/// The settings of an Opus encoder for the given sample rate, mode, bitrate
/// and channels. Forward error correction is on for calls
/// ([`Application::Voip`]) and off for every other mode.
pub fn create_opus_encoder(
    sample_rate: u32,
    opus_mode: Application,
    bitrate: Bitrate,
    channels: Channels,
) -> (encoder: EncoderConfig)
    ensures
        encoder == (EncoderConfig {
            sample_rate,
            channels,
            application: opus_mode,
            bitrate,
            inband_fec: opus_mode is Voip,
        }),
{
    let inband_fec = match opus_mode {
        Application::Voip => true,
        Application::Audio => false,
        Application::LowDelay => false,
    };
    EncoderConfig { sample_rate, channels, application: opus_mode, bitrate, inband_fec }
}

/// The number of samples in one frame, all channels counted: the samples of
/// one channel in `frame_duration_ms` milliseconds, rounded down, times the
/// number of channels.
pub open spec fn spec_samples_per_frame(
    sample_rate: u32,
    frame_duration_ms: u32,
    channels: Channels,
) -> int {
    (sample_rate as int * frame_duration_ms as int) / 1000 * channels.spec_count()
}

/// The number of samples in one frame, all channels counted.
pub fn samples_per_frame(sample_rate: u32, frame_duration_ms: u32, channels: Channels) -> (n: u64)
    ensures
        n == spec_samples_per_frame(sample_rate, frame_duration_ms, channels),
{
    assert(sample_rate as int * frame_duration_ms as int <= 0xffff_ffff * 0xffff_ffff)
        by (nonlinear_arith)
        requires
            0 <= sample_rate <= 0xffff_ffff,
            0 <= frame_duration_ms <= 0xffff_ffff,
    ;
    let per_second: u64 = sample_rate as u64 * frame_duration_ms as u64;
    let per_channel: u64 = per_second / 1000;
    let count: u64 = channels.count() as u64;
    assert(per_channel * count <= u64::MAX) by (nonlinear_arith)
        requires
            per_channel <= 0xffff_ffff * 0xffff_ffff / 1000,
            count <= 2,
    ;
    per_channel * count
}

/// The packet that carries `payload`, one frame of `samples_per_frame`
/// samples encoded in the stream format `format`.
pub open spec fn packet_of(format: StreamFormat, payload: Vec<u8>, samples_per_frame: int)
    -> SoundPacket {
    SoundPacket {
        encoder_type: EncoderType::Opus(format.inband_fec),
        sample_rate: format.sample_rate,
        channels: format.channels.spec_count() as u32,
        bytes: payload,
        samples_per_frame: samples_per_frame as u64,
    }
}

/// Wraps an encoded frame in its packet. The packet records the stream's
/// sample rate, channel count and error-correction flag, and the number of
/// samples that the frame holds.
pub fn sound_packet(format: &StreamFormat, payload: Vec<u8>, samples_per_frame: usize) -> (packet:
    SoundPacket)
    ensures
        packet == packet_of(*format, payload, samples_per_frame as int),
{
    SoundPacket {
        encoder_type: EncoderType::Opus(format.inband_fec),
        sample_rate: format.sample_rate,
        channels: format.channels.count(),
        bytes: payload,
        samples_per_frame: samples_per_frame as u64,
    }
}

/// `result` is something that `codec` may answer when it is given `frame`.
pub open spec fn codec_encodes<S, E, C: Fn(&[S]) -> Result<Vec<u8>, E>>(
    codec: C,
    frame: Seq<S>,
    result: Result<Vec<u8>, E>,
) -> bool {
    exists|input: &[S]| input@ == frame && #[trigger] call_ensures(codec, (input,), result)
}

/// `packets` are `samples` cut into frames of `frame_len`, each frame encoded
/// by `codec` and wrapped as a packet of the stream format `format`, in the
/// order of the frames.
pub open spec fn encoded_as<S, E, C: Fn(&[S]) -> Result<Vec<u8>, E>>(
    codec: C,
    format: StreamFormat,
    samples: Seq<S>,
    silence: S,
    frame_len: int,
    packets: Seq<SoundPacket>,
) -> bool {
    &&& packets.len() == frame_count(samples.len() as int, frame_len)
    &&& forall|i: int|
        0 <= i < packets.len() ==> {
            &&& codec_encodes(
                codec,
                frame(samples, frame_len, i, silence),
                Ok((#[trigger] packets[i]).bytes),
            )
            &&& packets[i] == packet_of(format, packets[i].bytes, frame_len)
        }
}

/// `codec` may encode frame number `index`.
pub open spec fn accepted_at<S, E, C: Fn(&[S]) -> Result<Vec<u8>, E>>(
    codec: C,
    samples: Seq<S>,
    silence: S,
    frame_len: int,
    index: int,
) -> bool {
    exists|payload: Vec<u8>| #[trigger]
        codec_encodes(codec, frame(samples, frame_len, index, silence), Ok(payload))
}

/// Frame number `index` is the first that `codec` rejected, with the error
/// `error`: it encoded every frame before that one.
pub open spec fn rejected_at<S, E, C: Fn(&[S]) -> Result<Vec<u8>, E>>(
    codec: C,
    samples: Seq<S>,
    silence: S,
    frame_len: int,
    index: int,
    error: E,
) -> bool {
    &&& codec_encodes(codec, frame(samples, frame_len, index, silence), Err(error))
    &&& forall|k: int| 0 <= k < index ==> #[trigger] accepted_at(codec, samples, silence, frame_len, k)
}

/// Where a frame holds samples at all, the sample rate is not zero.
pub proof fn lemma_frame_needs_a_sample_rate(
    sample_rate: u32,
    frame_duration_ms: u32,
    channels: Channels,
)
    requires
        spec_samples_per_frame(sample_rate, frame_duration_ms, channels) > 0,
    ensures
        sample_rate > 0,
        frame_duration_ms > 0,
{
    if sample_rate == 0 || frame_duration_ms == 0 {
        assert(sample_rate as int * frame_duration_ms as int == 0) by (nonlinear_arith)
            requires
                sample_rate == 0 || frame_duration_ms == 0,
        ;
    }
}

/// Encodes one frame of `samples_per_frame` samples and wraps the payload in
/// a packet that says so.
///
/// # Errors
/// - [`CodecError::InvalidFrameSize`] where `samples` are not
///   `samples_per_frame` samples: a packet must say how many samples its
///   frame holds. The codec is not asked then.
/// - [`CodecError::Transform`] with the codec's error where the codec
///   rejects the frame.
pub fn encode_sample_set_size_opus<S, E, C: Fn(&[S]) -> Result<Vec<u8>, E>>(
    format: &StreamFormat,
    codec: &C,
    samples: &[S],
    samples_per_frame: usize,
) -> (result: Result<SoundPacket, CodecError<E>>)
    requires
        samples@.len() == samples_per_frame ==> call_requires(*codec, (samples,)),
    ensures
        samples@.len() != samples_per_frame <==> result == Err::<SoundPacket, CodecError<E>>(
            CodecError::InvalidFrameSize,
        ),
        match result {
            Ok(packet) => {
                &&& call_ensures(*codec, (samples,), Ok(packet.bytes))
                &&& packet == packet_of(*format, packet.bytes, samples@.len() as int)
            },
            Err(CodecError::Transform(e)) => call_ensures(*codec, (samples,), Err(e)),
            Err(CodecError::InvalidFrameSize) => true,
            Err(CodecError::UnsupportedConfiguration) => false,
        },
{
    if samples.len() != samples_per_frame {
        return Err(CodecError::InvalidFrameSize);
    }
    match codec(samples) {
        Ok(payload) => Ok(sound_packet(format, payload, samples_per_frame)),
        Err(e) => Err(CodecError::Transform(e)),
    }
}

/// Cuts `samples` into frames of `frame_duration_ms` milliseconds, encodes
/// each with `codec` and returns the packets in the order of the frames.
///
/// A frame holds [`spec_samples_per_frame`] samples, at the stream's sample
/// rate and for `channels` channels, which must be the stream's. The last
/// frame is filled up with `silence`, so that `codec` only ever sees whole
/// frames. No samples give no packets.
///
/// # Errors
/// - [`CodecError::UnsupportedConfiguration`] where a frame would hold no
///   samples, or `channels` are not the channels of the stream, whatever
///   `samples` are;
/// - [`CodecError::InvalidFrameSize`] where a frame would hold more samples
///   than a buffer can;
/// - [`CodecError::Transform`] with the codec's error for the first frame
///   that the codec rejects. The packets made so far are dropped.
pub fn encode_samples_opus<S: Copy, E, C: Fn(&[S]) -> Result<Vec<u8>, E>>(
    format: &StreamFormat,
    codec: C,
    samples: &[S],
    silence: S,
    frame_duration_ms: u32,
    channels: Channels,
) -> (result: Result<Vec<SoundPacket>, CodecError<E>>)
    requires
        forall|input: &[S]|
            input@.len() == spec_samples_per_frame(format.sample_rate, frame_duration_ms, channels)
                ==> call_requires(codec, (input,)),
    ensures
        (spec_samples_per_frame(format.sample_rate, frame_duration_ms, channels) == 0 || channels
            != format.channels) <==> result == Err::<Vec<SoundPacket>, CodecError<E>>(
            CodecError::UnsupportedConfiguration,
        ),
        (spec_samples_per_frame(format.sample_rate, frame_duration_ms, channels) > usize::MAX
            && channels == format.channels) <==> result == Err::<Vec<SoundPacket>, CodecError<E>>(
            CodecError::InvalidFrameSize,
        ),
        samples@.len() == 0 && channels == format.channels && 0 < spec_samples_per_frame(
            format.sample_rate,
            frame_duration_ms,
            channels,
        ) <= usize::MAX ==> (result matches Ok(packets) && packets@.len() == 0),
        result matches Ok(packets) ==> encoded_as(
            codec,
            *format,
            samples@,
            silence,
            spec_samples_per_frame(format.sample_rate, frame_duration_ms, channels),
            packets@,
        ),
        result matches Ok(packets) ==> forall|i: int|
            0 <= i < packets@.len() ==> (#[trigger] packets@[i]).well_formed(),
        result matches Err(CodecError::Transform(e)) ==> exists|i: int|
            0 <= i < frame_count(
                samples@.len() as int,
                spec_samples_per_frame(format.sample_rate, frame_duration_ms, channels),
            ) && #[trigger] rejected_at(
                codec,
                samples@,
                silence,
                spec_samples_per_frame(format.sample_rate, frame_duration_ms, channels),
                i,
                e,
            ),
{
    let wide_frame_len = samples_per_frame(format.sample_rate, frame_duration_ms, channels);
    if wide_frame_len == 0 || channels.count() != format.channels.count() {
        return Err(CodecError::UnsupportedConfiguration);
    }
    if wide_frame_len > usize::MAX as u64 {
        return Err(CodecError::InvalidFrameSize);
    }
    let frame_len: usize = wide_frame_len as usize;
    let sample_count: usize = samples.len();
    let ghost count = frame_count(sample_count as int, frame_len as int);
    let mut packets: Vec<SoundPacket> = Vec::new();
    let mut start: usize = 0;
    proof {
        lemma_frame_count(sample_count as int, frame_len as int);
        lemma_frame_needs_a_sample_rate(format.sample_rate, frame_duration_ms, channels);
    }
    while start < sample_count
        invariant
            frame_len > 0,
            format.sample_rate > 0,
            channels == format.channels,
            sample_count == samples@.len(),
            count == frame_count(sample_count as int, frame_len as int),
            frame_len == spec_samples_per_frame(format.sample_rate, frame_duration_ms, channels),
            forall|input: &[S]| input@.len() == frame_len ==> call_requires(codec, (input,)),
            0 <= packets@.len() <= count,
            start <= sample_count,
            start == sample_count || start == packets@.len() * frame_len,
            start == sample_count ==> packets@.len() == count,
            forall|i: int|
                0 <= i < packets@.len() ==> {
                    &&& codec_encodes(
                        codec,
                        frame(samples@, frame_len as int, i, silence),
                        Ok((#[trigger] packets@[i]).bytes),
                    )
                    &&& packets@[i] == packet_of(*format, packets@[i].bytes, frame_len as int)
                },
        decreases sample_count - start,
    {
        let ghost index = packets@.len() as int;
        let end: usize = if sample_count - start <= frame_len {
            sample_count
        } else {
            start + frame_len
        };
        proof {
            lemma_frame_count_is_least(sample_count as int, frame_len as int, index);
            lemma_frame_count_is_least(sample_count as int, frame_len as int, index + 1);
            assert((index + 1) * frame_len == index * frame_len + frame_len) by (nonlinear_arith);
            lemma_padded_chunk_is_frame(samples@, frame_len as int, index, silence, end as int);
        }
        let chunk = slice_subrange(samples, start, end);
        let padded_frame = pad_frame(chunk, frame_len, silence);
        let input = padded_frame.as_slice();
        assert(input@ == frame(samples@, frame_len as int, index, silence));
        match encode_sample_set_size_opus(format, &codec, input, frame_len) {
            Ok(packet) => {
                packets.push(packet);
            },
            Err(e) => {
                assert forall|k: int| 0 <= k < index implies #[trigger] accepted_at(
                    codec,
                    samples@,
                    silence,
                    frame_len as int,
                    k,
                ) by {
                    assert(codec_encodes(
                        codec,
                        frame(samples@, frame_len as int, k, silence),
                        Ok(packets@[k].bytes),
                    ));
                }
                assert(e matches CodecError::Transform(inner) && rejected_at(
                    codec,
                    samples@,
                    silence,
                    frame_len as int,
                    index,
                    inner,
                ));
                return Err(e);
            },
        }
        start = end;
    }
    Ok(packets)
}

} // verus!
