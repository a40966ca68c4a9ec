//! Packets of encoded sound, and the two directions of the codec: [`encode`]
//! cuts samples into frames and wraps each encoded frame in a
//! [`SoundPacket`], [`decode`] turns packets back into one run of samples.
//! [`framing`] says what a frame is.

use vstd::prelude::*;

use self::encode::EncoderType;

pub mod decode;
pub mod encode;
pub mod framing;
pub mod round_trip;

verus! {

/// One encoded codec frame, with what the receiver needs to decode it.
#[derive(Debug, Clone, PartialEq, Eq)]
pub struct SoundPacket {
    /// The codec that produced `bytes`, with the codec's own flags.
    pub encoder_type: EncoderType,
    /// The sample rate of the encoded frame, in Hz.
    pub sample_rate: u32,
    /// The channel count of the encoded frame.
    pub channels: u32,
    /// The encoded frame.
    pub bytes: Vec<u8>,
    /// How many samples, all channels counted, the frame decodes into.
    pub samples_per_frame: u64,
}

impl SoundPacket {
    /// A packet as the encoder makes them: every count is positive.
    pub open spec fn well_formed(&self) -> bool {
        &&& self.sample_rate > 0
        &&& self.channels > 0
        &&& self.samples_per_frame > 0
    }
}

/// Why encoding or decoding stopped. `E` is the codec's own error.
#[derive(Debug, PartialEq, Eq)]
pub enum CodecError<E> {
    /// The sample rate and frame duration give a frame of no samples, or
    /// the channels asked for are not the channels of the stream.
    UnsupportedConfiguration,
    /// A frame does not have the size that was asked for, or a size that no
    /// buffer on this machine can have.
    InvalidFrameSize,
    /// The codec rejected a frame or a payload.
    Transform(E),
}

} // verus!
