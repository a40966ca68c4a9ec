//! What the audio callbacks do with the sound card's buffers: [`record`]
//! keeps what came in, [`playback`] fills what goes out.

pub mod playback;
pub mod record;

pub use crate::opus::encode::EncoderType;
pub use crate::opus::SoundPacket;
