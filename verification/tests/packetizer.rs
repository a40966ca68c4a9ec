//! Cutting samples into frames and wrapping encoded frames in packets.

use std::cell::Cell;

use silence_core::opus::encode::{
    create_opus_encoder, encode_sample_set_size_opus, encode_samples_opus, samples_per_frame,
    sound_packet, Application, Bitrate, Channels, EncoderConfig, EncoderType, StreamFormat,
};
use silence_core::opus::framing::pad_frame;
use silence_core::opus::{CodecError, SoundPacket};

/// A codec that loses nothing: the payload is the frame's samples, four
/// bytes each.
fn store(frame: &[f32]) -> Result<Vec<u8>, String> {
    let mut payload = Vec::new();
    for sample in frame {
        payload.extend_from_slice(&sample.to_le_bytes());
    }
    Ok(payload)
}

fn stored(payload: &[u8]) -> Vec<f32> {
    payload
        .chunks(4)
        .map(|bytes| f32::from_le_bytes([bytes[0], bytes[1], bytes[2], bytes[3]]))
        .collect()
}

fn ramp(len: usize) -> Vec<f32> {
    (0..len).map(|i| (i + 1) as f32).collect()
}

fn music(sample_rate: u32, channels: Channels) -> StreamFormat {
    create_opus_encoder(sample_rate, Application::Audio, Bitrate::Max, channels).format()
}

fn music_encoder(sample_rate: u32) -> StreamFormat {
    music(sample_rate, Channels::Stereo)
}

#[test]
fn samples_per_frame_of_a_common_setup() {
    assert_eq!(samples_per_frame(48000, 20, Channels::Stereo), 1920);
    assert_eq!(samples_per_frame(48000, 20, Channels::Mono), 960);
    assert_eq!(samples_per_frame(44100, 10, Channels::Mono), 441);
    assert_eq!(samples_per_frame(8000, 60, Channels::Stereo), 960);
}

#[test]
fn samples_per_frame_rounds_down_before_the_channels_are_counted() {
    // 44.1 samples per millisecond and channel: 44, then twice that.
    assert_eq!(samples_per_frame(44100, 1, Channels::Stereo), 88);
    assert_eq!(samples_per_frame(999, 1, Channels::Stereo), 0);
    assert_eq!(samples_per_frame(1999, 1, Channels::Stereo), 2);
}

#[test]
fn samples_per_frame_is_zero_without_rate_or_duration() {
    assert_eq!(samples_per_frame(0, 20, Channels::Stereo), 0);
    assert_eq!(samples_per_frame(48000, 0, Channels::Mono), 0);
}

#[test]
fn samples_per_frame_does_not_overflow() {
    let per_channel = (u32::MAX as u64 * u32::MAX as u64) / 1000;
    assert_eq!(samples_per_frame(u32::MAX, u32::MAX, Channels::Mono), per_channel);
    assert_eq!(samples_per_frame(u32::MAX, u32::MAX, Channels::Stereo), per_channel * 2);
    assert_eq!(per_channel, 18_446_744_065_119_617);
}

#[test]
fn channels_count() {
    assert_eq!(Channels::Mono.count(), 1);
    assert_eq!(Channels::Stereo.count(), 2);
}

#[test]
fn encoder_for_calls_corrects_errors() {
    let encoder = create_opus_encoder(48000, Application::Voip, Bitrate::Bits(64000), Channels::Mono);
    assert_eq!(
        encoder,
        EncoderConfig {
            sample_rate: 48000,
            channels: Channels::Mono,
            application: Application::Voip,
            bitrate: Bitrate::Bits(64000),
            inband_fec: true,
        }
    );
}

#[test]
fn encoder_for_anything_else_does_not() {
    let audio = create_opus_encoder(48000, Application::Audio, Bitrate::Max, Channels::Stereo);
    assert!(!audio.inband_fec);
    assert_eq!(audio.application, Application::Audio);
    assert_eq!(audio.bitrate, Bitrate::Max);
    assert_eq!(audio.channels, Channels::Stereo);
    let low_delay = create_opus_encoder(16000, Application::LowDelay, Bitrate::Auto, Channels::Mono);
    assert!(!low_delay.inband_fec);
    assert_eq!(low_delay.sample_rate, 16000);
}

#[test]
fn pad_frame_fills_up_with_silence() {
    assert_eq!(pad_frame(&[1.0f32, 2.0], 5, 0.0), vec![1.0, 2.0, 0.0, 0.0, 0.0]);
    assert_eq!(pad_frame(&[1u8, 2, 3], 3, 9), vec![1, 2, 3]);
    assert_eq!(pad_frame(&[] as &[i16], 2, -1), vec![-1, -1]);
    assert_eq!(pad_frame(&[] as &[i16], 0, -1), Vec::<i16>::new());
}

#[test]
fn the_format_of_an_encoders_stream() {
    let encoder = create_opus_encoder(24000, Application::Voip, Bitrate::Bits(32000), Channels::Mono);
    assert_eq!(
        encoder.format(),
        StreamFormat { sample_rate: 24000, channels: Channels::Mono, inband_fec: true }
    );
    let encoder = create_opus_encoder(48000, Application::Audio, Bitrate::Max, Channels::Stereo);
    assert_eq!(
        encoder.format(),
        StreamFormat { sample_rate: 48000, channels: Channels::Stereo, inband_fec: false }
    );
}

#[test]
fn sound_packet_records_the_stream() {
    let mono = StreamFormat { sample_rate: 24000, channels: Channels::Mono, inband_fec: true };
    assert_eq!(
        sound_packet(&mono, vec![1, 2, 3], 480),
        SoundPacket {
            encoder_type: EncoderType::Opus(true),
            sample_rate: 24000,
            channels: 1,
            bytes: vec![1, 2, 3],
            samples_per_frame: 480,
        }
    );
    let stereo = StreamFormat { sample_rate: 48000, channels: Channels::Stereo, inband_fec: false };
    assert_eq!(
        sound_packet(&stereo, vec![], 1920),
        SoundPacket {
            encoder_type: EncoderType::Opus(false),
            sample_rate: 48000,
            channels: 2,
            bytes: vec![],
            samples_per_frame: 1920,
        }
    );
}

#[test]
fn one_frame_becomes_one_packet() {
    let encoder = music_encoder(48000);
    let frame = ramp(4);
    let packet = encode_sample_set_size_opus(&encoder, &store, &frame, 4).unwrap();
    assert_eq!(packet.encoder_type, EncoderType::Opus(false));
    assert_eq!(packet.sample_rate, 48000);
    assert_eq!(packet.channels, 2);
    assert_eq!(packet.samples_per_frame, 4);
    assert_eq!(stored(&packet.bytes), frame);
}

#[test]
fn one_mono_frame_becomes_a_mono_packet() {
    let format = music(48000, Channels::Mono);
    let frame = ramp(960);
    let packet = encode_sample_set_size_opus(&format, &store, &frame, 960).unwrap();
    assert_eq!(packet.channels, 1);
    assert_eq!(packet.samples_per_frame, 960);
    assert_eq!(packet.sample_rate, 48000);
    assert_eq!(stored(&packet.bytes), frame);
}

#[test]
fn one_frame_that_the_codec_rejects() {
    let encoder = music_encoder(48000);
    let reject = |_frame: &[f32]| -> Result<Vec<u8>, &'static str> { Err("bad frame") };
    let result = encode_sample_set_size_opus(&encoder, &reject, &[0.0, 0.0], 2);
    assert_eq!(result, Err(CodecError::Transform("bad frame")));
}

#[test]
fn one_frame_of_another_size_than_the_packet_would_say() {
    let calls = Cell::new(0);
    let count = |frame: &[f32]| {
        calls.set(calls.get() + 1);
        store(frame)
    };
    let encoder = music_encoder(48000);
    let short = encode_sample_set_size_opus(&encoder, &count, &ramp(3), 4);
    assert_eq!(short, Err(CodecError::InvalidFrameSize));
    let long = encode_sample_set_size_opus(&encoder, &count, &ramp(5), 4);
    assert_eq!(long, Err(CodecError::InvalidFrameSize));
    let none = encode_sample_set_size_opus(&encoder, &count, &[], 1920);
    assert_eq!(none, Err(CodecError::InvalidFrameSize));
    assert_eq!(calls.get(), 0);
}

#[test]
fn whole_frames_are_not_padded() {
    // 1000 Hz, 2 ms, stereo: 4 samples a frame.
    let encoder = music_encoder(1000);
    let samples = ramp(8);
    let packets = encode_samples_opus(&encoder, store, &samples, 0.0, 2, Channels::Stereo).unwrap();
    assert_eq!(packets.len(), 2);
    assert_eq!(stored(&packets[0].bytes), vec![1.0, 2.0, 3.0, 4.0]);
    assert_eq!(stored(&packets[1].bytes), vec![5.0, 6.0, 7.0, 8.0]);
}

#[test]
fn the_last_frame_is_filled_up_with_silence() {
    let encoder = music_encoder(1000);
    let samples = ramp(10);
    let packets = encode_samples_opus(&encoder, store, &samples, 0.0, 2, Channels::Stereo).unwrap();
    assert_eq!(packets.len(), 3);
    assert_eq!(stored(&packets[0].bytes), vec![1.0, 2.0, 3.0, 4.0]);
    assert_eq!(stored(&packets[1].bytes), vec![5.0, 6.0, 7.0, 8.0]);
    assert_eq!(stored(&packets[2].bytes), vec![9.0, 10.0, 0.0, 0.0]);
    for packet in &packets {
        assert_eq!(packet.samples_per_frame, 4);
        assert_eq!(packet.sample_rate, 1000);
        assert_eq!(packet.channels, 2);
        assert_eq!(packet.encoder_type, EncoderType::Opus(false));
    }
}

#[test]
fn the_number_of_packets_is_the_quotient_rounded_up() {
    // 1000 Hz, 5 ms, mono: 5 samples a frame.
    let encoder = music(1000, Channels::Mono);
    for (len, expected) in [(0, 0), (1, 1), (4, 1), (5, 1), (6, 2), (10, 2), (11, 3), (99, 20)] {
        let packets =
            encode_samples_opus(&encoder, store, &ramp(len), 0.0, 5, Channels::Mono).unwrap();
        assert_eq!(packets.len(), expected, "{len} samples");
        if let Some(last) = packets.last() {
            let frame = stored(&last.bytes);
            assert_eq!(frame.len(), 5);
            let padding = (5 - len % 5) % 5;
            assert!(frame[5 - padding..].iter().all(|sample| *sample == 0.0));
            assert!(frame[..5 - padding].iter().all(|sample| *sample != 0.0));
        }
    }
}

#[test]
fn the_padding_is_the_silence_that_was_handed_over() {
    let encoder = music(1000, Channels::Mono);
    let keep = |frame: &[u8]| -> Result<Vec<u8>, ()> { Ok(frame.to_vec()) };
    let packets = encode_samples_opus(&encoder, keep, &[1, 2, 3], 128, 2, Channels::Mono).unwrap();
    assert_eq!(packets.len(), 2);
    assert_eq!(packets[0].bytes, vec![1, 2]);
    assert_eq!(packets[1].bytes, vec![3, 128]);
}

#[test]
fn no_samples_give_no_packets() {
    let encoder = music_encoder(48000);
    let packets = encode_samples_opus(&encoder, store, &[], 0.0, 20, Channels::Stereo).unwrap();
    assert!(packets.is_empty());
}

#[test]
fn a_frame_of_no_samples_is_refused() {
    let calls = Cell::new(0);
    let count = |frame: &[f32]| {
        calls.set(calls.get() + 1);
        store(frame)
    };
    let encoder = music_encoder(48000);
    let no_duration = encode_samples_opus(&encoder, &count, &ramp(10), 0.0, 0, Channels::Stereo);
    assert_eq!(no_duration, Err(CodecError::UnsupportedConfiguration));
    let no_rate =
        encode_samples_opus(&music_encoder(0), &count, &ramp(10), 0.0, 20, Channels::Stereo);
    assert_eq!(no_rate, Err(CodecError::UnsupportedConfiguration));
    let too_short =
        encode_samples_opus(&music(999, Channels::Mono), &count, &ramp(10), 0.0, 1, Channels::Mono);
    assert_eq!(too_short, Err(CodecError::UnsupportedConfiguration));
    assert_eq!(calls.get(), 0);
}

#[test]
fn a_frame_of_no_samples_is_refused_even_without_samples() {
    let encoder = music_encoder(48000);
    let result = encode_samples_opus(&encoder, store, &[], 0.0, 0, Channels::Stereo);
    assert_eq!(result, Err(CodecError::UnsupportedConfiguration));
}

#[test]
fn the_first_rejected_frame_ends_the_encoding() {
    let calls = Cell::new(0);
    let second_fails = |frame: &[f32]| {
        calls.set(calls.get() + 1);
        if calls.get() == 2 {
            Err(format!("frame starting with {}", frame[0]))
        } else {
            store(frame)
        }
    };
    let encoder = music_encoder(1000);
    let result = encode_samples_opus(&encoder, second_fails, &ramp(12), 0.0, 2, Channels::Stereo);
    assert_eq!(result, Err(CodecError::Transform("frame starting with 5".to_string())));
    assert_eq!(calls.get(), 2);
}

#[test]
fn the_codec_only_sees_whole_frames() {
    let lengths = Cell::new(Vec::new());
    let measure = |frame: &[f32]| -> Result<Vec<u8>, ()> {
        let mut seen = lengths.take();
        seen.push(frame.len());
        lengths.set(seen);
        Ok(Vec::new())
    };
    let encoder = music_encoder(48000);
    let packets = encode_samples_opus(&encoder, measure, &ramp(5000), 0.0, 20, Channels::Stereo);
    assert_eq!(packets.unwrap().len(), 3);
    assert_eq!(lengths.take(), vec![1920, 1920, 1920]);
}

#[test]
fn mono_samples_give_mono_packets() {
    // 1000 Hz, 3 ms, mono: 3 samples a frame.
    let format = create_opus_encoder(1000, Application::Voip, Bitrate::Max, Channels::Mono).format();
    let packets = encode_samples_opus(&format, store, &ramp(6), 0.0, 3, Channels::Mono).unwrap();
    assert_eq!(packets.len(), 2);
    for packet in &packets {
        assert_eq!(packet.channels, 1);
        assert_eq!(packet.samples_per_frame, 3);
        assert_eq!(packet.encoder_type, EncoderType::Opus(true));
    }
}

#[test]
fn channels_that_are_not_the_streams_are_refused() {
    let calls = Cell::new(0);
    let count = |frame: &[f32]| {
        calls.set(calls.get() + 1);
        store(frame)
    };
    let stereo = music(1000, Channels::Stereo);
    let result = encode_samples_opus(&stereo, &count, &ramp(6), 0.0, 3, Channels::Mono);
    assert_eq!(result, Err(CodecError::UnsupportedConfiguration));
    let mono = music(1000, Channels::Mono);
    let result = encode_samples_opus(&mono, &count, &ramp(6), 0.0, 3, Channels::Stereo);
    assert_eq!(result, Err(CodecError::UnsupportedConfiguration));
    let result = encode_samples_opus(&mono, &count, &[], 0.0, 3, Channels::Stereo);
    assert_eq!(result, Err(CodecError::UnsupportedConfiguration));
    assert_eq!(calls.get(), 0);
}
