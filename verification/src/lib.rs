//! Core building blocks of a voice-over-IP pipeline.
//!
//! The crate holds the parts of the pipeline that are pure logic: cutting a
//! stream of samples into codec frames and putting decoded frames back
//! together ([`opus`]), and what the audio callbacks do with the buffers that
//! the sound card hands them ([`io`]). The codec and the sound card themselves
//! are supplied by the caller. [`avif`] prepares camera frames for the image
//! encoder.
//!
//! Samples are generic: the functions move them around and never compute with
//! them, so any `Copy` type will do.

pub mod avif;
pub mod io;
pub mod opus;
