//! Still images on their way to the AV1 encoder.

pub mod encoding;
