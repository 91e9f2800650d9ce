//! Block-based ADPCM encoding of 16-bit PCM into 16-byte chunks.
pub mod vag;
pub mod fixed;
pub mod predictor;
pub mod quantize;
pub mod encoder;
pub mod laws;
pub mod session;
