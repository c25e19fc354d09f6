//! Incremental gated-loudness measurement and multi-track splitting for
//! compressed Ogg Vorbis audio.
//!
//! A [`AudioNormalizer`] session decodes a source packet by packet, reduces
//! each packet to the canonical measurement layout and accumulates EBU R128
//! integrated loudness, one bounded step at a time.  The splitter turns a
//! source of four or more channels into two standalone stereo WAV streams.
//! Loudness values cross the API as IEEE-754 bit patterns of `f64` LUFS
//! values.

pub mod audio_normalizer;
pub mod decoder;
pub mod errors;
pub mod meter;
pub mod pool_byte_array;
pub mod remap;
pub mod splitter;

pub use audio_normalizer::AudioNormalizer;
