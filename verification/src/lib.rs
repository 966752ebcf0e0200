//! Core of a procedural audio synthesiser.
//!
//! A user-supplied per-sample synthesis function (a compute "shader") maps a
//! global sample index and an elapsed time to a stereo amplitude pair.  This
//! crate holds the machinery around that function that admits exact
//! specification: the assembly of the complete compute program and its
//! resource-binding layout, the parsing of WAV assets into raw sample words,
//! the sliding decode/spectral buffers that feed the program, the
//! producer/consumer playback buffer with its underrun policy, and the
//! monotonic frame cursor whose contiguity the audible timeline depends on.
//!
//! Sample amplitudes are carried as `u32` words holding IEEE-754 single
//! precision bit patterns (or raw integer PCM values, where a type says so),
//! so that every buffer movement is specified exactly; interpreting a word as
//! an amplitude is left to the unverified device layer around this crate.

pub mod binder;
pub mod director;
pub mod playback;
pub mod streamer;
pub mod wav;
