//! Verified core of a progressive-streaming, bit-perfect music player backend.
//!
//! The library covers the logic of the pipeline: DASH manifest parsing and
//! preview detection, chunk planning, per-track download state with priority
//! reordering on seek, the playback engine's state machine, device
//! negotiation, channel-layout conversion, and the path and argument
//! construction for finalizing a stream.  Network transfers, file I/O, audio
//! decoding and the floating-point sample path live outside the library and
//! hand it plain values.

pub mod channels;
pub mod chunk_plan;
pub mod device;
pub mod errors;
pub mod ffmpeg;
pub mod finalize;
pub mod manifest;
pub mod media;
pub mod playback;
pub mod stream;
pub mod text;
