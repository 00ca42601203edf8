//! Error kinds of the streaming core.
//!
//! These are plain enums; a short diagnostic string for each is available
//! through `message`, which callers surface to the user.

use vstd::prelude::*;
use vstd::string::StringExecFns;

verus! {

/// Why a manifest was rejected when starting or downloading a stream.
#[derive(Clone, Copy, Debug, PartialEq, Eq, Structural)]
pub enum ManifestError {
    /// The manifest was not valid base64.
    Decode,
    /// The manifest is a direct-URL JSON document; it carries no segments, so
    /// it cannot be streamed progressively.
    NotDash,
    /// No `initialization` attribute with a non-empty value was found.
    MissingInitUrl,
    /// No `media` attribute with a non-empty value was found.
    MissingMediaTemplate,
    /// The segment timeline was empty.
    NoSegments,
    /// The segment timeline declares more segments than this machine can
    /// plan for.
    TooManySegments,
    /// Too few segments relative to the declared duration: the manifest
    /// describes a promotional excerpt, not the full track.
    Preview,
}

impl ManifestError {
    /// A short human-readable diagnostic.
    pub fn message(&self) -> String {
        match self {
            ManifestError::Decode => "failed to decode manifest".to_owned(),
            ManifestError::NotDash => "manifest has no segments; use a direct download".to_owned(),
            ManifestError::MissingInitUrl => "no initialization URL found in manifest".to_owned(),
            ManifestError::MissingMediaTemplate => "no media URL template found in manifest"
                .to_owned(),
            ManifestError::NoSegments => "no segments found in manifest".to_owned(),
            ManifestError::TooManySegments => "manifest declares too many segments".to_owned(),
            ManifestError::Preview => "preview manifest detected".to_owned(),
        }
    }
}

/// Errors of the per-track stream coordinator.
#[derive(Clone, Copy, Debug, PartialEq, Eq, Structural)]
pub enum StreamError {
    /// No active stream is registered under the given track id.
    NoActiveStream,
    /// The stream is not complete, so it cannot be finalized.
    NotComplete,
    /// The stream has no ready chunks to join.
    NoChunks,
    /// A chunk index at or past the stream's chunk count was asked for.
    ChunkOutOfRange,
    /// The stream has no init segment to prepend to a chunk.
    NoInitSegment,
}

impl StreamError {
    /// A short human-readable diagnostic.
    pub fn message(&self) -> String {
        match self {
            StreamError::NoActiveStream => "No active stream for track".to_owned(),
            StreamError::NotComplete => "Stream not complete, cannot finalize".to_owned(),
            StreamError::NoChunks => "No chunks to join".to_owned(),
            StreamError::ChunkOutOfRange => "Chunk index out of range".to_owned(),
            StreamError::NoInitSegment => "Init segment not available".to_owned(),
        }
    }
}

/// Errors of the playback engine.  All are non-fatal: the engine keeps
/// serving commands after reporting one.
#[derive(Clone, Debug, PartialEq, Eq)]
pub enum AudioError {
    /// The audio host could not be initialized or reached.
    HostInit,
    /// No output device is available.
    NoDevice,
    /// Enumerating or reading a device configuration failed.
    DeviceConfig(String),
    /// Building or starting the output stream failed.
    StreamBuild(String),
    /// The decoder could not be constructed or the container is damaged.
    Decode(String),
    /// The file to play does not exist.
    FileNotFound(String),
    /// The container holds no decodable audio track.
    UnsupportedFormat,
}

impl AudioError {
    /// A short human-readable diagnostic.
    pub fn message(&self) -> String {
        match self {
            AudioError::HostInit => "failed to initialize audio host".to_owned(),
            AudioError::NoDevice => "no audio device available".to_owned(),
            AudioError::DeviceConfig(d) => {
                let mut s = "failed to get device config: ".to_owned();
                s.append(d.as_str());
                s
            },
            AudioError::StreamBuild(d) => {
                let mut s = "failed to build stream: ".to_owned();
                s.append(d.as_str());
                s
            },
            AudioError::Decode(d) => {
                let mut s = "failed to decode audio: ".to_owned();
                s.append(d.as_str());
                s
            },
            AudioError::FileNotFound(d) => {
                let mut s = "file not found: ".to_owned();
                s.append(d.as_str());
                s
            },
            AudioError::UnsupportedFormat => "unsupported format".to_owned(),
        }
    }
}

} // verus!
