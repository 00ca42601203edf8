//! The playback engine's state machine.
//!
//! A dedicated audio thread owns the platform output stream and consumes
//! commands; the realtime callback reads the shared sample buffer.  This
//! module models everything those two decide: what each command does to the
//! engine state, and which samples a callback quantum emits.  The audio
//! thread applies these transitions and performs the decoding, resampling
//! and device work around them; the callback emits exactly the range this
//! model names.
//!
//! Positions and durations are carried in milliseconds, the play cursor as a
//! sample index into the interleaved buffer.

use vstd::prelude::*;

verus! {

/// Volume is a linear factor in thousandths: 0 is silence, 1000 is unity.
pub const VOLUME_UNITY: u32 = 1000;

/// Repeat behaviour at the end of a track.
#[derive(Clone, Copy, Debug, PartialEq, Eq, Structural)]
pub enum RepeatMode {
    /// Stop at the end of the queue.
    Off,
    /// Repeat the current track.
    One,
    /// Repeat the whole queue.
    All,
}

impl Default for RepeatMode {
    /// Repeat is off until asked for.
    fn default() -> (r: RepeatMode)
        ensures
            r == RepeatMode::Off,
    {
        RepeatMode::Off
    }
}

/// The commands the audio thread consumes, in arrival order.
pub enum AudioCommand {
    /// Decode the file and play it from the start.
    Play(String),
    /// Decode the file and append its samples to the live buffer (gapless).
    AppendSamples(String),
    /// Stop emitting samples; keep the cursor.
    Pause,
    /// Emit samples again from the cursor.
    Resume,
    /// Drop the stream and clear the track.
    Stop,
    /// Move the cursor to this position, in milliseconds.
    Seek(u64),
    /// Set the linear volume, in thousandths of unity.
    SetVolume(u32),
    /// Switch to the named output device.
    SetDevice(String),
    /// End the audio thread.
    Shutdown,
}

/// What any caller may read about playback.
#[derive(Clone, Debug, PartialEq, Eq)]
pub struct PlaybackState {
    /// Whether the callback is emitting samples.
    pub is_playing: bool,
    /// Path of the loaded track, if any.
    pub current_track: Option<String>,
    /// Play position in milliseconds.
    pub position_ms: u64,
    /// Track duration in milliseconds.
    pub duration_ms: u64,
    /// Linear volume in thousandths of unity.
    pub volume_milli: u32,
    /// Output sample rate in hertz.
    pub sample_rate: u32,
    /// Source bit depth.
    pub bit_depth: u16,
    /// Output channel count.
    pub channels: u16,
    /// Whether track selection shuffles.
    pub shuffle: bool,
    /// Repeat behaviour.
    pub repeat_mode: RepeatMode,
    /// Set once when the cursor passes the end of the buffer.
    pub track_finished: bool,
}

/// Duration of `samples` interleaved samples, in milliseconds.
pub open spec fn spec_duration_ms(samples: int, rate: int, channels: int) -> int
    recommends
        rate >= 1,
        channels >= 1,
{
    samples * 1000 / (rate * channels)
}

/// The cursor a seek to `ms` milliseconds lands on: the nearest sample index
/// to `ms/1000 · rate · channels`.
pub open spec fn spec_seek_cursor(ms: int, rate: int, channels: int) -> int {
    (ms * rate * channels + 500) / 1000
}

/// The engine's model: the live buffer's length, the play cursor, the
/// negotiated output format, and the externally visible state.
pub struct PlaybackEngine {
    /// Whether the callback is emitting samples.
    pub is_playing: bool,
    /// Path of the loaded track, if any.
    pub current_track: Option<String>,
    /// Number of interleaved samples in the shared buffer.
    pub buffer_len: usize,
    /// Play cursor: index of the next sample to emit.
    pub cursor: usize,
    /// Linear volume in thousandths of unity.
    pub volume_milli: u32,
    /// Negotiated output sample rate; `None` until the first track loads.
    pub output_sample_rate: Option<u32>,
    /// Negotiated output channel count; `None` until the first track loads.
    pub output_channels: Option<u16>,
    /// Source bit depth of the loaded track.
    pub bit_depth: u16,
    /// Whether track selection shuffles.
    pub shuffle: bool,
    /// Repeat behaviour.
    pub repeat_mode: RepeatMode,
    /// Set once when the cursor passes the end of the buffer.
    pub track_finished: bool,
}

/// Largest buffer the millisecond arithmetic supports.
pub const BUFFER_SAMPLE_CAP: u64 = u64::MAX / 1000;

impl PlaybackEngine {
    /// The engine's invariant: the cursor stays inside the buffer, volume is
    /// at most unity, the output format (once negotiated) is positive, and a
    /// loaded buffer implies a negotiated format.
    pub open spec fn wf(self) -> bool {
        &&& self.cursor <= self.buffer_len
        &&& self.volume_milli <= VOLUME_UNITY
        &&& self.buffer_len <= BUFFER_SAMPLE_CAP
        &&& (self.output_sample_rate matches Option::Some(r) ==> r >= 1)
        &&& (self.output_channels matches Option::Some(c) ==> c >= 1)
        &&& (self.buffer_len > 0 ==> self.output_sample_rate is Some && self.output_channels
            is Some)
    }

    /// Whether a track has been loaded and the output format negotiated.
    pub open spec fn spec_loaded(self) -> bool {
        self.output_sample_rate is Some && self.output_channels is Some
    }

    /// The track duration the loaded buffer represents, in milliseconds.
    pub open spec fn spec_duration(self) -> int
        recommends
            self.wf(),
    {
        if self.spec_loaded() {
            spec_duration_ms(
                self.buffer_len as int,
                self.output_sample_rate->0 as int,
                self.output_channels->0 as int,
            )
        } else {
            0
        }
    }

    /// The play position the cursor represents, in milliseconds.
    pub open spec fn spec_position(self) -> int
        recommends
            self.wf(),
    {
        if self.spec_loaded() {
            spec_duration_ms(
                self.cursor as int,
                self.output_sample_rate->0 as int,
                self.output_channels->0 as int,
            )
        } else {
            0
        }
    }

    /// A fresh engine: nothing loaded, volume at unity.
    pub fn new() -> (e: PlaybackEngine)
        ensures
            e.wf(),
            !e.is_playing,
            e.current_track is None,
            e.buffer_len == 0,
            e.cursor == 0,
            e.volume_milli == VOLUME_UNITY,
            !e.spec_loaded(),
            !e.track_finished,
            e.repeat_mode == RepeatMode::Off,
            !e.shuffle,
    {
        PlaybackEngine {
            is_playing: false,
            current_track: Option::None,
            buffer_len: 0,
            cursor: 0,
            volume_milli: VOLUME_UNITY,
            output_sample_rate: Option::None,
            output_channels: Option::None,
            bit_depth: 16,
            shuffle: false,
            repeat_mode: RepeatMode::Off,
            track_finished: false,
        }
    }

    /// Load a freshly decoded (and, where needed, converted) track: install
    /// the buffer, reset the cursor, remember the negotiated output format,
    /// and start playing.
    pub fn load_track(
        &mut self,
        path: String,
        buffer_len: usize,
        out_rate: u32,
        out_channels: u16,
        bit_depth: u16,
    )
        requires
            old(self).wf(),
            out_rate >= 1,
            out_channels >= 1,
            buffer_len <= BUFFER_SAMPLE_CAP,
        ensures
            final(self).wf(),
            final(self).is_playing,
            !final(self).track_finished,
            final(self).current_track == Option::Some(path),
            final(self).buffer_len == buffer_len,
            final(self).cursor == 0,
            final(self).output_sample_rate == Option::Some(out_rate),
            final(self).output_channels == Option::Some(out_channels),
            final(self).bit_depth == bit_depth,
            final(self).volume_milli == old(self).volume_milli,
            final(self).shuffle == old(self).shuffle,
            final(self).repeat_mode == old(self).repeat_mode,
            final(self).spec_duration() == spec_duration_ms(
                buffer_len as int,
                out_rate as int,
                out_channels as int,
            ),
    {
        self.current_track = Option::Some(path);
        self.buffer_len = buffer_len;
        self.cursor = 0;
        self.output_sample_rate = Option::Some(out_rate);
        self.output_channels = Option::Some(out_channels);
        self.bit_depth = bit_depth;
        self.is_playing = true;
        self.track_finished = false;
    }

    /// Gapless append: the buffer grows by `appended` samples already in the
    /// output format; the play cursor does not move, the duration follows
    /// the new buffer length, and the finished flag clears.
    pub fn append_samples(&mut self, appended: usize)
        requires
            old(self).wf(),
            old(self).spec_loaded(),
            old(self).buffer_len + appended <= BUFFER_SAMPLE_CAP,
            old(self).buffer_len + appended <= usize::MAX,
        ensures
            final(self).wf(),
            final(self).cursor == old(self).cursor,
            final(self).buffer_len == old(self).buffer_len + appended,
            final(self).spec_duration() == spec_duration_ms(
                old(self).buffer_len + appended,
                old(self).output_sample_rate->0 as int,
                old(self).output_channels->0 as int,
            ),
            !final(self).track_finished,
            final(self).is_playing,
            final(self).current_track == old(self).current_track,
            final(self).output_sample_rate == old(self).output_sample_rate,
            final(self).output_channels == old(self).output_channels,
            final(self).volume_milli == old(self).volume_milli,
    {
        self.buffer_len = self.buffer_len + appended;
        self.track_finished = false;
        self.is_playing = true;
    }

    /// Stop emitting samples; the cursor stays where it is.
    pub fn pause(&mut self)
        requires
            old(self).wf(),
        ensures
            final(self).wf(),
            !final(self).is_playing,
            final(self).cursor == old(self).cursor,
            *final(self) == (PlaybackEngine { is_playing: false, ..*old(self) }),
    {
        self.is_playing = false;
    }

    /// Emit samples again from the current cursor.
    pub fn resume(&mut self)
        requires
            old(self).wf(),
        ensures
            final(self).wf(),
            final(self).is_playing,
            final(self).cursor == old(self).cursor,
            *final(self) == (PlaybackEngine { is_playing: true, ..*old(self) }),
    {
        self.is_playing = true;
    }

    /// Drop the stream: playback stops, the position clears, no track is
    /// current.  The buffer and output format stay for the next load to
    /// replace.
    pub fn stop(&mut self)
        requires
            old(self).wf(),
        ensures
            final(self).wf(),
            !final(self).is_playing,
            final(self).cursor == 0,
            final(self).current_track is None,
            final(self).buffer_len == old(self).buffer_len,
            final(self).volume_milli == old(self).volume_milli,
    {
        self.is_playing = false;
        self.cursor = 0;
        self.current_track = Option::None;
    }

    /// Set the linear volume, clamped to unity.
    pub fn set_volume(&mut self, volume_milli: u32)
        requires
            old(self).wf(),
        ensures
            final(self).wf(),
            final(self).volume_milli == if volume_milli <= VOLUME_UNITY {
                volume_milli as int
            } else {
                VOLUME_UNITY as int
            },
            final(self).cursor == old(self).cursor,
            final(self).buffer_len == old(self).buffer_len,
            final(self).is_playing == old(self).is_playing,
    {
        if volume_milli <= VOLUME_UNITY {
            self.volume_milli = volume_milli;
        } else {
            self.volume_milli = VOLUME_UNITY;
        }
    }

    /// The engine after a seek to `ms` milliseconds: `ms` is clamped to the
    /// duration, the cursor lands on the nearest sample index to
    /// `ms/1000 · rate · channels` (and never past the buffer).
    pub open spec fn spec_seek_model(self, ms: int) -> PlaybackEngine
        recommends
            self.wf(),
            self.spec_loaded(),
    {
        let rate = self.output_sample_rate->0 as int;
        let channels = self.output_channels->0 as int;
        let clamped = if ms <= self.spec_duration() {
            ms
        } else {
            self.spec_duration()
        };
        let target = spec_seek_cursor(clamped, rate, channels);
        let cursor = if target <= self.buffer_len {
            target
        } else {
            self.buffer_len as int
        };
        PlaybackEngine { cursor: cursor as usize, ..self }
    }

    /// Seek to `ms` milliseconds.
    ///
    /// The reported play position is always derived from the cursor, so
    /// right after a seek it may differ from the sought time by the
    /// sub-sample rounding; the next callback quantum would overwrite any
    /// stored value anyway.
    pub fn seek(&mut self, ms: u64)
        requires
            old(self).wf(),
            old(self).spec_loaded(),
        ensures
            final(self).wf(),
            *final(self) == old(self).spec_seek_model(ms as int),
    {
        let rate = match self.output_sample_rate {
            Option::Some(r) => r,
            Option::None => 1,  // unreachable: the engine is loaded
        };
        let channels = match self.output_channels {
            Option::Some(c) => c,
            Option::None => 1,  // unreachable: the engine is loaded
        };
        let duration = self.duration_ms();
        let clamped: u64 = if ms <= duration {
            ms
        } else {
            duration
        };
        proof {
            let c2 = clamped as int;
            let r2 = rate as int;
            let ch2 = channels as int;
            vstd::arithmetic::mul::lemma_mul_upper_bound(
                c2,
                0xffffffffffffffff,
                r2,
                0xffffffff,
            );
            assert(c2 * r2 >= 0) by (nonlinear_arith)
                requires
                    c2 >= 0,
                    r2 >= 0,
            ;
            vstd::arithmetic::mul::lemma_mul_upper_bound(
                c2 * r2,
                0xffffffffffffffffint * 0xffffffffint,
                ch2,
                0xffff,
            );
            assert((c2 * r2) * ch2 >= 0) by (nonlinear_arith)
                requires
                    c2 * r2 >= 0,
                    ch2 >= 0,
            ;
        }
        let target128: u128 = ((clamped as u128) * (rate as u128) * (channels as u128) + 500)
            / 1000;
        let cursor: usize = if target128 <= self.buffer_len as u128 {
            target128 as usize
        } else {
            self.buffer_len
        };
        self.cursor = cursor;
    }

    /// The loaded track's duration in milliseconds.
    pub fn duration_ms(&self) -> (d: u64)
        requires
            self.wf(),
        ensures
            d == self.spec_duration(),
    {
        match (self.output_sample_rate, self.output_channels) {
            (Option::Some(r), Option::Some(c)) => {
                proof {
                    assert(1 <= (r as int) * (c as int) < 0x1000000000000) by (nonlinear_arith)
                        requires
                            1 <= (r as int) && (r as int) < 0x100000000,
                            1 <= (c as int) && (c as int) < 0x10000,
                    ;
                }
                let num: u64 = (self.buffer_len as u64) * 1000;
                num / ((r as u64) * (c as u64))
            },
            _ => 0,
        }
    }

    /// The play position in milliseconds.
    pub fn position_ms(&self) -> (p: u64)
        requires
            self.wf(),
        ensures
            p == self.spec_position(),
    {
        match (self.output_sample_rate, self.output_channels) {
            (Option::Some(r), Option::Some(c)) => {
                proof {
                    assert(1 <= (r as int) * (c as int) < 0x1000000000000) by (nonlinear_arith)
                        requires
                            1 <= (r as int) && (r as int) < 0x100000000,
                            1 <= (c as int) && (c as int) < 0x10000,
                    ;
                }
                let num: u64 = (self.cursor as u64) * 1000;
                num / ((r as u64) * (c as u64))
            },
            _ => 0,
        }
    }

    /// One realtime callback quantum of `frames` sample slots: the emitted
    /// range of the buffer starts exactly at the cursor; slots past the
    /// buffer's end are silence.  When a playing buffer runs out, the track
    /// is marked finished and playback stops.  Returns `(start, count)`: the
    /// callback writes `buffer[start..start+count]` (scaled by the volume)
    /// and fills the remaining `frames - count` slots with zeros.
    pub fn callback_fill(&mut self, frames: usize) -> (r: (usize, usize))
        requires
            old(self).wf(),
        ensures
            final(self).wf(),
            r.0 == old(self).cursor,
            r.1 == if old(self).is_playing {
                if old(self).buffer_len - old(self).cursor <= frames {
                    old(self).buffer_len - old(self).cursor
                } else {
                    frames as int
                }
            } else {
                0
            },
            final(self).cursor == old(self).cursor + r.1,
            final(self).buffer_len == old(self).buffer_len,
            final(self).volume_milli == old(self).volume_milli,
            final(self).current_track == old(self).current_track,
            ({
                let finished = old(self).is_playing && r.1 < frames && old(self).buffer_len > 0;
                &&& final(self).track_finished == (old(self).track_finished || finished)
                &&& final(self).is_playing == (old(self).is_playing && !finished)
            }),
    {
        let start = self.cursor;
        if !self.is_playing {
            return (start, 0);
        }
        let remaining = self.buffer_len - self.cursor;
        let count: usize = if remaining <= frames {
            remaining
        } else {
            frames
        };
        self.cursor = self.cursor + count;
        if count < frames && self.buffer_len > 0 {
            self.track_finished = true;
            self.is_playing = false;
        }
        (start, count)
    }

    /// The externally visible snapshot of the engine.
    pub fn get_state(&self) -> (s: PlaybackState)
        requires
            self.wf(),
        ensures
            s.is_playing == self.is_playing,
            s.current_track == self.current_track,
            s.position_ms == self.spec_position(),
            s.duration_ms == self.spec_duration(),
            s.volume_milli == self.volume_milli,
            s.sample_rate == (if self.output_sample_rate is Some {
                self.output_sample_rate->0 as int
            } else {
                44100
            }),
            s.channels == (if self.output_channels is Some {
                self.output_channels->0 as int
            } else {
                2
            }),
            s.bit_depth == self.bit_depth,
            s.shuffle == self.shuffle,
            s.repeat_mode == self.repeat_mode,
            s.track_finished == self.track_finished,
    {
        let current_track = match &self.current_track {
            Option::Some(p) => Option::Some(p.clone()),
            Option::None => Option::None,
        };
        PlaybackState {
            is_playing: self.is_playing,
            current_track,
            position_ms: self.position_ms(),
            duration_ms: self.duration_ms(),
            volume_milli: self.volume_milli,
            sample_rate: match self.output_sample_rate {
                Option::Some(r) => r,
                Option::None => 44100,
            },
            bit_depth: self.bit_depth,
            channels: match self.output_channels {
                Option::Some(c) => c,
                Option::None => 2,
            },
            shuffle: self.shuffle,
            repeat_mode: self.repeat_mode,
            track_finished: self.track_finished,
        }
    }

    /// Toggle shuffling.
    pub fn set_shuffle(&mut self, enabled: bool)
        requires
            old(self).wf(),
        ensures
            final(self).wf(),
            *final(self) == (PlaybackEngine { shuffle: enabled, ..*old(self) }),
    {
        self.shuffle = enabled;
    }

    /// Set the repeat behaviour.
    pub fn set_repeat_mode(&mut self, mode: RepeatMode)
        requires
            old(self).wf(),
        ensures
            final(self).wf(),
            *final(self) == (PlaybackEngine { repeat_mode: mode, ..*old(self) }),
    {
        self.repeat_mode = mode;
    }
}

/// After a seek to `ms` (at most the duration), the very next callback
/// quantum emits samples starting exactly at the sample index nearest to
/// `ms/1000 · rate · channels`: `callback_fill` starts at the cursor, and
/// the seek put the cursor there.  Within the track, the rounding target
/// never exceeds the buffer, so no clamping interferes.
pub proof fn lemma_seek_then_callback_start(e: PlaybackEngine, ms: int)
    requires
        e.wf(),
        e.spec_loaded(),
        0 <= ms <= e.spec_duration(),
        spec_seek_cursor(ms, e.output_sample_rate->0 as int, e.output_channels->0 as int)
            <= e.buffer_len,
    ensures
        e.spec_seek_model(ms).cursor == spec_seek_cursor(
            ms,
            e.output_sample_rate->0 as int,
            e.output_channels->0 as int,
        ),
{
    let rate = e.output_sample_rate->0 as int;
    let channels = e.output_channels->0 as int;
    assert(spec_seek_cursor(ms, rate, channels) >= 0) by {
        assert(ms * rate * channels >= 0) by (nonlinear_arith)
            requires
                ms >= 0,
                rate >= 1,
                channels >= 1,
        ;
    }
}

} // verus!
