//! The playback engine model: load, gapless append, seek, the realtime
//! callback, and device negotiation.

use hiflac::channels::{convert_channels, deinterleave, interleave, padded_block};
use hiflac::device::{negotiate_output_config, NegotiatedConfig, SupportedConfig};
use hiflac::playback::{PlaybackEngine, RepeatMode};

fn loaded_engine() -> PlaybackEngine {
    let mut e = PlaybackEngine::new();
    // Ten seconds at 96 kHz stereo.
    e.load_track("/cache/a.m4a".to_string(), 1_920_000, 96_000, 2, 24);
    e
}

#[test]
fn loading_installs_buffer_and_starts_playback() {
    let e = loaded_engine();
    assert!(e.is_playing);
    assert!(!e.track_finished);
    assert_eq!(e.cursor, 0);
    assert_eq!(e.duration_ms(), 10_000);
    let s = e.get_state();
    assert_eq!(s.sample_rate, 96_000);
    assert_eq!(s.channels, 2);
    assert_eq!(s.duration_ms, 10_000);
    assert_eq!(s.position_ms, 0);
}

#[test]
fn gapless_append_extends_duration_without_moving_the_cursor() {
    let mut e = loaded_engine();
    e.seek(3_000);
    let cursor_before = e.cursor;
    // Seven more seconds at the output rate.
    e.append_samples(1_344_000);
    assert_eq!(e.duration_ms(), 17_000);
    assert_eq!(e.cursor, cursor_before);
    assert!(!e.track_finished);
    assert!(e.is_playing);
}

#[test]
fn seek_lands_on_the_rounded_sample_index() {
    let mut e = loaded_engine();
    e.seek(3_000);
    // 3 s * 96000 Hz * 2 channels.
    assert_eq!(e.cursor, 576_000);
    // The very next callback emits from exactly there.
    let (start, count) = e.callback_fill(1024);
    assert_eq!(start, 576_000);
    assert_eq!(count, 1024);
    assert_eq!(e.cursor, 577_024);
}

#[test]
fn seek_clamps_to_the_duration() {
    let mut e = loaded_engine();
    e.seek(99_000);
    assert!(e.cursor <= e.buffer_len);
    assert_eq!(e.position_ms(), 10_000);
}

#[test]
fn callback_emits_nothing_while_paused() {
    let mut e = loaded_engine();
    e.seek(1_000);
    e.pause();
    let (start, count) = e.callback_fill(512);
    assert_eq!(start, 192_000);
    assert_eq!(count, 0);
    assert!(!e.track_finished);
    e.resume();
    let (_, count2) = e.callback_fill(512);
    assert_eq!(count2, 512);
}

#[test]
fn running_out_of_buffer_finishes_the_track_once() {
    let mut e = PlaybackEngine::new();
    e.load_track("/cache/b.m4a".to_string(), 4, 44_100, 2, 16);
    let (start, count) = e.callback_fill(8);
    assert_eq!(start, 0);
    assert_eq!(count, 4);
    assert!(e.track_finished);
    assert!(!e.is_playing);
    // Appending clears the flag and playback resumes.
    e.append_samples(8);
    assert!(!e.track_finished);
    assert!(e.is_playing);
    let (start2, count2) = e.callback_fill(8);
    assert_eq!(start2, 4);
    assert_eq!(count2, 8);
}

#[test]
fn stop_clears_track_and_position() {
    let mut e = loaded_engine();
    e.seek(2_000);
    e.stop();
    assert!(!e.is_playing);
    assert_eq!(e.cursor, 0);
    assert_eq!(e.get_state().current_track, None);
}

#[test]
fn volume_clamps_to_unity() {
    let mut e = PlaybackEngine::new();
    e.set_volume(650);
    assert_eq!(e.volume_milli, 650);
    e.set_volume(5_000);
    assert_eq!(e.volume_milli, 1_000);
}

#[test]
fn shuffle_and_repeat_are_plain_toggles() {
    let mut e = PlaybackEngine::new();
    e.set_shuffle(true);
    e.set_repeat_mode(RepeatMode::All);
    let s = e.get_state();
    assert!(s.shuffle);
    assert_eq!(s.repeat_mode, RepeatMode::All);
    assert_eq!(RepeatMode::default(), RepeatMode::Off);
}

// ---------------------------------------------------------------------------
// Device negotiation.
// ---------------------------------------------------------------------------

fn cfg(channels: u16, min: u32, max: u32) -> SupportedConfig {
    SupportedConfig { channels, min_sample_rate: min, max_sample_rate: max }
}

#[test]
fn exact_match_needs_no_conversion() {
    let configs = vec![cfg(2, 44_100, 192_000)];
    let r = negotiate_output_config(48_000, 2, &configs, None).unwrap();
    assert_eq!(
        r,
        NegotiatedConfig {
            channels: 2,
            sample_rate: 48_000,
            needs_resample: false,
            needs_rechannel: false,
        }
    );
}

#[test]
fn stereo_fallback_keeps_the_source_rate() {
    let configs = vec![cfg(2, 44_100, 192_000)];
    let r = negotiate_output_config(48_000, 6, &configs, None).unwrap();
    assert_eq!(r.channels, 2);
    assert_eq!(r.sample_rate, 48_000);
    assert!(!r.needs_resample);
    assert!(r.needs_rechannel);
}

#[test]
fn highest_rate_wins_when_the_source_rate_is_unsupported() {
    // The device only does 48 k and 96 k; a 44.1 k source must be resampled
    // to the highest rate.
    let configs = vec![cfg(2, 48_000, 48_000), cfg(2, 96_000, 96_000)];
    let r = negotiate_output_config(44_100, 2, &configs, None).unwrap();
    assert_eq!(r.sample_rate, 96_000);
    assert_eq!(r.channels, 2);
    assert!(r.needs_resample);
    assert!(!r.needs_rechannel);
}

#[test]
fn device_default_is_the_last_resort() {
    let configs = vec![cfg(8, 8_000, 8_000)];
    let r = negotiate_output_config(44_100, 2, &configs, Some((2, 48_000))).unwrap();
    assert_eq!(r.channels, 2);
    assert_eq!(r.sample_rate, 48_000);
    assert!(r.needs_resample);
    let none = negotiate_output_config(44_100, 1, &vec![cfg(8, 8_000, 8_000)], None);
    assert!(none.is_none());
}

// ---------------------------------------------------------------------------
// Channel-layout conversion.
// ---------------------------------------------------------------------------

#[test]
fn same_layout_passes_samples_through_unchanged() {
    let x = vec![0.25f32, -0.5, 0.75, 1.0];
    let r = convert_channels(&x, 2, 2, 0.0).unwrap();
    assert_eq!(r, x);
}

#[test]
fn mono_duplicates_into_both_stereo_channels() {
    let x = vec![0.25f32, -0.5];
    let r = convert_channels(&x, 1, 2, 0.0).unwrap();
    assert_eq!(r, vec![0.25, 0.25, -0.5, -0.5]);
}

#[test]
fn stereo_to_mono_is_left_to_the_caller() {
    let x = vec![0.25f32, -0.5];
    assert!(convert_channels(&x, 2, 1, 0.0).is_none());
}

#[test]
fn wide_layouts_collapse_to_their_first_two_channels() {
    let x = vec![1.0f32, 2.0, 3.0, 4.0, 5.0, 6.0, 7.0, 8.0];
    let r = convert_channels(&x, 4, 2, 0.0).unwrap();
    assert_eq!(r, vec![1.0, 2.0, 5.0, 6.0]);
}

#[test]
fn widening_pads_with_silence() {
    let x = vec![1.0f32, 2.0];
    let r = convert_channels(&x, 1, 3, 0.0).unwrap();
    assert_eq!(r, vec![1.0, 0.0, 0.0, 2.0, 0.0, 0.0]);
}

#[test]
fn deinterleave_then_interleave_round_trips() {
    let x = vec![1.0f32, 2.0, 3.0, 4.0, 5.0, 6.0];
    let planar = deinterleave(&x, 2);
    assert_eq!(planar.len(), 2);
    assert_eq!(planar[0], vec![1.0, 3.0, 5.0]);
    assert_eq!(planar[1], vec![2.0, 4.0, 6.0]);
    let back = interleave(&planar, 3, 0.0);
    assert_eq!(back, x);
}

#[test]
fn short_channels_are_silence_filled_on_interleave() {
    let planar = vec![vec![1.0f32, 3.0], vec![2.0f32]];
    let r = interleave(&planar, 2, 0.0);
    assert_eq!(r, vec![1.0, 2.0, 3.0, 0.0]);
}

#[test]
fn padded_block_completes_the_final_chunk() {
    let v = vec![1.0f32, 2.0, 3.0, 4.0, 5.0];
    let b = padded_block(&v, 3, 5, 4, 0.0);
    assert_eq!(b, vec![4.0, 5.0, 0.0, 0.0]);
}
