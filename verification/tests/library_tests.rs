//! Paths, sanitization, tool location, credentials, and the gateway URL
//! parsing.

use hiflac::errors::AudioError;
use hiflac::ffmpeg::{get_ffmpeg_path, is_ffmpeg_installed, FFmpegManager, FFmpegStatus};
use hiflac::finalize::{
    cache_file_name, concat_list_bytes, concat_list_name, concat_transcode_args,
    flat_music_file_name, music_rel_path, sanitize_filename, transcode_args,
};
use hiflac::media::{
    extract_tidal_track_id, is_supported_extension, CredentialStore, LibraryScanner,
    SpotifyCredentials,
};
use hiflac::stream::{chunk_file_name, chunk_temp_file_name};
use hiflac::text::u64_to_string;

#[test]
fn numbers_print_in_decimal() {
    assert_eq!(u64_to_string(0), "0");
    assert_eq!(u64_to_string(7), "7");
    assert_eq!(u64_to_string(1234), "1234");
    assert_eq!(u64_to_string(18_446_744_073_709_551_615), "18446744073709551615");
}

#[test]
fn chunk_files_are_named_by_track_and_index() {
    assert_eq!(chunk_file_name("abc", 0), "abc_0.m4a");
    assert_eq!(chunk_file_name("abc", 12), "abc_12.m4a");
    assert_eq!(chunk_temp_file_name("abc", 12), "abc_12.m4a.tmp");
    assert_eq!(cache_file_name("abc"), "abc.flac");
    assert_eq!(concat_list_name("abc"), "abc_concat.txt");
}

#[test]
fn sanitization_replaces_unsafe_punctuation() {
    assert_eq!(sanitize_filename("AC/DC"), "AC_DC");
    assert_eq!(sanitize_filename("What? <Now>"), "What_ _Now_");
    assert_eq!(sanitize_filename("a\\b:c*d\"e|f"), "a_b_c_d_e_f");
    assert_eq!(sanitize_filename("  padded  "), "padded");
    assert_eq!(sanitize_filename(""), "");
}

#[test]
fn library_path_nests_artist_album_track() {
    assert_eq!(music_rel_path("Back in Black", "AC/DC", "Back in Black"), "AC_DC/Back in Black/Back in Black.flac");
}

#[test]
fn flat_library_name_joins_artist_and_track() {
    assert_eq!(flat_music_file_name("Thunderstruck", "AC/DC"), "AC_DC - Thunderstruck.flac");
}

#[test]
fn concat_list_escapes_single_quotes() {
    let paths = vec![b"/a/one.m4a".to_vec(), b"/a/it's.m4a".to_vec()];
    let bytes = concat_list_bytes(&paths);
    let text = String::from_utf8(bytes).unwrap();
    assert_eq!(text, "file '/a/one.m4a'\nfile '/a/it'\\''s.m4a'\n");
}

#[test]
fn transcoder_arguments_are_fixed_shape() {
    let args = transcode_args("/cache/in.m4a", "/music/out.flac");
    assert_eq!(
        args,
        vec!["-y", "-i", "/cache/in.m4a", "-c:a", "flac", "-compression_level", "5", "/music/out.flac"]
    );
    let joined = concat_transcode_args("/cache/list.txt", "/music/out.flac");
    assert_eq!(
        joined,
        vec![
            "-y",
            "-f",
            "concat",
            "-safe",
            "0",
            "-i",
            "/cache/list.txt",
            "-c:a",
            "flac",
            "-compression_level",
            "5",
            "/music/out.flac"
        ]
    );
}

#[test]
fn tool_paths_follow_the_platform() {
    let unixy = FFmpegManager::new("/data/HiFlac/ffmpeg".to_string(), false);
    assert_eq!(unixy.ffmpeg_path(), "/data/HiFlac/ffmpeg/ffmpeg");
    assert_eq!(unixy.ffprobe_path(), "/data/HiFlac/ffmpeg/ffprobe");
    let winy = FFmpegManager::new("C:/data".to_string(), true);
    assert_eq!(winy.ffmpeg_path(), "C:/data/ffmpeg.exe");
    assert_eq!(winy.ffprobe_path(), "C:/data/ffprobe.exe");
}

#[test]
fn tool_resolution_follows_the_probe() {
    let found = FFmpegStatus {
        installed: true,
        path: Some("/usr/bin/ffmpeg".to_string()),
        version: Some("7.0".to_string()),
    };
    assert!(is_ffmpeg_installed(&found));
    assert_eq!(get_ffmpeg_path(&found).unwrap(), "/usr/bin/ffmpeg");
    let missing = FFmpegStatus { installed: false, path: None, version: None };
    assert!(!is_ffmpeg_installed(&missing));
    assert!(get_ffmpeg_path(&missing).is_err());
    let m = FFmpegManager::new("/d".to_string(), false);
    assert_eq!(m.get_ffmpeg_path(&found).unwrap(), "/usr/bin/ffmpeg");
}

#[test]
fn credential_store_holds_one_set() {
    let mut store = CredentialStore::new();
    assert!(!store.has_credentials());
    assert_eq!(store.get_global(), None);
    store.set_global(Some(SpotifyCredentials {
        client_id: "test-client-id".to_string(),
        client_secret: "test-client-secret".to_string(),
    }));
    assert!(store.has_credentials());
    let got = store.get_global().unwrap();
    assert_eq!(got.client_id, "test-client-id");
    store.set_global(None);
    assert!(!store.has_credentials());
}

#[test]
fn scanner_starts_idle() {
    let s = LibraryScanner::new();
    assert!(!s.is_scanning());
}

#[test]
fn scanner_recognizes_audio_extensions() {
    for ext in ["flac", "wav", "alac", "m4a", "aiff", "aif", "mp3", "ogg", "opus"] {
        assert!(is_supported_extension(ext), "{} should be scanned", ext);
    }
    assert!(!is_supported_extension("txt"));
    assert!(!is_supported_extension("FLAC"));
    assert!(!is_supported_extension(""));
}

#[test]
fn track_id_is_read_from_gateway_urls() {
    assert_eq!(extract_tidal_track_id("https://tidal.com/browse/track/123456789").unwrap(), 123_456_789);
    assert_eq!(extract_tidal_track_id("https://listen.tidal.com/track/987?play=true").unwrap(), 987);
    assert_eq!(extract_tidal_track_id("https://listen.tidal.com/track/55/extra").unwrap(), 55);
    assert!(extract_tidal_track_id("https://tidal.com/browse/album/1").is_err());
    assert!(extract_tidal_track_id("https://tidal.com/track/notanumber").is_err());
    assert!(extract_tidal_track_id("https://tidal.com/track/").is_err());
}

#[test]
fn audio_error_messages_name_the_trouble() {
    assert_eq!(AudioError::NoDevice.message(), "no audio device available");
    assert_eq!(
        AudioError::FileNotFound("/x.flac".to_string()).message(),
        "file not found: /x.flac"
    );
    assert_eq!(AudioError::UnsupportedFormat.message(), "unsupported format");
}

#[test]
fn oversized_track_ids_are_invalid() {
    assert!(extract_tidal_track_id("https://tidal.com/track/99999999999999999999").is_err());
}
