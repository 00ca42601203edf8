//! Manifest parsing, preview detection and the base64 path, exercised with
//! real encodings.

use base64::Engine;
use hiflac::errors::ManifestError;
use hiflac::manifest::{
    manifest_is_json, media_url_bytes, parse_dash_manifest, prepare_stream_manifest,
};

fn dash_xml(segments_beyond_first: usize) -> String {
    let mut xml = String::new();
    xml.push_str("<?xml version=\"1.0\" encoding=\"utf-8\"?><MPD><Period><AdaptationSet>");
    xml.push_str("<Representation><SegmentTemplate timescale=\"44100\" ");
    xml.push_str("initialization=\"https://cdn.example.com/init.mp4?a=1&amp;b=2\" ");
    xml.push_str("media=\"https://cdn.example.com/seg-$Number$.m4s?tok=9&amp;x=y\">");
    xml.push_str("<SegmentTimeline><S t=\"0\" d=\"16384\"/>");
    xml.push_str(&format!("<S d=\"16384\" r=\"{}\"/>", segments_beyond_first - 1));
    xml.push_str("</SegmentTimeline></SegmentTemplate></Representation>");
    xml.push_str("</AdaptationSet></Period></MPD>");
    xml
}

fn encode(s: &str) -> String {
    base64::engine::general_purpose::STANDARD.encode(s.as_bytes())
}

#[test]
fn full_manifest_parses_with_decoded_urls() {
    let xml = dash_xml(39); // 1 + 39 = 40 segments
    let m = parse_dash_manifest(&xml.as_bytes().to_vec()).unwrap();
    assert_eq!(m.total_segments, 40);
    assert_eq!(m.init_url, b"https://cdn.example.com/init.mp4?a=1&b=2".to_vec());
    assert_eq!(m.media_template, b"https://cdn.example.com/seg-$Number$.m4s?tok=9&x=y".to_vec());
    let first = media_url_bytes(&m.media_template, 1);
    assert_eq!(first, b"https://cdn.example.com/seg-1.m4s?tok=9&x=y".to_vec());
    let last = media_url_bytes(&m.media_template, 40);
    assert_eq!(last, b"https://cdn.example.com/seg-40.m4s?tok=9&x=y".to_vec());
}

#[test]
fn prepare_accepts_full_track_through_base64() {
    let b64 = encode(&dash_xml(39));
    let m = prepare_stream_manifest(&b64, Some(180_000)).unwrap();
    assert_eq!(m.total_segments, 40);
}

#[test]
fn prepare_rejects_invalid_base64() {
    let r = prepare_stream_manifest("!!!not-base64!!!", None);
    assert_eq!(r.unwrap_err(), ManifestError::Decode);
}

#[test]
fn prepare_rejects_json_manifest() {
    let b64 = encode("  {\"urls\": [\"https://cdn.example.com/direct.flac\"]}");
    let r = prepare_stream_manifest(&b64, None);
    assert_eq!(r.unwrap_err(), ManifestError::NotDash);
}

#[test]
fn preview_manifest_is_rejected_with_duration() {
    // 8 segments but a declared three-minute track (about 45 expected).
    let b64 = encode(&dash_xml(7));
    let r = prepare_stream_manifest(&b64, Some(180_000));
    assert_eq!(r.unwrap_err(), ManifestError::Preview);
}

#[test]
fn preview_manifest_is_rejected_without_duration() {
    let b64 = encode(&dash_xml(7));
    let r = prepare_stream_manifest(&b64, None);
    assert_eq!(r.unwrap_err(), ManifestError::Preview);
}

#[test]
fn short_track_with_matching_duration_is_accepted() {
    // 8 segments and a declared 32-second duration: short but consistent.
    let b64 = encode(&dash_xml(7));
    let m = prepare_stream_manifest(&b64, Some(32_000)).unwrap();
    assert_eq!(m.total_segments, 8);
}

#[test]
fn missing_init_url_is_reported() {
    let xml = "<MPD><SegmentTemplate media=\"seg-$Number$\"><SegmentTimeline><S d=\"1\"/></SegmentTimeline></SegmentTemplate></MPD>";
    let r = parse_dash_manifest(&xml.as_bytes().to_vec());
    assert_eq!(r.unwrap_err(), ManifestError::MissingInitUrl);
}

#[test]
fn missing_media_template_is_reported() {
    let xml = "<MPD><SegmentTemplate initialization=\"init.mp4\"><SegmentTimeline><S d=\"1\"/></SegmentTimeline></SegmentTemplate></MPD>";
    let r = parse_dash_manifest(&xml.as_bytes().to_vec());
    assert_eq!(r.unwrap_err(), ManifestError::MissingMediaTemplate);
}

#[test]
fn empty_timeline_is_reported() {
    let xml = "<MPD><SegmentTemplate initialization=\"init.mp4\" media=\"seg-$Number$\"><SegmentTimeline></SegmentTimeline></SegmentTemplate></MPD>";
    let r = parse_dash_manifest(&xml.as_bytes().to_vec());
    assert_eq!(r.unwrap_err(), ManifestError::NoSegments);
}

#[test]
fn json_detection_skips_leading_whitespace() {
    assert!(manifest_is_json(&b"  \n\t{\"a\":1}".to_vec()));
    assert!(!manifest_is_json(&b"  <MPD/>".to_vec()));
    assert!(!manifest_is_json(&b"".to_vec()));
}

#[test]
fn error_messages_read_like_diagnostics() {
    assert_eq!(ManifestError::Preview.message(), "preview manifest detected");
    assert_eq!(ManifestError::NoSegments.message(), "no segments found in manifest");
}

#[test]
fn oversized_repeat_counts_are_rejected() {
    let xml = "<MPD><SegmentTemplate initialization=\"init.mp4\" media=\"seg-$Number$\"><SegmentTimeline><S d=\"1\" r=\"99999999999999999999999\"/></SegmentTimeline></SegmentTemplate></MPD>";
    let r = parse_dash_manifest(&xml.as_bytes().to_vec());
    assert_eq!(r.unwrap_err(), ManifestError::TooManySegments);
}

#[test]
fn number_token_is_replaced_everywhere() {
    let template = b"a/$Number$/b?n=$Number$".to_vec();
    assert_eq!(media_url_bytes(&template, 7), b"a/7/b?n=7".to_vec());
    assert_eq!(media_url_bytes(&template, 12), b"a/12/b?n=12".to_vec());
}

#[test]
fn rejected_preview_installs_no_stream() {
    let b64 = encode(&dash_xml(7));
    let registry = hiflac::stream::StreamRegistry::new();
    // Preparation fails, so nothing is ever handed to the registry.
    assert!(prepare_stream_manifest(&b64, Some(180_000)).is_err());
    assert!(!registry.has_active_stream("t1"));
    assert_eq!(registry.streams.len(), 0);
}
