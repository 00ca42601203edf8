//! The stream coordinator: registry bookkeeping, out-of-order chunk
//! arrival, seek reprioritization, worker picks, and finalize plans.

use hiflac::errors::StreamError;
use hiflac::manifest::DashManifest;
use hiflac::stream::{ProgressiveStreamState, StreamRegistry};

fn forty_segment_stream(id: &str) -> ProgressiveStreamState {
    let m = DashManifest {
        init_url: b"https://cdn.example.com/init.mp4".to_vec(),
        media_template: b"https://cdn.example.com/seg-$Number$.m4s".to_vec(),
        total_segments: 40,
    };
    ProgressiveStreamState::new_stream(
        id.to_string(),
        m,
        b"INITBYTES".to_vec(),
        Some(96_000),
        Some(24),
        Some("Song".to_string()),
        Some("Artist".to_string()),
        Some("Album".to_string()),
    )
}

fn registry_with(id: &str) -> StreamRegistry {
    let mut reg = StreamRegistry::new();
    reg.register(forty_segment_stream(id));
    reg
}

#[test]
fn registered_stream_is_active() {
    let reg = registry_with("t1");
    assert!(reg.has_active_stream("t1"));
    assert!(!reg.has_active_stream("t2"));
    assert_eq!(reg.get_total_chunks("t1").unwrap(), 6);
    assert_eq!(reg.get_total_chunks("t2").unwrap_err(), StreamError::NoActiveStream);
}

#[test]
fn chunk_job_snapshots_urls_and_names() {
    let reg = registry_with("t1");
    let job = reg.chunk_job("t1", 1).unwrap();
    assert_eq!(job.chunk_index, 1);
    assert_eq!(job.start_segment, 2);
    assert_eq!(job.end_segment, 10);
    assert_eq!(job.init_segment, b"INITBYTES".to_vec());
    assert_eq!(job.segment_urls.len(), 8);
    // Media segments are numbered from one: chunk 1 starts at segment index
    // 2, so its first URL carries the number 3.
    assert_eq!(job.segment_urls[0], b"https://cdn.example.com/seg-3.m4s".to_vec());
    assert_eq!(job.segment_urls[7], b"https://cdn.example.com/seg-10.m4s".to_vec());
    assert_eq!(job.file_name, "t1_1.m4a");
    assert_eq!(job.temp_file_name, "t1_1.m4a.tmp");
    assert_eq!(reg.chunk_job("t1", 6).unwrap_err(), StreamError::ChunkOutOfRange);
}

#[test]
fn out_of_order_arrival_fills_placeholders() {
    let mut reg = registry_with("t1");
    // Chunk 3 arrives before 0..2: the table grows with placeholders.
    let complete = reg.mark_chunk_ready("t1", 3, "/cache/t1_3.m4a".to_string()).unwrap();
    assert!(!complete);
    assert!(reg.is_chunk_ready("t1", 3));
    assert!(!reg.is_chunk_ready("t1", 0));
    assert!(!reg.is_chunk_ready("t1", 2));
    assert_eq!(reg.get_chunk_by_index("t1", 3).unwrap(), Some("/cache/t1_3.m4a".to_string()));
    assert_eq!(reg.get_chunk_by_index("t1", 2).unwrap(), None);
    assert_eq!(reg.get_stream_progress("t1").unwrap(), (1, 6, false));
}

#[test]
fn seek_reprioritization_orders_pending_chunks() {
    let mut reg = registry_with("t1");
    reg.mark_chunk_ready("t1", 0, "/cache/t1_0.m4a".to_string()).unwrap();
    reg.mark_chunk_ready("t1", 1, "/cache/t1_1.m4a".to_string()).unwrap();
    // 120 s falls in chunk 4; pending chunks from there on come first.
    assert_eq!(reg.get_chunk_for_position("t1", 120).unwrap(), 4);
    let queue = reg.reprioritize_for_seek("t1", 4).unwrap();
    assert_eq!(queue, vec![4, 5, 2, 3]);
    // The target became the current chunk, and the next worker pick honours
    // the new order.
    let current = reg.get_current_chunk("t1").unwrap();
    assert_eq!(current.chunk_index, 4);
    assert!(!current.is_ready);
    assert_eq!(reg.get_next_download_chunk("t1"), Some(4));
    let taken = vec![4];
    assert_eq!(reg.next_eligible_chunk("t1", &taken), Some(5));
    assert_eq!(reg.reprioritize_for_seek("t1", 9).unwrap_err(), StreamError::ChunkOutOfRange);
    // A target just past the last chunk is still a valid seek point (the
    // very end of the track): the queue becomes the pending chunks in plain
    // ascending order.
    assert_eq!(reg.reprioritize_for_seek("t1", 6).unwrap(), vec![2, 3, 4, 5]);
}

#[test]
fn workers_never_pick_ready_or_taken_chunks() {
    let mut reg = registry_with("t1");
    reg.mark_chunk_ready("t1", 0, "/cache/t1_0.m4a".to_string()).unwrap();
    assert_eq!(reg.get_next_download_chunk("t1"), Some(1));
    let taken = vec![1, 2];
    assert_eq!(reg.next_eligible_chunk("t1", &taken), Some(3));
}

#[test]
fn advance_and_next_chunk_walk_the_stream() {
    let mut reg = registry_with("t1");
    reg.mark_chunk_ready("t1", 0, "/cache/t1_0.m4a".to_string()).unwrap();
    reg.mark_chunk_ready("t1", 1, "/cache/t1_1.m4a".to_string()).unwrap();
    // After chunk 0 the next chunk is ready and playable.
    let next = reg.download_next_chunk("t1").unwrap();
    assert_eq!(next.chunk_index, 1);
    assert!(next.is_ready);
    assert!(!next.is_last);
    assert_eq!(next.chunk_path, Some("/cache/t1_1.m4a".to_string()));
    reg.advance_chunk("t1").unwrap();
    // Chunk 2 is pending: the caller must download it first.
    let pending = reg.download_next_chunk("t1").unwrap();
    assert_eq!(pending.chunk_index, 2);
    assert!(!pending.is_ready);
    assert_eq!(pending.chunk_path, None);
    // Past the end the answer says so.
    for _ in 0..10 {
        reg.advance_chunk("t1").unwrap();
    }
    let past = reg.download_next_chunk("t1").unwrap();
    assert!(past.is_last);
    assert!(!past.is_ready);
}

#[test]
fn completion_needs_every_chunk() {
    let mut reg = registry_with("t1");
    for i in 0..5usize {
        let complete = reg.mark_chunk_ready("t1", i, format!("/cache/t1_{}.m4a", i)).unwrap();
        assert!(!complete, "stream complete after only {} chunks", i + 1);
    }
    let complete = reg.mark_chunk_ready("t1", 5, "/cache/t1_5.m4a".to_string()).unwrap();
    assert!(complete);
    assert_eq!(reg.get_stream_progress("t1").unwrap(), (6, 6, true));
}

#[test]
fn chunk_durations_follow_the_plan() {
    let reg = registry_with("t1");
    assert_eq!(reg.get_chunk_duration_seconds("t1").unwrap(), 32);
    assert_eq!(reg.get_specific_chunk_duration("t1", 0).unwrap(), 8);
    assert_eq!(reg.get_specific_chunk_duration("t1", 1).unwrap(), 32);
    assert_eq!(reg.get_specific_chunk_duration("t1", 5).unwrap(), 24);
}

#[test]
fn finalize_plan_joins_chunks_into_library_path() {
    let mut reg = registry_with("t1");
    assert_eq!(reg.finalize_plan("t1").unwrap_err(), StreamError::NotComplete);
    for i in 0..6usize {
        reg.mark_chunk_ready("t1", i, format!("/cache/t1_{}.m4a", i)).unwrap();
    }
    let plan = reg.finalize_plan("t1").unwrap();
    assert!(!plan.single_chunk);
    assert_eq!(plan.input_paths.len(), 6);
    assert_eq!(plan.input_paths[0], "/cache/t1_0.m4a");
    assert_eq!(plan.concat_list_name, "t1_concat.txt");
    assert!(plan.in_music_library);
    assert_eq!(plan.output_rel_path, "Artist/Album/Song.flac");
    let content = String::from_utf8(plan.concat_list_content.clone()).unwrap();
    let lines: Vec<&str> = content.lines().collect();
    assert_eq!(lines.len(), 6);
    assert_eq!(lines[0], "file '/cache/t1_0.m4a'");
    assert_eq!(lines[5], "file '/cache/t1_5.m4a'");
}

#[test]
fn cleanup_returns_ready_paths_and_forgets_the_stream() {
    let mut reg = registry_with("t1");
    reg.mark_chunk_ready("t1", 2, "/cache/t1_2.m4a".to_string()).unwrap();
    reg.mark_chunk_ready("t1", 0, "/cache/t1_0.m4a".to_string()).unwrap();
    let paths = reg.cleanup_stream("t1");
    assert_eq!(paths, vec!["/cache/t1_0.m4a".to_string(), "/cache/t1_2.m4a".to_string()]);
    assert!(!reg.has_active_stream("t1"));
}

#[test]
fn cleanup_is_idempotent_for_unknown_tracks() {
    let mut reg = registry_with("t1");
    // A track without a registered stream cleans up to nothing, so the
    // caller can always sweep leftover files.
    assert_eq!(reg.cleanup_stream("never-started"), Vec::<String>::new());
    assert_eq!(reg.cleanup_stream("t1").len(), 0);
    assert_eq!(reg.cleanup_stream("t1"), Vec::<String>::new());
    assert!(!reg.has_active_stream("t1"));
}

#[test]
fn registering_twice_replaces_the_stream() {
    let mut reg = registry_with("t1");
    reg.mark_chunk_ready("t1", 0, "/cache/t1_0.m4a".to_string()).unwrap();
    reg.register(forty_segment_stream("t1"));
    assert!(reg.has_active_stream("t1"));
    assert!(!reg.is_chunk_ready("t1", 0));
    assert_eq!(reg.streams.len(), 1);
}

#[test]
fn two_streams_do_not_interfere() {
    let mut reg = registry_with("a");
    reg.register(forty_segment_stream("b"));
    reg.mark_chunk_ready("a", 0, "/cache/a_0.m4a".to_string()).unwrap();
    assert!(reg.is_chunk_ready("a", 0));
    assert!(!reg.is_chunk_ready("b", 0));
    reg.cleanup_stream("a");
    assert!(reg.has_active_stream("b"));
}

#[test]
fn stream_error_messages_match_the_diagnostics() {
    assert_eq!(StreamError::NoActiveStream.message(), "No active stream for track");
    assert_eq!(StreamError::NotComplete.message(), "Stream not complete, cannot finalize");
}
