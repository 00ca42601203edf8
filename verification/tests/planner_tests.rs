//! Chunk plan arithmetic on concrete streams.

use hiflac::chunk_plan::ChunkPlan;

fn plan(n: usize) -> ChunkPlan {
    ChunkPlan { total_segments: n, first_chunk_segments: 2, regular_chunk_segments: 8 }
}

#[test]
fn forty_segments_make_six_chunks() {
    let p = plan(40);
    assert_eq!(p.total_chunks(), 6);
    assert_eq!(p.segment_range(0), (0, 2));
    assert_eq!(p.segment_range(1), (2, 10));
    assert_eq!(p.segment_range(2), (10, 18));
    assert_eq!(p.segment_range(5), (34, 40));
}

#[test]
fn chunks_partition_segments_exactly() {
    for n in [1usize, 2, 3, 9, 10, 11, 40, 41, 97] {
        let p = plan(n);
        let total = p.total_chunks();
        let mut next = 0usize;
        for i in 0..total {
            let (s, e) = p.segment_range(i);
            assert_eq!(s, next, "chunk {} of {}-segment plan starts where the last ended", i, n);
            assert!(e > s);
            next = e;
        }
        assert_eq!(next, n, "chunks of a {}-segment plan cover every segment", n);
    }
}

#[test]
fn tiny_stream_is_one_chunk() {
    let p = plan(1);
    assert_eq!(p.total_chunks(), 1);
    assert_eq!(p.segment_range(0), (0, 1));
}

#[test]
fn position_maps_into_covering_chunk() {
    let p = plan(40);
    // First chunk covers [0, 8) seconds.
    assert_eq!(p.chunk_for_position(0), 0);
    assert_eq!(p.chunk_for_position(7), 0);
    // Chunk 1 covers [8, 40) seconds.
    assert_eq!(p.chunk_for_position(8), 1);
    assert_eq!(p.chunk_for_position(39), 1);
    assert_eq!(p.chunk_for_position(40), 2);
    // 120 s lands in chunk 4 (the scenario a seek to 2:00 exercises).
    assert_eq!(p.chunk_for_position(120), 4);
    // Positions past the end clamp to the last chunk.
    assert_eq!(p.chunk_for_position(10_000), 5);
}

#[test]
fn position_is_inside_its_chunks_range() {
    let p = plan(40);
    for t in 0..160u64 {
        let i = p.chunk_for_position(t);
        let (s, e) = p.segment_range(i);
        assert!((s as u64) * 4 <= t && t < (e as u64) * 4, "t={} landed outside chunk {}", t, i);
    }
}
