//! Per-track progressive stream state and the registry of active streams.
//!
//! A stream holds the parsed manifest data, the chunk table (with not-ready
//! placeholders for out-of-order downloads), the download queue, and the
//! bookkeeping that the fetch workers and the UI read.  All methods here are
//! pure state logic: network transfers and file writes happen outside, and
//! report back through `mark_chunk_ready`.

use vstd::prelude::*;
use vstd::string::StringExecFns;

use crate::chunk_plan::ChunkPlan;
use crate::errors::StreamError;
use crate::manifest::DashManifest;
use crate::manifest::spec_media_url;
use crate::text::dec_chars;
use crate::text::str_eq;
use crate::text::u64_to_string;

verus! {

/// Number of segments in the first chunk of every stream: small, for a fast
/// start.
pub const FIRST_CHUNK_SEGMENTS: usize = 2;

/// Number of segments in every later chunk.
pub const REGULAR_CHUNK_SEGMENTS: usize = 8;

/// One chunk of a progressive stream.
#[derive(Debug, Clone, PartialEq, Eq)]
pub struct StreamChunk {
    /// Position of this chunk in the stream.
    pub chunk_index: usize,
    /// Where the chunk file was written; empty for a placeholder.
    pub file_path: String,
    /// First segment (inclusive) covered by this chunk.
    pub segment_start: usize,
    /// Last segment (exclusive) covered by this chunk.
    pub segment_end: usize,
    /// Nominal duration in seconds: four per segment.
    pub duration_seconds: u64,
    /// Whether the chunk file is on disk; placeholders for chunks that have
    /// not arrived yet carry `false`.
    pub is_ready: bool,
}

/// State of one track's progressive download.
pub struct ProgressiveStreamState {
    /// Identifier under which the stream is registered.
    pub track_id: String,
    /// Total number of media segments in the manifest.
    pub total_segments: usize,
    /// Segments per regular (non-first) chunk.
    pub segments_per_chunk: usize,
    /// Segments in the first chunk.
    pub first_chunk_segments: usize,
    /// Chunk table, grown with placeholders as chunks arrive out of order.
    pub chunks: Vec<StreamChunk>,
    /// The downloaded init segment that precedes every chunk's media bytes.
    pub init_segment: Option<Vec<u8>>,
    /// One media URL per segment.
    pub media_urls: Vec<Vec<u8>>,
    /// Chunk the player is currently on.
    pub current_chunk: usize,
    /// Whether every chunk is ready.
    pub is_complete: bool,
    /// Declared sample rate, if the gateway reported one.
    pub sample_rate: Option<u32>,
    /// Declared bit depth, if the gateway reported one.
    pub bit_depth: Option<u32>,
    /// Track title, for the final library path.
    pub track_name: Option<String>,
    /// Artist name, for the final library path.
    pub artist_name: Option<String>,
    /// Album name, for the final library path.
    pub album_name: Option<String>,
    /// Chunk a seek made urgent, if any.
    pub priority_chunk: Option<usize>,
    /// Chunk indices in download priority order.
    pub download_queue: Vec<usize>,
    /// Set when a seek reordered the queue; workers notice on their next
    /// queue inspection.
    pub needs_reprioritize: bool,
}

impl ProgressiveStreamState {
    /// The chunk plan this stream follows.
    pub open spec fn spec_plan(self) -> ChunkPlan {
        ChunkPlan {
            total_segments: self.total_segments,
            first_chunk_segments: self.first_chunk_segments,
            regular_chunk_segments: self.segments_per_chunk,
        }
    }

    /// Number of chunks in the stream.
    pub open spec fn spec_total_chunks(self) -> nat {
        self.spec_plan().spec_total_chunks()
    }

    /// Whether chunk `i` has not been downloaded yet.
    pub open spec fn spec_not_ready(self, i: int) -> bool {
        i >= self.chunks@.len() || !self.chunks@[i].is_ready
    }

    /// Well-formedness: the plan is valid, the chunk table never exceeds the
    /// plan, chunk records sit at their own index, the queue holds no
    /// duplicates, every pending chunk index is queued, and completeness
    /// means that the whole table is ready.
    pub open spec fn wf(self) -> bool {
        &&& self.spec_plan().wf()
        &&& self.media_urls@.len() == self.total_segments
        &&& self.chunks@.len() <= self.spec_total_chunks()
        &&& forall|i: int|
            0 <= i < self.chunks@.len() ==> #[trigger] self.chunks@[i].chunk_index == i
        &&& forall|k: int|
            0 <= k < self.download_queue@.len() ==> #[trigger] self.download_queue@[k]
                < self.spec_total_chunks()
        &&& forall|k: int, l: int|
            0 <= k < l < self.download_queue@.len() ==> #[trigger] self.download_queue@[k]
                != #[trigger] self.download_queue@[l]
        &&& forall|i: int|
            0 <= i < self.spec_total_chunks() && self.spec_not_ready(i)
                ==> self.download_queue@.contains(i as usize)
        &&& self.current_chunk <= self.spec_total_chunks()
        &&& self.is_complete <==> (self.chunks@.len() == self.spec_total_chunks() && forall|
            i: int,
        |
            0 <= i < self.chunks@.len() ==> #[trigger] self.chunks@[i].is_ready)
    }

    /// The chunk plan as a value.
    pub fn plan(&self) -> (p: ChunkPlan)
        ensures
            p == self.spec_plan(),
    {
        ChunkPlan {
            total_segments: self.total_segments,
            first_chunk_segments: self.first_chunk_segments,
            regular_chunk_segments: self.segments_per_chunk,
        }
    }

    /// Total number of chunks.
    pub fn total_chunks(&self) -> (n: usize)
        requires
            self.wf(),
        ensures
            n == self.spec_total_chunks(),
            n >= 1,
    {
        self.plan().total_chunks()
    }

    /// Segment range `[start, end)` of chunk `chunk_index`.
    pub fn get_chunk_segment_range(&self, chunk_index: usize) -> (r: (usize, usize))
        requires
            self.wf(),
            chunk_index < self.spec_total_chunks(),
        ensures
            r.0 == self.spec_plan().spec_segment_start(chunk_index as int),
            r.1 == self.spec_plan().spec_segment_end(chunk_index as int),
            r.0 < r.1 <= self.total_segments,
    {
        self.plan().segment_range(chunk_index)
    }

    /// Whether chunk `i` is downloaded and on disk.
    pub fn chunk_ready(&self, i: usize) -> (r: bool)
        ensures
            r == !self.spec_not_ready(i as int),
    {
        i < self.chunks.len() && self.chunks[i].is_ready
    }

    /// The download queue a seek to `target` asks for: every pending chunk
    /// from the target onwards in ascending order, then every pending chunk
    /// before the target in ascending order.
    #[verifier::loop_isolation(false)]
    pub fn build_seek_queue(&self, target: usize) -> (q: Vec<usize>)
        requires
            self.wf(),
            target <= self.spec_total_chunks(),
        ensures
            forall|k: int|
                0 <= k < q@.len() ==> #[trigger] q@[k] < self.spec_total_chunks()
                    && self.spec_not_ready(q@[k] as int),
            forall|k: int, l: int| 0 <= k < l < q@.len() ==> q@[k] != q@[l],
            forall|i: int|
                0 <= i < self.spec_total_chunks() && self.spec_not_ready(i) ==> q@.contains(
                    i as usize,
                ),
            forall|k: int, l: int|
                0 <= k < q@.len() && 0 <= l < q@.len() && q@[k] >= target && q@[l] < target ==> k
                    < l,
            forall|k: int, l: int|
                0 <= k < l < q@.len() && (q@[k] >= target) == (q@[l] >= target) ==> q@[k] < q@[l],
    {
        let total: usize = self.total_chunks();
        let mut q: Vec<usize> = Vec::new();
        let mut i: usize = target;
        while i < total
            invariant
                target <= i <= total,
                forall|k: int|
                    0 <= k < q@.len() ==> target <= #[trigger] q@[k] < i && self.spec_not_ready(
                        q@[k] as int,
                    ),
                forall|k: int, l: int| 0 <= k < l < q@.len() ==> q@[k] < q@[l],
                forall|j: int|
                    target <= j < i && self.spec_not_ready(j) ==> q@.contains(j as usize),
            decreases total - i,
        {
            let ghost q_before = q@;
            if !self.chunk_ready(i) {
                q.push(i);
            }
            proof {
                assert forall|j: int|
                    target <= j < i + 1 && self.spec_not_ready(j) implies q@.contains(
                    j as usize,
                ) by {
                    if j < i {
                        let k = choose|k: int| 0 <= k < q_before.len() && q_before[k] == j as usize;
                        assert(q@[k] == j as usize);
                    } else {
                        assert(q@[q@.len() - 1] == j as usize);
                    }
                }
            }
            i = i + 1;
        }
        let ghost front = q@;
        let mut j: usize = 0;
        while j < target
            invariant
                0 <= j <= target,
                q@.len() >= front.len(),
                q@.subrange(0, front.len() as int) == front,
                forall|k: int|
                    front.len() <= k < q@.len() ==> #[trigger] q@[k] < j && self.spec_not_ready(
                        q@[k] as int,
                    ),
                forall|k: int, l: int| front.len() <= k < l < q@.len() ==> q@[k] < q@[l],
                forall|jj: int|
                    0 <= jj < j && self.spec_not_ready(jj) ==> q@.contains(jj as usize),
            decreases target - j,
        {
            let ghost q_before = q@;
            if !self.chunk_ready(j) {
                q.push(j);
                proof {
                    assert(q@.subrange(0, front.len() as int) =~= q_before.subrange(
                        0,
                        front.len() as int,
                    ));
                }
            }
            proof {
                assert forall|jj: int|
                    0 <= jj < j + 1 && self.spec_not_ready(jj) implies q@.contains(
                    jj as usize,
                ) by {
                    if jj < j {
                        let k = choose|k: int| 0 <= k < q_before.len() && q_before[k] == jj as usize;
                        assert(q@[k] == jj as usize);
                    } else {
                        assert(q@[q@.len() - 1] == jj as usize);
                    }
                }
            }
            j = j + 1;
        }
        proof {
            let n1 = front.len() as int;
            assert forall|k: int|
                0 <= k < q@.len() implies #[trigger] q@[k] < self.spec_total_chunks()
                && self.spec_not_ready(q@[k] as int) by {
                if k < n1 {
                    assert(q@[k] == front[k]);
                }
            }
            assert forall|i2: int|
                0 <= i2 < self.spec_total_chunks() && self.spec_not_ready(i2) implies q@.contains(
                i2 as usize,
            ) by {
                if i2 >= target {
                    let k = choose|k: int| 0 <= k < front.len() && front[k] == i2 as usize;
                    assert(q@[k] == i2 as usize);
                }
            }
            assert forall|k: int, l: int| 0 <= k < l < q@.len() implies q@[k] != q@[l] by {
                if l < n1 {
                    assert(q@[k] == front[k] && q@[l] == front[l]);
                } else if k >= n1 {
                } else {
                    assert(q@[k] == front[k]);
                    assert(q@[k] >= target && q@[l] < target);
                }
            }
            assert forall|k: int, l: int|
                0 <= k < q@.len() && 0 <= l < q@.len() && q@[k] >= target && q@[l]
                    < target implies k < l by {
                if k >= n1 {
                    assert(q@[k] < target);
                }
                if l < n1 {
                    assert(q@[l] == front[l]);
                    assert(q@[l] >= target);
                }
            }
            assert forall|k: int, l: int|
                0 <= k < l < q@.len() && (q@[k] >= target) == (q@[l] >= target) implies q@[k]
                < q@[l] by {
                if l < n1 {
                    assert(q@[k] == front[k] && q@[l] == front[l]);
                } else if k >= n1 {
                } else {
                    assert(q@[k] == front[k]);
                    assert(q@[k] >= target && q@[l] < target);
                }
            }
        }
        q
    }

    /// Reorder the download queue for a seek into chunk `target`: pending
    /// chunks from the target onwards come first, then the pending chunks
    /// before it; the target becomes the current and the priority chunk.
    /// Returns the new queue.
    pub fn reprioritize(&mut self, target: usize) -> (q: Vec<usize>)
        requires
            old(self).wf(),
            target <= old(self).spec_total_chunks(),
        ensures
            final(self).wf(),
            q@ == final(self).download_queue@,
            forall|k: int|
                0 <= k < q@.len() ==> #[trigger] q@[k] < old(self).spec_total_chunks() && old(
                    self,
                ).spec_not_ready(q@[k] as int),
            forall|k: int, l: int| 0 <= k < l < q@.len() ==> q@[k] != q@[l],
            forall|i: int|
                0 <= i < old(self).spec_total_chunks() && old(self).spec_not_ready(i)
                    ==> q@.contains(i as usize),
            forall|k: int, l: int|
                0 <= k < q@.len() && 0 <= l < q@.len() && q@[k] >= target && q@[l] < target ==> k
                    < l,
            forall|k: int, l: int|
                0 <= k < l < q@.len() && (q@[k] >= target) == (q@[l] >= target) ==> q@[k] < q@[l],
            *final(self) == (ProgressiveStreamState {
                download_queue: final(self).download_queue,
                priority_chunk: Option::Some(target),
                needs_reprioritize: true,
                current_chunk: target,
                ..*old(self)
            }),
    {
        let q = self.build_seek_queue(target);
        let stored = copy_vec(&q);
        self.download_queue = stored;
        self.priority_chunk = Option::Some(target);
        self.needs_reprioritize = true;
        self.current_chunk = target;
        proof {
            assert forall|i: int|
                0 <= i < self.spec_total_chunks() && self.spec_not_ready(i) implies
                self.download_queue@.contains(i as usize) by {
                assert(self.chunks@ == old(self).chunks@);
                assert(old(self).spec_not_ready(i));
                assert(0 <= i < old(self).spec_total_chunks());
                assert(q@.contains(i as usize));
                let k = choose|k: int| 0 <= k < q@.len() && q@[k] == i as usize;
                assert(self.download_queue@[k] == i as usize);
            }
        }
        q
    }

    /// Record that the chunk file for `chunk_index` is on disk at
    /// `file_path`: grow the chunk table with placeholders as needed, fill
    /// the slot, and mark the stream complete when every chunk is ready.
    /// Returns whether the stream is now complete.
    #[verifier::loop_isolation(false)]
    pub fn mark_chunk_ready(&mut self, chunk_index: usize, file_path: String) -> (complete: bool)
        requires
            old(self).wf(),
            chunk_index < old(self).spec_total_chunks(),
        ensures
            final(self).wf(),
            complete == final(self).is_complete,
            final(self).chunks@.len() == if old(self).chunks@.len() > chunk_index + 1 {
                old(self).chunks@.len() as int
            } else {
                chunk_index + 1
            },
            final(self).chunks@[chunk_index as int].is_ready,
            final(self).chunks@[chunk_index as int].file_path == file_path,
            final(self).chunks@[chunk_index as int].chunk_index == chunk_index,
            final(self).chunks@[chunk_index as int].segment_start == old(
                self,
            ).spec_plan().spec_segment_start(chunk_index as int),
            final(self).chunks@[chunk_index as int].segment_end == old(
                self,
            ).spec_plan().spec_segment_end(chunk_index as int),
            final(self).chunks@[chunk_index as int].duration_seconds == (old(
                self,
            ).spec_plan().spec_segment_end(chunk_index as int) - old(
                self,
            ).spec_plan().spec_segment_start(chunk_index as int))
                * crate::chunk_plan::SEGMENT_SECONDS,
            forall|j: int|
                0 <= j < old(self).chunks@.len() && j != chunk_index ==> final(self).chunks@[j]
                    == old(self).chunks@[j],
            forall|j: int|
                old(self).chunks@.len() <= j < final(self).chunks@.len() && j != chunk_index
                    ==> !final(self).chunks@[j].is_ready,
            *final(self) == (ProgressiveStreamState {
                chunks: final(self).chunks,
                is_complete: final(self).is_complete,
                ..*old(self)
            }),
    {
        let range = self.get_chunk_segment_range(chunk_index);
        let span: usize = range.1 - range.0;
        let entry = StreamChunk {
            chunk_index,
            file_path,
            segment_start: range.0,
            segment_end: range.1,
            duration_seconds: (span as u64) * crate::chunk_plan::SEGMENT_SECONDS,
            is_ready: true,
        };
        let total: usize = self.total_chunks();
        while self.chunks.len() <= chunk_index
            invariant
                self.chunks@.len() <= chunk_index + 1 || self.chunks@.len() == old(
                    self,
                ).chunks@.len(),
                chunk_index < self.spec_total_chunks(),
                old(self).chunks@.len() <= self.chunks@.len(),
                forall|j: int|
                    0 <= j < old(self).chunks@.len() ==> self.chunks@[j] == old(self).chunks@[j],
                forall|j: int|
                    old(self).chunks@.len() <= j < self.chunks@.len() ==> #[trigger] self.chunks@[
                        j
                    ].chunk_index == j && !self.chunks@[j].is_ready,
                *self == (ProgressiveStreamState { chunks: self.chunks, ..*old(self) }),
            decreases chunk_index + 1 - self.chunks@.len(),
        {
            let ghost before = self.chunks@;
            let filler = StreamChunk {
                chunk_index: self.chunks.len(),
                file_path: String::new(),
                segment_start: 0,
                segment_end: 0,
                duration_seconds: 0,
                is_ready: false,
            };
            let ghost fl = filler;
            self.chunks.push(filler);
            proof {
                assert(self.chunks@ == before.push(fl));
                assert forall|j: int|
                    old(self).chunks@.len() <= j < self.chunks@.len() implies #[trigger] self.chunks@[
                    j
                ].chunk_index == j && !self.chunks@[j].is_ready by {
                    if j < before.len() {
                        assert(before[j].chunk_index == j);
                        assert(!before[j].is_ready);
                        assert(self.chunks@[j] == before[j]);
                    } else {
                        assert(self.chunks@[j] == fl);
                        assert(fl.chunk_index == before.len());
                    }
                }
            }
        }
        self.chunks.set(chunk_index, entry);
        let all_ready = self.all_chunks_ready_upto(total);
        self.is_complete = all_ready;
        proof {
            assert forall|j: int|
                old(self).chunks@.len() <= j < self.chunks@.len() && j
                    != chunk_index implies !self.chunks@[j].is_ready by {
                assert(self.chunks@[j].chunk_index == j);
            }
            assert forall|i: int|
                0 <= i < self.spec_total_chunks() && self.spec_not_ready(i) implies
                self.download_queue@.contains(i as usize) by {
                assert(old(self).spec_not_ready(i));
                assert(old(self).download_queue@.contains(i as usize));
                let k = choose|k: int|
                    0 <= k < old(self).download_queue@.len() && old(self).download_queue@[k]
                        == i as usize;
                assert(self.download_queue@[k] == i as usize);
            }
        }
        all_ready
    }

    /// Whether the chunk table holds `total` entries, all ready.
    #[verifier::loop_isolation(false)]
    fn all_chunks_ready_upto(&self, total: usize) -> (r: bool)
        ensures
            r == (self.chunks@.len() == total && forall|i: int|
                0 <= i < self.chunks@.len() ==> #[trigger] self.chunks@[i].is_ready),
    {
        if self.chunks.len() != total {
            return false;
        }
        let mut i: usize = 0;
        while i < self.chunks.len()
            invariant
                0 <= i <= self.chunks@.len(),
                forall|j: int| 0 <= j < i ==> #[trigger] self.chunks@[j].is_ready,
            decreases self.chunks@.len() - i,
        {
            if !self.chunks[i].is_ready {
                return false;
            }
            i = i + 1;
        }
        true
    }

    /// Move the player's bookkeeping to the next chunk.  The counter stops
    /// at the chunk count, so it can say "past the last chunk" but no more.
    pub fn advance(&mut self)
        requires
            old(self).wf(),
        ensures
            final(self).wf(),
            final(self).current_chunk == if old(self).current_chunk + 1 <= old(
                self,
            ).spec_total_chunks() {
                old(self).current_chunk + 1
            } else {
                old(self).current_chunk as int
            },
            *final(self) == (ProgressiveStreamState {
                current_chunk: final(self).current_chunk,
                ..*old(self)
            }),
    {
        let total: usize = self.total_chunks();
        if self.current_chunk < total {
            self.current_chunk = self.current_chunk + 1;
        }
        proof {
            assert forall|i: int|
                0 <= i < self.spec_total_chunks() && self.spec_not_ready(i) implies
                self.download_queue@.contains(i as usize) by {
                assert(old(self).spec_not_ready(i));
                assert(old(self).download_queue@.contains(i as usize));
            }
        }
    }
}

/// A copy of a vector of copyable values.
fn copy_vec<T: Copy>(v: &Vec<T>) -> (r: Vec<T>)
    ensures
        r@ == v@,
{
    let mut out: Vec<T> = Vec::new();
    let mut i: usize = 0;
    while i < v.len()
        invariant
            0 <= i <= v@.len(),
            out@ == v@.subrange(0, i as int),
        decreases v@.len() - i,
    {
        out.push(v[i]);
        proof {
            assert(out@ =~= v@.subrange(0, i + 1));
        }
        i = i + 1;
    }
    proof {
        assert(v@.subrange(0, v@.len() as int) =~= v@);
    }
    out
}

/// Number of ready chunks in the table.
pub open spec fn spec_ready_count(chunks: Seq<StreamChunk>) -> nat
    decreases chunks.len(),
{
    if chunks.len() == 0 {
        0
    } else {
        spec_ready_count(chunks.drop_last()) + if chunks.last().is_ready {
            1nat
        } else {
            0nat
        }
    }
}

/// The file paths of the ready chunks, in chunk order.
pub open spec fn spec_ready_paths(chunks: Seq<StreamChunk>) -> Seq<Seq<char>>
    decreases chunks.len(),
{
    if chunks.len() == 0 {
        Seq::empty()
    } else {
        spec_ready_paths(chunks.drop_last()) + if chunks.last().is_ready {
            seq![chunks.last().file_path@]
        } else {
            Seq::empty()
        }
    }
}

/// Answer to "which chunk comes next, and is it playable yet": mirrors what
/// the player needs after finishing a chunk.
#[derive(Debug, Clone, PartialEq, Eq)]
pub struct NextChunkResult {
    /// Path of the chunk file, when it is ready.
    pub chunk_path: Option<String>,
    /// Index of the chunk this answer is about.
    pub chunk_index: usize,
    /// Whether that index is at or past the last chunk.
    pub is_last: bool,
    /// Whether the chunk file is on disk.
    pub is_ready: bool,
}

/// Result of a whole-track download operation.
#[derive(Debug, Clone, PartialEq, Eq)]
pub struct DownloadResult {
    /// Whether the download produced a file.
    pub success: bool,
    /// Path of the downloaded file.
    pub file_path: Option<String>,
    /// Diagnostic when the download failed.
    pub error: Option<String>,
    /// Which service the audio came from.
    pub source: String,
    /// Container format of the file.
    pub format: String,
    /// Declared sample rate, if known.
    pub sample_rate: Option<u32>,
    /// Declared bit depth, if known.
    pub bit_depth: Option<u32>,
}

/// Result of starting a progressive stream.
#[derive(Debug, Clone, PartialEq, Eq)]
pub struct ProgressiveStreamResult {
    /// Whether the stream started.
    pub success: bool,
    /// Path of the first chunk's file, ready to play.
    pub first_chunk_path: Option<String>,
    /// Number of chunks the stream will have.
    pub total_chunks: usize,
    /// Diagnostic when starting failed.
    pub error: Option<String>,
    /// Which service the audio comes from.
    pub source: String,
    /// Container format of the final file.
    pub format: String,
    /// Declared sample rate, if known.
    pub sample_rate: Option<u32>,
    /// Declared bit depth, if known.
    pub bit_depth: Option<u32>,
}

/// Everything a fetch worker needs to download one chunk, snapshotted from
/// the stream state: the init bytes, the segment URLs of the chunk's range,
/// and the file names to write.
#[derive(Debug, Clone, PartialEq, Eq)]
pub struct ChunkJob {
    /// Index of the chunk to fetch.
    pub chunk_index: usize,
    /// First segment (inclusive) of the chunk.
    pub start_segment: usize,
    /// Last segment (exclusive) of the chunk.
    pub end_segment: usize,
    /// Init segment bytes that open the chunk file.
    pub init_segment: Vec<u8>,
    /// URLs of the chunk's media segments, in order.
    pub segment_urls: Vec<Vec<u8>>,
    /// Name to write the file under while it is incomplete.
    pub temp_file_name: String,
    /// Name the finished chunk file gets.
    pub file_name: String,
}

/// `{track_id}_{chunk_index}.m4a`, the name of a finished chunk file.
pub fn chunk_file_name(track_id: &str, chunk_index: usize) -> (r: String)
    ensures
        r@ == track_id@ + "_"@ + dec_chars(chunk_index as nat) + ".m4a"@,
{
    let mut s = track_id.to_owned();
    s.append("_");
    let digits = u64_to_string(chunk_index as u64);
    s.append(digits.as_str());
    s.append(".m4a");
    s
}

/// `{track_id}_{chunk_index}.m4a.tmp`, the name a chunk file carries while
/// its segments are still being written.
pub fn chunk_temp_file_name(track_id: &str, chunk_index: usize) -> (r: String)
    ensures
        r@ == track_id@ + "_"@ + dec_chars(chunk_index as nat) + ".m4a"@ + ".tmp"@,
{
    let mut s = chunk_file_name(track_id, chunk_index);
    s.append(".tmp");
    s
}

impl ProgressiveStreamState {
    /// Build the state for a freshly parsed manifest: one media URL per
    /// segment (numbered from one), an empty chunk table, and a download
    /// queue holding every chunk in ascending order.
    #[verifier::loop_isolation(false)]
    pub fn new_stream(
        track_id: String,
        m: DashManifest,
        init_segment: Vec<u8>,
        sample_rate: Option<u32>,
        bit_depth: Option<u32>,
        track_name: Option<String>,
        artist_name: Option<String>,
        album_name: Option<String>,
    ) -> (s: ProgressiveStreamState)
        requires
            1 <= m.total_segments <= crate::manifest::SEGMENT_CAP,
        ensures
            s.wf(),
            s.track_id == track_id,
            s.total_segments == m.total_segments,
            s.first_chunk_segments == FIRST_CHUNK_SEGMENTS,
            s.segments_per_chunk == REGULAR_CHUNK_SEGMENTS,
            s.chunks@.len() == 0,
            s.init_segment == Option::Some(init_segment),
            s.media_urls@.len() == m.total_segments,
            forall|i: int|
                0 <= i < m.total_segments ==> #[trigger] s.media_urls@[i]@ == spec_media_url(
                    m.media_template@,
                    (i + 1) as nat,
                ),
            s.current_chunk == 0,
            !s.is_complete,
            s.sample_rate == sample_rate,
            s.bit_depth == bit_depth,
            s.track_name == track_name,
            s.artist_name == artist_name,
            s.album_name == album_name,
            s.priority_chunk is None,
            !s.needs_reprioritize,
            s.download_queue@.len() == s.spec_total_chunks(),
            forall|k: int| 0 <= k < s.download_queue@.len() ==> #[trigger] s.download_queue@[k] == k,
    {
        let total_segments = m.total_segments;
        let mut media_urls: Vec<Vec<u8>> = Vec::new();
        let mut i: usize = 0;
        while i < total_segments
            invariant
                0 <= i <= total_segments,
                media_urls@.len() == i,
                forall|k: int|
                    0 <= k < i ==> #[trigger] media_urls@[k]@ == spec_media_url(
                        m.media_template@,
                        (k + 1) as nat,
                    ),
            decreases total_segments - i,
        {
            let url = crate::manifest::media_url_bytes(&m.media_template, (i as u64) + 1);
            media_urls.push(url);
            i = i + 1;
        }
        let plan = ChunkPlan {
            total_segments,
            first_chunk_segments: FIRST_CHUNK_SEGMENTS,
            regular_chunk_segments: REGULAR_CHUNK_SEGMENTS,
        };
        proof {
            assert(total_segments * 4 <= usize::MAX);
        }
        let total_chunks = plan.total_chunks();
        let mut download_queue: Vec<usize> = Vec::new();
        let mut c: usize = 0;
        while c < total_chunks
            invariant
                0 <= c <= total_chunks,
                download_queue@.len() == c,
                forall|k: int| 0 <= k < c ==> #[trigger] download_queue@[k] == k,
            decreases total_chunks - c,
        {
            download_queue.push(c);
            c = c + 1;
        }
        let s = ProgressiveStreamState {
            track_id,
            total_segments,
            segments_per_chunk: REGULAR_CHUNK_SEGMENTS,
            first_chunk_segments: FIRST_CHUNK_SEGMENTS,
            chunks: Vec::new(),
            init_segment: Option::Some(init_segment),
            media_urls,
            current_chunk: 0,
            is_complete: false,
            sample_rate,
            bit_depth,
            track_name,
            artist_name,
            album_name,
            priority_chunk: Option::None,
            download_queue,
            needs_reprioritize: false,
        };
        proof {
            assert forall|i2: int|
                0 <= i2 < s.spec_total_chunks() && s.spec_not_ready(i2) implies
                s.download_queue@.contains(i2 as usize) by {
                assert(s.download_queue@[i2] == i2 as usize);
            }
        }
        s
    }

    /// What the player should do about the chunk after the current one:
    /// nothing past the end, play it when ready, or download it first.
    pub fn next_chunk_decision(&self) -> (r: NextChunkResult)
        requires
            self.wf(),
        ensures
            r.chunk_index == self.current_chunk + 1,
            self.current_chunk + 1 >= self.spec_total_chunks() ==> r.chunk_path is None
                && r.is_last && !r.is_ready,
            self.current_chunk + 1 < self.spec_total_chunks() ==> {
                &&& r.is_last == (self.current_chunk + 1 == self.spec_total_chunks() - 1)
                &&& r.is_ready == !self.spec_not_ready(self.current_chunk + 1)
                &&& (r.is_ready ==> (r.chunk_path matches Option::Some(p) && p@ == self.chunks@[
                    self.current_chunk + 1
                ].file_path@))
                &&& (!r.is_ready ==> r.chunk_path is None)
            },
    {
        let total = self.total_chunks();
        let next = self.current_chunk + 1;
        if next >= total {
            NextChunkResult { chunk_path: Option::None, chunk_index: next, is_last: true, is_ready: false }
        } else if self.chunk_ready(next) {
            NextChunkResult {
                chunk_path: Option::Some(self.chunks[next].file_path.clone()),
                chunk_index: next,
                is_last: next == total - 1,
                is_ready: true,
            }
        } else {
            NextChunkResult {
                chunk_path: Option::None,
                chunk_index: next,
                is_last: next == total - 1,
                is_ready: false,
            }
        }
    }

    /// The current chunk's path, when it is ready.
    pub fn current_chunk_info(&self) -> (r: NextChunkResult)
        requires
            self.wf(),
        ensures
            r.chunk_index == self.current_chunk,
            r.is_last == (self.current_chunk == self.spec_total_chunks() - 1),
            r.is_ready == !self.spec_not_ready(self.current_chunk as int),
            r.is_ready ==> (r.chunk_path matches Option::Some(p) && p@ == self.chunks@[self.current_chunk as int].file_path@),
            !r.is_ready ==> r.chunk_path is None,
    {
        let total = self.total_chunks();
        let current = self.current_chunk;
        if self.chunk_ready(current) {
            NextChunkResult {
                chunk_path: Option::Some(self.chunks[current].file_path.clone()),
                chunk_index: current,
                is_last: current == total - 1,
                is_ready: true,
            }
        } else {
            NextChunkResult {
                chunk_path: Option::None,
                chunk_index: current,
                is_last: current == total - 1,
                is_ready: false,
            }
        }
    }

    /// Whether the queue entry at position `k` is one a worker may take:
    /// still pending and not held by another worker.
    pub open spec fn spec_queue_eligible(self, taken: Seq<usize>, k: int) -> bool {
        self.spec_not_ready(self.download_queue@[k] as int) && !taken.contains(
            self.download_queue@[k],
        )
    }

    /// Earliest queue position at or after `k` whose chunk is pending and
    /// not in `taken`.
    pub open spec fn spec_first_eligible_from(self, taken: Seq<usize>, k: int) -> Option<int>
        decreases self.download_queue@.len() + 1 - k,
    {
        if k < 0 || k >= self.download_queue@.len() {
            Option::None
        } else if self.spec_queue_eligible(taken, k) {
            Option::Some(k)
        } else {
            self.spec_first_eligible_from(taken, k + 1)
        }
    }

    /// Earliest queue position at or after `k` whose chunk is pending.
    pub open spec fn spec_first_pending_from(self, k: int) -> Option<int>
        decreases self.download_queue@.len() + 1 - k,
    {
        if k < 0 || k >= self.download_queue@.len() {
            Option::None
        } else if self.spec_not_ready(self.download_queue@[k] as int) {
            Option::Some(k)
        } else {
            self.spec_first_pending_from(k + 1)
        }
    }

    /// With nothing taken, the first eligible queue position is simply the
    /// first pending one.
    pub proof fn lemma_first_eligible_unfiltered(self, taken: Seq<usize>, k: int)
        requires
            taken.len() == 0,
            k >= 0,
        ensures
            self.spec_first_eligible_from(taken, k) == self.spec_first_pending_from(k),
        decreases self.download_queue@.len() + 1 - k,
    {
        if k < self.download_queue@.len() {
            assert(!taken.contains(self.download_queue@[k]));
            self.lemma_first_eligible_unfiltered(taken, k + 1);
        }
    }

    /// The chunk at the earliest download-queue position that is still
    /// pending and not in `taken` (chunks another worker is fetching): the
    /// queue's priority order decides the pick.
    #[verifier::loop_isolation(false)]
    pub fn next_pending_chunk(&self, taken: &Vec<usize>) -> (r: Option<usize>)
        ensures
            (r is Some) == (self.spec_first_eligible_from(taken@, 0) is Some),
            r matches Option::Some(i) ==> i == self.download_queue@[self.spec_first_eligible_from(
                taken@,
                0,
            )->0],
    {
        let mut k: usize = 0;
        while k < self.download_queue.len()
            invariant
                0 <= k <= self.download_queue@.len(),
                self.spec_first_eligible_from(taken@, 0) == self.spec_first_eligible_from(
                    taken@,
                    k as int,
                ),
            decreases self.download_queue@.len() - k,
        {
            let idx = self.download_queue[k];
            if !self.chunk_ready(idx) && !vec_contains(taken, idx) {
                proof {
                    assert(self.spec_queue_eligible(taken@, k as int));
                }
                return Option::Some(idx);
            }
            proof {
                assert(!self.spec_queue_eligible(taken@, k as int));
            }
            k = k + 1;
        }
        Option::None
    }

    /// Number of ready chunks.
    #[verifier::loop_isolation(false)]
    pub fn ready_count(&self) -> (n: usize)
        ensures
            n == spec_ready_count(self.chunks@),
    {
        let mut n: usize = 0;
        let mut i: usize = 0;
        while i < self.chunks.len()
            invariant
                0 <= i <= self.chunks@.len(),
                n == spec_ready_count(self.chunks@.subrange(0, i as int)),
                n <= i,
            decreases self.chunks@.len() - i,
        {
            proof {
                assert(self.chunks@.subrange(0, i + 1).drop_last() =~= self.chunks@.subrange(
                    0,
                    i as int,
                ));
                assert(self.chunks@.subrange(0, i + 1).last() == self.chunks@[i as int]);
            }
            if self.chunks[i].is_ready {
                n = n + 1;
            }
            i = i + 1;
        }
        proof {
            assert(self.chunks@.subrange(0, self.chunks@.len() as int) =~= self.chunks@);
        }
        n
    }

    /// The file paths of the ready chunks, in chunk order.
    #[verifier::loop_isolation(false)]
    pub fn ready_paths(&self) -> (r: Vec<String>)
        ensures
            r.deep_view() == spec_ready_paths(self.chunks@),
    {
        let mut out: Vec<String> = Vec::new();
        let mut i: usize = 0;
        while i < self.chunks.len()
            invariant
                0 <= i <= self.chunks@.len(),
                out.deep_view() == spec_ready_paths(self.chunks@.subrange(0, i as int)),
            decreases self.chunks@.len() - i,
        {
            proof {
                assert(self.chunks@.subrange(0, i + 1).drop_last() =~= self.chunks@.subrange(
                    0,
                    i as int,
                ));
                assert(self.chunks@.subrange(0, i + 1).last() == self.chunks@[i as int]);
            }
            let ghost before = out.deep_view();
            if self.chunks[i].is_ready {
                out.push(self.chunks[i].file_path.clone());
                proof {
                    assert(out.deep_view() =~= before + seq![self.chunks@[i as int].file_path@]);
                }
            } else {
                proof {
                    assert(spec_ready_paths(self.chunks@.subrange(0, i + 1)) =~= before);
                }
            }
            i = i + 1;
        }
        proof {
            assert(self.chunks@.subrange(0, self.chunks@.len() as int) =~= self.chunks@);
        }
        out
    }
}

/// Whether `v` holds `x`.
#[verifier::loop_isolation(false)]
fn vec_contains(v: &Vec<usize>, x: usize) -> (r: bool)
    ensures
        r == v@.contains(x),
{
    let mut i: usize = 0;
    while i < v.len()
        invariant
            0 <= i <= v@.len(),
            forall|j: int| 0 <= j < i ==> v@[j] != x,
        decreases v@.len() - i,
    {
        if v[i] == x {
            return true;
        }
        i = i + 1;
    }
    false
}

/// The set of active progressive streams, keyed by track id.
pub struct StreamRegistry {
    /// The active streams; each track id appears at most once.
    pub streams: Vec<ProgressiveStreamState>,
}

impl StreamRegistry {
    /// Index of the stream registered under `track_id`.
    pub open spec fn spec_find(self, track_id: Seq<char>) -> Option<int> {
        spec_find_from(self.streams@, track_id, 0)
    }

    /// Whether a stream is registered under `track_id`.
    pub open spec fn spec_has(self, track_id: Seq<char>) -> bool {
        self.spec_find(track_id) is Some
    }

    /// Every stream is well formed and ids are unique.
    pub open spec fn wf(self) -> bool {
        &&& forall|i: int| 0 <= i < self.streams@.len() ==> #[trigger] self.streams@[i].wf()
        &&& forall|i: int, j: int|
            0 <= i < j < self.streams@.len() ==> #[trigger] self.streams@[i].track_id@
                != #[trigger] self.streams@[j].track_id@
    }

    /// An empty registry.
    pub fn new() -> (r: StreamRegistry)
        ensures
            r.wf(),
            r.streams@.len() == 0,
    {
        StreamRegistry { streams: Vec::new() }
    }

    /// Find the index of the stream registered under `track_id`.
    #[verifier::loop_isolation(false)]
    pub fn find_index(&self, track_id: &str) -> (r: Option<usize>)
        ensures
            match r {
                Option::Some(i) => self.spec_find(track_id@) == Option::<int>::Some(i as int),
                Option::None => self.spec_find(track_id@) is None,
            },
    {
        let mut i: usize = 0;
        while i < self.streams.len()
            invariant
                0 <= i <= self.streams@.len(),
                spec_find_from(self.streams@, track_id@, 0) == spec_find_from(
                    self.streams@,
                    track_id@,
                    i as int,
                ),
            decreases self.streams@.len() - i,
        {
            if str_eq(self.streams[i].track_id.as_str(), track_id) {
                return Option::Some(i);
            }
            i = i + 1;
        }
        Option::None
    }

    /// Whether a progressive stream is active for the track.
    pub fn has_active_stream(&self, track_id: &str) -> (r: bool)
        ensures
            r == self.spec_has(track_id@),
    {
        match self.find_index(track_id) {
            Option::Some(_) => true,
            Option::None => false,
        }
    }
}

/// Index of the first stream at or after `from` whose id is `track_id`.
pub open spec fn spec_find_from(
    streams: Seq<ProgressiveStreamState>,
    track_id: Seq<char>,
    from: int,
) -> Option<int>
    decreases streams.len() + 1 - from,
{
    if from < 0 || from >= streams.len() {
        Option::None
    } else if streams[from].track_id@ == track_id {
        Option::Some(from)
    } else {
        spec_find_from(streams, track_id, from + 1)
    }
}

/// The found stream's id matches and earlier ids differ.
pub proof fn lemma_find_from_some(
    streams: Seq<ProgressiveStreamState>,
    track_id: Seq<char>,
    from: int,
    i: int,
)
    requires
        spec_find_from(streams, track_id, from) == Option::<int>::Some(i),
    ensures
        from <= i < streams.len(),
        streams[i].track_id@ == track_id,
        forall|j: int| from <= j < i ==> #[trigger] streams[j].track_id@ != track_id,
    decreases streams.len() + 1 - from,
{
    if !(from < 0 || from >= streams.len()) {
        if streams[from].track_id@ == track_id {
        } else {
            lemma_find_from_some(streams, track_id, from + 1, i);
        }
    }
}

/// When the id is not found, no stream carries it.
pub proof fn lemma_find_from_none(
    streams: Seq<ProgressiveStreamState>,
    track_id: Seq<char>,
    from: int,
)
    requires
        from >= 0,
        spec_find_from(streams, track_id, from) is None,
    ensures
        forall|j: int| from <= j < streams.len() ==> #[trigger] streams[j].track_id@ != track_id,
    decreases streams.len() + 1 - from,
{
    if from < streams.len() {
        lemma_find_from_none(streams, track_id, from + 1);
    }
}

/// A stream whose id matches, with no match before it, is what the search
/// finds.
pub proof fn lemma_find_from_exact(
    streams: Seq<ProgressiveStreamState>,
    track_id: Seq<char>,
    from: int,
    i: int,
)
    requires
        0 <= from <= i < streams.len(),
        streams[i].track_id@ == track_id,
        forall|j: int| from <= j < i ==> #[trigger] streams[j].track_id@ != track_id,
    ensures
        spec_find_from(streams, track_id, from) == Option::<int>::Some(i),
    decreases streams.len() + 1 - from,
{
    if from < i {
        lemma_find_from_exact(streams, track_id, from + 1, i);
    }
}


impl StreamRegistry {
    /// The stream registered under `track_id`.
    pub open spec fn spec_stream(self, track_id: Seq<char>) -> ProgressiveStreamState
        recommends
            self.spec_has(track_id),
    {
        self.streams@[self.spec_find(track_id)->Some_0]
    }

    /// Register a stream, replacing any stream already held under its id.
    pub fn register(&mut self, state: ProgressiveStreamState)
        requires
            old(self).wf(),
            state.wf(),
        ensures
            final(self).wf(),
            final(self).spec_has(state.track_id@),
            final(self).spec_stream(state.track_id@) == state,
            match old(self).spec_find(state.track_id@) {
                Option::Some(i) => final(self).streams@ == old(self).streams@.update(i, state),
                Option::None => final(self).streams@ == old(self).streams@.push(state),
            },
    {
        let found = self.find_index(state.track_id.as_str());
        match found {
            Option::Some(i) => {
                proof {
                    lemma_find_from_some(self.streams@, state.track_id@, 0, i as int);
                }
                self.streams.set(i, state);
                proof {
                    let ghost id = self.streams@[i as int].track_id@;
                    lemma_find_from_exact(self.streams@, id, 0, i as int);
                }
            },
            Option::None => {
                proof {
                    lemma_find_from_none(self.streams@, state.track_id@, 0);
                }
                self.streams.push(state);
                proof {
                    let ghost n = self.streams@.len() - 1;
                    lemma_find_from_exact(self.streams@, self.streams@[n].track_id@, 0, n);
                }
            },
        }
    }

    /// Remove the stream, if one is registered, and hand back the file
    /// paths of its ready chunks for the caller to delete.  Cleaning up a
    /// track with no registered stream succeeds with no paths, so cleanup
    /// is idempotent and the caller can always sweep leftover files.
    pub fn cleanup_stream(&mut self, track_id: &str) -> (paths: Vec<String>)
        requires
            old(self).wf(),
        ensures
            final(self).wf(),
            !final(self).spec_has(track_id@),
            old(self).spec_has(track_id@) ==> {
                &&& paths.deep_view() == spec_ready_paths(
                    old(self).spec_stream(track_id@).chunks@,
                )
                &&& final(self).streams@ == old(self).streams@.remove(
                    old(self).spec_find(track_id@)->Some_0,
                )
            },
            !old(self).spec_has(track_id@) ==> {
                &&& paths@.len() == 0
                &&& *final(self) == *old(self)
            },
    {
        let found = self.find_index(track_id);
        match found {
            Option::Some(i) => {
                proof {
                    lemma_find_from_some(self.streams@, track_id@, 0, i as int);
                }
                let paths = self.streams[i].ready_paths();
                let removed = self.streams.remove(i);
                proof {
                    assert forall|j: int, k: int|
                        0 <= j < k < self.streams@.len() implies #[trigger] self.streams@[
                        j
                    ].track_id@ != #[trigger] self.streams@[k].track_id@ by {
                        if k < i {
                        } else if j < i {
                            assert(self.streams@[k] == old(self).streams@[k + 1]);
                        } else {
                            assert(self.streams@[j] == old(self).streams@[j + 1]);
                            assert(self.streams@[k] == old(self).streams@[k + 1]);
                        }
                    }
                    assert forall|j: int|
                        0 <= j < self.streams@.len() implies #[trigger] self.streams@[
                        j
                    ].track_id@ != track_id@ by {
                        if j < i {
                        } else {
                            assert(self.streams@[j] == old(self).streams@[j + 1]);
                        }
                    }
                    if self.spec_find(track_id@) is Some {
                        let x = self.spec_find(track_id@)->Some_0;
                        lemma_find_from_some(self.streams@, track_id@, 0, x);
                    }
                }
                paths
            },
            Option::None => Vec::new(),
        }
    }

    /// Whether a specific chunk of the track's stream is ready to play.
    /// `false` when no stream is registered for the track.
    pub fn is_chunk_ready(&self, track_id: &str, chunk_index: usize) -> (r: bool)
        requires
            self.wf(),
        ensures
            r == (self.spec_has(track_id@) && !self.spec_stream(track_id@).spec_not_ready(
                chunk_index as int,
            )),
    {
        match self.find_index(track_id) {
            Option::Some(i) => {
                proof {
                    lemma_find_from_some(self.streams@, track_id@, 0, i as int);
                }
                self.streams[i].chunk_ready(chunk_index)
            },
            Option::None => false,
        }
    }

    /// Total number of chunks of the track's stream.
    pub fn get_total_chunks(&self, track_id: &str) -> (r: Result<usize, StreamError>)
        requires
            self.wf(),
        ensures
            match r {
                Result::Ok(n) => self.spec_has(track_id@) && n == self.spec_stream(
                    track_id@,
                ).spec_total_chunks(),
                Result::Err(e) => e == StreamError::NoActiveStream && !self.spec_has(track_id@),
            },
    {
        match self.find_index(track_id) {
            Option::Some(i) => {
                proof {
                    lemma_find_from_some(self.streams@, track_id@, 0, i as int);
                }
                Result::Ok(self.streams[i].total_chunks())
            },
            Option::None => Result::Err(StreamError::NoActiveStream),
        }
    }

    /// The ready chunk file path at `chunk_index`, `Ok(None)` when the chunk
    /// is pending or past the table.
    pub fn get_chunk_by_index(&self, track_id: &str, chunk_index: usize) -> (r: Result<
        Option<String>,
        StreamError,
    >)
        requires
            self.wf(),
        ensures
            match r {
                Result::Ok(p) => {
                    &&& self.spec_has(track_id@)
                    &&& (p matches Option::Some(path) ==> !self.spec_stream(
                        track_id@,
                    ).spec_not_ready(chunk_index as int) && path@ == self.spec_stream(
                        track_id@,
                    ).chunks@[chunk_index as int].file_path@)
                    &&& (p is None ==> self.spec_stream(track_id@).spec_not_ready(
                        chunk_index as int,
                    ))
                },
                Result::Err(e) => e == StreamError::NoActiveStream && !self.spec_has(track_id@),
            },
    {
        match self.find_index(track_id) {
            Option::Some(i) => {
                proof {
                    lemma_find_from_some(self.streams@, track_id@, 0, i as int);
                }
                let st = &self.streams[i];
                if st.chunk_ready(chunk_index) {
                    Result::Ok(Option::Some(st.chunks[chunk_index].file_path.clone()))
                } else {
                    Result::Ok(Option::None)
                }
            },
            Option::None => Result::Err(StreamError::NoActiveStream),
        }
    }

    /// `(downloaded, total, complete)` for the track's stream.
    pub fn get_stream_progress(&self, track_id: &str) -> (r: Option<(usize, usize, bool)>)
        requires
            self.wf(),
        ensures
            match r {
                Option::Some(p) => {
                    &&& self.spec_has(track_id@)
                    &&& p.0 == spec_ready_count(self.spec_stream(track_id@).chunks@)
                    &&& p.1 == self.spec_stream(track_id@).spec_total_chunks()
                    &&& p.2 == self.spec_stream(track_id@).is_complete
                },
                Option::None => !self.spec_has(track_id@),
            },
    {
        match self.find_index(track_id) {
            Option::Some(i) => {
                proof {
                    lemma_find_from_some(self.streams@, track_id@, 0, i as int);
                }
                let st = &self.streams[i];
                Option::Some((st.ready_count(), st.total_chunks(), st.is_complete))
            },
            Option::None => Option::None,
        }
    }

    /// The chunk that covers playback position `seconds`.
    pub fn get_chunk_for_position(&self, track_id: &str, seconds: u64) -> (r: Result<
        usize,
        StreamError,
    >)
        requires
            self.wf(),
        ensures
            match r {
                Result::Ok(i) => self.spec_has(track_id@) && i == self.spec_stream(
                    track_id@,
                ).spec_plan().spec_chunk_for_position(seconds as int),
                Result::Err(e) => e == StreamError::NoActiveStream && !self.spec_has(track_id@),
            },
    {
        match self.find_index(track_id) {
            Option::Some(i) => {
                proof {
                    lemma_find_from_some(self.streams@, track_id@, 0, i as int);
                    assert(self.streams@[i as int].wf());
                }
                Result::Ok(self.streams[i].plan().chunk_for_position(seconds))
            },
            Option::None => Result::Err(StreamError::NoActiveStream),
        }
    }

    /// Nominal duration of a regular chunk, in seconds.
    pub fn get_chunk_duration_seconds(&self, track_id: &str) -> (r: Result<u64, StreamError>)
        requires
            self.wf(),
        ensures
            match r {
                Result::Ok(d) => self.spec_has(track_id@) && d == self.spec_stream(
                    track_id@,
                ).segments_per_chunk * crate::chunk_plan::SEGMENT_SECONDS,
                Result::Err(e) => e == StreamError::NoActiveStream && !self.spec_has(track_id@),
            },
    {
        match self.find_index(track_id) {
            Option::Some(i) => {
                proof {
                    lemma_find_from_some(self.streams@, track_id@, 0, i as int);
                }
                let st = &self.streams[i];
                proof {
                    assert(st.wf());
                }
                Result::Ok((st.segments_per_chunk as u64) * crate::chunk_plan::SEGMENT_SECONDS)
            },
            Option::None => Result::Err(StreamError::NoActiveStream),
        }
    }

    /// Nominal duration of one specific chunk, in seconds.
    pub fn get_specific_chunk_duration(&self, track_id: &str, chunk_index: usize) -> (r: Result<
        u64,
        StreamError,
    >)
        requires
            self.wf(),
        ensures
            match r {
                Result::Ok(d) => {
                    &&& self.spec_has(track_id@)
                    &&& chunk_index < self.spec_stream(track_id@).spec_total_chunks()
                    &&& d == (self.spec_stream(track_id@).spec_plan().spec_segment_end(
                        chunk_index as int,
                    ) - self.spec_stream(track_id@).spec_plan().spec_segment_start(
                        chunk_index as int,
                    )) * crate::chunk_plan::SEGMENT_SECONDS
                },
                Result::Err(e) => {
                    ||| (e == StreamError::NoActiveStream && !self.spec_has(track_id@))
                    ||| (e == StreamError::ChunkOutOfRange && self.spec_has(track_id@)
                        && chunk_index >= self.spec_stream(track_id@).spec_total_chunks())
                },
            },
    {
        match self.find_index(track_id) {
            Option::Some(i) => {
                proof {
                    lemma_find_from_some(self.streams@, track_id@, 0, i as int);
                }
                let st = &self.streams[i];
                if chunk_index >= st.total_chunks() {
                    return Result::Err(StreamError::ChunkOutOfRange);
                }
                let range = st.get_chunk_segment_range(chunk_index);
                proof {
                    assert(st.wf());
                }
                Result::Ok(((range.1 - range.0) as u64) * crate::chunk_plan::SEGMENT_SECONDS)
            },
            Option::None => Result::Err(StreamError::NoActiveStream),
        }
    }

    /// The current chunk's path and status.
    pub fn get_current_chunk(&self, track_id: &str) -> (r: Result<NextChunkResult, StreamError>)
        requires
            self.wf(),
        ensures
            match r {
                Result::Ok(rc) => {
                    &&& self.spec_has(track_id@)
                    &&& rc.chunk_index == self.spec_stream(track_id@).current_chunk
                    &&& rc.is_last == (self.spec_stream(track_id@).current_chunk
                        == self.spec_stream(track_id@).spec_total_chunks() - 1)
                    &&& rc.is_ready == !self.spec_stream(track_id@).spec_not_ready(
                        self.spec_stream(track_id@).current_chunk as int,
                    )
                    &&& (rc.is_ready ==> (rc.chunk_path matches Option::Some(p) && p@
                        == self.spec_stream(track_id@).chunks@[self.spec_stream(
                        track_id@,
                    ).current_chunk as int].file_path@))
                    &&& (!rc.is_ready ==> rc.chunk_path is None)
                },
                Result::Err(e) => e == StreamError::NoActiveStream && !self.spec_has(track_id@),
            },
    {
        match self.find_index(track_id) {
            Option::Some(i) => {
                proof {
                    lemma_find_from_some(self.streams@, track_id@, 0, i as int);
                }
                Result::Ok(self.streams[i].current_chunk_info())
            },
            Option::None => Result::Err(StreamError::NoActiveStream),
        }
    }

    /// Status of the chunk after the current one: past the end, ready with
    /// its path, or waiting to be downloaded.
    pub fn download_next_chunk(&self, track_id: &str) -> (r: Result<NextChunkResult, StreamError>)
        requires
            self.wf(),
        ensures
            match r {
                Result::Ok(rc) => {
                    &&& self.spec_has(track_id@)
                    &&& rc.chunk_index == self.spec_stream(track_id@).current_chunk + 1
                    &&& (self.spec_stream(track_id@).current_chunk + 1 >= self.spec_stream(
                        track_id@,
                    ).spec_total_chunks() ==> rc.is_last && !rc.is_ready && rc.chunk_path is None)
                    &&& (self.spec_stream(track_id@).current_chunk + 1 < self.spec_stream(
                        track_id@,
                    ).spec_total_chunks() ==> rc.is_ready == !self.spec_stream(
                        track_id@,
                    ).spec_not_ready(self.spec_stream(track_id@).current_chunk + 1))
                    &&& (self.spec_stream(track_id@).current_chunk + 1 < self.spec_stream(
                        track_id@,
                    ).spec_total_chunks() ==> rc.is_last == (self.spec_stream(
                        track_id@,
                    ).current_chunk + 1 == self.spec_stream(track_id@).spec_total_chunks() - 1))
                    &&& (rc.is_ready ==> (rc.chunk_path matches Option::Some(p) && p@
                        == self.spec_stream(track_id@).chunks@[self.spec_stream(
                        track_id@,
                    ).current_chunk + 1].file_path@))
                    &&& (!rc.is_ready ==> rc.chunk_path is None)
                },
                Result::Err(e) => e == StreamError::NoActiveStream && !self.spec_has(track_id@),
            },
    {
        match self.find_index(track_id) {
            Option::Some(i) => {
                proof {
                    lemma_find_from_some(self.streams@, track_id@, 0, i as int);
                }
                Result::Ok(self.streams[i].next_chunk_decision())
            },
            Option::None => Result::Err(StreamError::NoActiveStream),
        }
    }

    /// The earliest pending chunk in the track's download queue: the
    /// queue's priority order decides the pick.
    pub fn get_next_download_chunk(&self, track_id: &str) -> (r: Option<usize>)
        requires
            self.wf(),
        ensures
            self.spec_has(track_id@) ==> {
                &&& (r is Some) == (self.spec_stream(track_id@).spec_first_pending_from(0)
                    is Some)
                &&& (r matches Option::Some(i) ==> i == self.spec_stream(
                    track_id@,
                ).download_queue@[self.spec_stream(track_id@).spec_first_pending_from(0)->0])
            },
            !self.spec_has(track_id@) ==> r is None,
    {
        let empty: Vec<usize> = Vec::new();
        let r = self.next_eligible_chunk(track_id, &empty);
        proof {
            if self.spec_has(track_id@) {
                self.spec_stream(track_id@).lemma_first_eligible_unfiltered(empty@, 0);
            }
        }
        r
    }

    /// The chunk at the earliest download-queue position of the track that
    /// is still pending and not in `taken` (chunks another worker is
    /// fetching).
    pub fn next_eligible_chunk(&self, track_id: &str, taken: &Vec<usize>) -> (r: Option<usize>)
        requires
            self.wf(),
        ensures
            self.spec_has(track_id@) ==> {
                &&& (r is Some) == (self.spec_stream(track_id@).spec_first_eligible_from(
                    taken@,
                    0,
                ) is Some)
                &&& (r matches Option::Some(i) ==> i == self.spec_stream(
                    track_id@,
                ).download_queue@[self.spec_stream(track_id@).spec_first_eligible_from(
                    taken@,
                    0,
                )->0])
            },
            !self.spec_has(track_id@) ==> r is None,
    {
        match self.find_index(track_id) {
            Option::Some(i) => {
                proof {
                    lemma_find_from_some(self.streams@, track_id@, 0, i as int);
                }
                self.streams[i].next_pending_chunk(taken)
            },
            Option::None => Option::None,
        }
    }

    /// Move the track's bookkeeping to the next chunk.
    pub fn advance_chunk(&mut self, track_id: &str) -> (r: Result<(), StreamError>)
        requires
            old(self).wf(),
        ensures
            final(self).wf(),
            match r {
                Result::Ok(u) => {
                    &&& old(self).spec_has(track_id@)
                    &&& final(self).spec_has(track_id@)
                    &&& final(self).spec_find(track_id@) == old(self).spec_find(track_id@)
                    &&& final(self).spec_stream(track_id@).current_chunk == if old(
                        self,
                    ).spec_stream(track_id@).current_chunk + 1 <= old(self).spec_stream(
                        track_id@,
                    ).spec_total_chunks() {
                        old(self).spec_stream(track_id@).current_chunk + 1
                    } else {
                        old(self).spec_stream(track_id@).current_chunk as int
                    }
                    &&& final(self).spec_stream(track_id@) == (ProgressiveStreamState {
                        current_chunk: final(self).spec_stream(track_id@).current_chunk,
                        ..old(self).spec_stream(track_id@)
                    })
                    &&& forall|j: int|
                        0 <= j < old(self).streams@.len() && j != old(self).spec_find(
                            track_id@,
                        )->Some_0 ==> final(self).streams@[j] == old(self).streams@[j]
                },
                Result::Err(e) => {
                    &&& e == StreamError::NoActiveStream
                    &&& !old(self).spec_has(track_id@)
                    &&& *final(self) == *old(self)
                },
            },
    {
        let found = self.find_index(track_id);
        match found {
            Option::Some(i) => {
                proof {
                    lemma_find_from_some(self.streams@, track_id@, 0, i as int);
                }
                let st = &mut self.streams[i];
                st.advance();
                proof {
                    lemma_find_from_exact(self.streams@, track_id@, 0, i as int);
                }
                Result::Ok(())
            },
            Option::None => Result::Err(StreamError::NoActiveStream),
        }
    }

    /// Reorder the track's download queue for a seek into chunk `target`.
    /// Returns the new queue: every pending chunk at or after the target in
    /// ascending order, then every pending chunk before it in ascending
    /// order.
    pub fn reprioritize_for_seek(&mut self, track_id: &str, target: usize) -> (r: Result<
        Vec<usize>,
        StreamError,
    >)
        requires
            old(self).wf(),
        ensures
            final(self).wf(),
            match r {
                Result::Ok(q) => {
                    &&& old(self).spec_has(track_id@)
                    &&& final(self).spec_find(track_id@) == old(self).spec_find(track_id@)
                    &&& target <= old(self).spec_stream(track_id@).spec_total_chunks()
                    &&& q@ == final(self).spec_stream(track_id@).download_queue@
                    &&& forall|k: int|
                        0 <= k < q@.len() ==> #[trigger] q@[k] < old(self).spec_stream(
                            track_id@,
                        ).spec_total_chunks() && old(self).spec_stream(track_id@).spec_not_ready(
                            q@[k] as int,
                        )
                    &&& (forall|k: int, l: int| 0 <= k < l < q@.len() ==> q@[k] != q@[l])
                    &&& forall|i: int|
                        0 <= i < old(self).spec_stream(track_id@).spec_total_chunks() && old(
                            self,
                        ).spec_stream(track_id@).spec_not_ready(i) ==> q@.contains(i as usize)
                    &&& forall|k: int, l: int|
                        0 <= k < q@.len() && 0 <= l < q@.len() && q@[k] >= target && q@[l]
                            < target ==> k < l
                    &&& forall|k: int, l: int|
                        0 <= k < l < q@.len() && (q@[k] >= target) == (q@[l] >= target)
                            ==> q@[k] < q@[l]
                    &&& final(self).spec_stream(track_id@) == (ProgressiveStreamState {
                        download_queue: final(self).spec_stream(track_id@).download_queue,
                        priority_chunk: Option::Some(target),
                        needs_reprioritize: true,
                        current_chunk: target,
                        ..old(self).spec_stream(track_id@)
                    })
                    &&& forall|j: int|
                        0 <= j < old(self).streams@.len() && j != old(self).spec_find(
                            track_id@,
                        )->Some_0 ==> final(self).streams@[j] == old(self).streams@[j]
                },
                Result::Err(e) => {
                    &&& *final(self) == *old(self)
                    &&& ((e == StreamError::NoActiveStream && !old(self).spec_has(track_id@)) || (
                    e == StreamError::ChunkOutOfRange && old(self).spec_has(track_id@) && target
                        > old(self).spec_stream(track_id@).spec_total_chunks()))
                },
            },
    {
        let found = self.find_index(track_id);
        match found {
            Option::Some(i) => {
                proof {
                    lemma_find_from_some(self.streams@, track_id@, 0, i as int);
                }
                if target > self.streams[i].total_chunks() {
                    return Result::Err(StreamError::ChunkOutOfRange);
                }
                let st = &mut self.streams[i];
                let q = st.reprioritize(target);
                proof {
                    lemma_find_from_exact(self.streams@, track_id@, 0, i as int);
                }
                Result::Ok(q)
            },
            Option::None => Result::Err(StreamError::NoActiveStream),
        }
    }

    /// Record a downloaded chunk file for the track.  Returns whether the
    /// stream is now complete.
    pub fn mark_chunk_ready(&mut self, track_id: &str, chunk_index: usize, file_path: String) -> (r:
        Result<bool, StreamError>)
        requires
            old(self).wf(),
        ensures
            final(self).wf(),
            match r {
                Result::Ok(complete) => {
                    &&& old(self).spec_has(track_id@)
                    &&& final(self).spec_find(track_id@) == old(self).spec_find(track_id@)
                    &&& chunk_index < old(self).spec_stream(track_id@).spec_total_chunks()
                    &&& !final(self).spec_stream(track_id@).spec_not_ready(chunk_index as int)
                    &&& final(self).spec_stream(track_id@).chunks@[chunk_index as int].file_path
                        == file_path
                    &&& complete == final(self).spec_stream(track_id@).is_complete
                    &&& final(self).spec_stream(track_id@).chunks@[chunk_index as int].duration_seconds
                        == (old(self).spec_stream(track_id@).spec_plan().spec_segment_end(
                        chunk_index as int,
                    ) - old(self).spec_stream(track_id@).spec_plan().spec_segment_start(
                        chunk_index as int,
                    )) * crate::chunk_plan::SEGMENT_SECONDS
                    &&& final(self).spec_stream(track_id@) == (ProgressiveStreamState {
                        chunks: final(self).spec_stream(track_id@).chunks,
                        is_complete: final(self).spec_stream(track_id@).is_complete,
                        ..old(self).spec_stream(track_id@)
                    })
                    &&& forall|j: int|
                        0 <= j < old(self).spec_stream(track_id@).chunks@.len() && j
                            != chunk_index ==> final(self).spec_stream(track_id@).chunks@[j]
                            == old(self).spec_stream(track_id@).chunks@[j]
                    &&& forall|j: int|
                        0 <= j < old(self).streams@.len() && j != old(self).spec_find(
                            track_id@,
                        )->Some_0 ==> final(self).streams@[j] == old(self).streams@[j]
                },
                Result::Err(e) => {
                    &&& *final(self) == *old(self)
                    &&& ((e == StreamError::NoActiveStream && !old(self).spec_has(track_id@)) || (
                    e == StreamError::ChunkOutOfRange && old(self).spec_has(track_id@)
                        && chunk_index >= old(self).spec_stream(track_id@).spec_total_chunks()))
                },
            },
    {
        let found = self.find_index(track_id);
        match found {
            Option::Some(i) => {
                proof {
                    lemma_find_from_some(self.streams@, track_id@, 0, i as int);
                }
                if chunk_index >= self.streams[i].total_chunks() {
                    return Result::Err(StreamError::ChunkOutOfRange);
                }
                let st = &mut self.streams[i];
                let complete = st.mark_chunk_ready(chunk_index, file_path);
                proof {
                    lemma_find_from_exact(self.streams@, track_id@, 0, i as int);
                }
                Result::Ok(complete)
            },
            Option::None => Result::Err(StreamError::NoActiveStream),
        }
    }

    /// Snapshot everything a worker needs to download one chunk: the init
    /// bytes, the chunk's segment URLs, and the file names to write.
    pub fn chunk_job(&self, track_id: &str, chunk_index: usize) -> (r: Result<
        ChunkJob,
        StreamError,
    >)
        requires
            self.wf(),
        ensures
            match r {
                Result::Ok(job) => {
                    &&& self.spec_has(track_id@)
                    &&& chunk_index < self.spec_stream(track_id@).spec_total_chunks()
                    &&& self.spec_stream(track_id@).init_segment is Some
                    &&& job.chunk_index == chunk_index
                    &&& job.start_segment == self.spec_stream(
                        track_id@,
                    ).spec_plan().spec_segment_start(chunk_index as int)
                    &&& job.end_segment == self.spec_stream(
                        track_id@,
                    ).spec_plan().spec_segment_end(chunk_index as int)
                    &&& job.init_segment@ == self.spec_stream(track_id@).init_segment->0@
                    &&& job.segment_urls@.len() == job.end_segment - job.start_segment
                    &&& forall|k: int|
                        0 <= k < job.segment_urls@.len() ==> #[trigger] job.segment_urls@[k]@
                            == self.spec_stream(track_id@).media_urls@[job.start_segment + k]@
                    &&& job.file_name@ == track_id@ + "_"@ + dec_chars(chunk_index as nat)
                        + ".m4a"@
                    &&& job.temp_file_name@ == track_id@ + "_"@ + dec_chars(chunk_index as nat)
                        + ".m4a"@ + ".tmp"@
                },
                Result::Err(e) => {
                    ||| (e == StreamError::NoActiveStream && !self.spec_has(track_id@))
                    ||| (e == StreamError::ChunkOutOfRange && self.spec_has(track_id@)
                        && chunk_index >= self.spec_stream(track_id@).spec_total_chunks())
                    ||| (e == StreamError::NoInitSegment && self.spec_has(track_id@)
                        && self.spec_stream(track_id@).init_segment is None)
                },
            },
    {
        match self.find_index(track_id) {
            Option::Some(i) => {
                proof {
                    lemma_find_from_some(self.streams@, track_id@, 0, i as int);
                }
                let st = &self.streams[i];
                if chunk_index >= st.total_chunks() {
                    return Result::Err(StreamError::ChunkOutOfRange);
                }
                let init_segment = match &st.init_segment {
                    Option::Some(v) => copy_vec(v),
                    Option::None => {
                        return Result::Err(StreamError::NoInitSegment);
                    },
                };
                let range = st.get_chunk_segment_range(chunk_index);
                proof {
                    assert(st.wf());
                }
                let mut segment_urls: Vec<Vec<u8>> = Vec::new();
                let mut k: usize = range.0;
                while k < range.1
                    invariant
                        range.0 <= k <= range.1,
                        range.1 <= st.media_urls@.len(),
                        segment_urls@.len() == k - range.0,
                        forall|m: int|
                            0 <= m < segment_urls@.len() ==> #[trigger] segment_urls@[m]@
                                == st.media_urls@[range.0 + m]@,
                    decreases range.1 - k,
                {
                    segment_urls.push(copy_vec(&st.media_urls[k]));
                    k = k + 1;
                }
                Result::Ok(
                    ChunkJob {
                        chunk_index,
                        start_segment: range.0,
                        end_segment: range.1,
                        init_segment,
                        segment_urls,
                        temp_file_name: chunk_temp_file_name(track_id, chunk_index),
                        file_name: chunk_file_name(track_id, chunk_index),
                    },
                )
            },
            Option::None => Result::Err(StreamError::NoActiveStream),
        }
    }
}


} // verus!
