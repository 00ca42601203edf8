//! Chunk planning: how a track's media segments are grouped into chunks.
//!
//! A stream of `total_segments` segments is split into one small first chunk
//! of at most `first_chunk_segments` segments (for a fast start) followed by
//! regular chunks of at most `regular_chunk_segments` segments each.  Every
//! segment covers roughly four seconds of audio, which is what the position
//! arithmetic below relies on.

use vstd::prelude::*;

verus! {

/// Nominal duration of one media segment, in seconds.
pub const SEGMENT_SECONDS: u64 = 4;

/// The deterministic mapping from chunk indices to segment ranges.
#[derive(Clone, Copy, Debug, PartialEq, Eq, Structural)]
pub struct ChunkPlan {
    /// Total number of media segments in the manifest.
    pub total_segments: usize,
    /// Number of segments in chunk 0.
    pub first_chunk_segments: usize,
    /// Number of segments in every chunk after chunk 0.
    pub regular_chunk_segments: usize,
}

impl ChunkPlan {
    /// A plan is well formed when it has at least one segment, both chunk
    /// sizes are positive, and the segment count is small enough that
    /// second-based positions (four seconds per segment) fit in a `usize`.
    pub open spec fn wf(self) -> bool {
        &&& self.total_segments >= 1
        &&& self.first_chunk_segments >= 1
        &&& self.regular_chunk_segments >= 1
        &&& self.total_segments * 4 <= usize::MAX
        &&& self.first_chunk_segments * 4 <= usize::MAX
        &&& self.regular_chunk_segments * 4 <= usize::MAX
    }

    /// Number of chunks: one first chunk, then a ceiling division of the
    /// remaining segments by the regular chunk size.
    pub open spec fn spec_total_chunks(self) -> nat
        recommends
            self.wf(),
    {
        if self.total_segments <= self.first_chunk_segments {
            1
        } else {
            (1 + ((self.total_segments - self.first_chunk_segments + self.regular_chunk_segments
                - 1) as nat / self.regular_chunk_segments as nat)) as nat
        }
    }

    /// First segment (inclusive) of chunk `i`.
    pub open spec fn spec_segment_start(self, i: int) -> int
        recommends
            self.wf(),
            0 <= i < self.spec_total_chunks(),
    {
        if i == 0 {
            0
        } else {
            self.first_chunk_segments + (i - 1) * self.regular_chunk_segments
        }
    }

    /// Last segment (exclusive) of chunk `i`.
    pub open spec fn spec_segment_end(self, i: int) -> int
        recommends
            self.wf(),
            0 <= i < self.spec_total_chunks(),
    {
        if i == 0 {
            if self.first_chunk_segments <= self.total_segments {
                self.first_chunk_segments as int
            } else {
                self.total_segments as int
            }
        } else {
            let bound = self.first_chunk_segments + i * self.regular_chunk_segments;
            if bound <= self.total_segments {
                bound
            } else {
                self.total_segments as int
            }
        }
    }

    /// Chunk index covering a playback position of `seconds` seconds.
    pub open spec fn spec_chunk_for_position(self, seconds: int) -> int
        recommends
            self.wf(),
            seconds >= 0,
    {
        let first_span = self.first_chunk_segments * SEGMENT_SECONDS;
        let regular_span = self.regular_chunk_segments * SEGMENT_SECONDS;
        if seconds < first_span {
            0
        } else {
            let raw = 1 + (seconds - first_span) / regular_span as int;
            if raw <= self.spec_total_chunks() - 1 {
                raw
            } else {
                self.spec_total_chunks() - 1
            }
        }
    }

    /// Total number of chunks in the plan.
    pub fn total_chunks(&self) -> (n: usize)
        requires
            self.wf(),
        ensures
            n == self.spec_total_chunks(),
            n >= 1,
    {
        if self.total_segments <= self.first_chunk_segments {
            1
        } else {
            let remaining: usize = self.total_segments - self.first_chunk_segments;
            assert(remaining + self.regular_chunk_segments - 1 <= usize::MAX);
            let rounded: usize = (remaining + self.regular_chunk_segments - 1)
                / self.regular_chunk_segments;
            assert(rounded <= remaining) by {
                assert(remaining + self.regular_chunk_segments - 1 <= remaining
                    * self.regular_chunk_segments) by (nonlinear_arith)
                    requires
                        remaining >= 1,
                        self.regular_chunk_segments >= 1,
                ;
                vstd::arithmetic::div_mod::lemma_div_is_ordered(
                    remaining + self.regular_chunk_segments - 1,
                    remaining * self.regular_chunk_segments as int,
                    self.regular_chunk_segments as int,
                );
                vstd::arithmetic::div_mod::lemma_div_multiples_vanish(
                    remaining as int,
                    self.regular_chunk_segments as int,
                );
                assert(remaining * self.regular_chunk_segments == self.regular_chunk_segments
                    * remaining) by (nonlinear_arith);
            }
            1 + rounded
        }
    }

    /// Segment range `[start, end)` covered by chunk `chunk_index`.
    pub fn segment_range(&self, chunk_index: usize) -> (r: (usize, usize))
        requires
            self.wf(),
            chunk_index < self.spec_total_chunks(),
        ensures
            r.0 == self.spec_segment_start(chunk_index as int),
            r.1 == self.spec_segment_end(chunk_index as int),
            r.0 < r.1 <= self.total_segments,
    {
        proof {
            self.lemma_range_bounds(chunk_index as int);
        }
        if chunk_index == 0 {
            let end: usize = if self.first_chunk_segments <= self.total_segments {
                self.first_chunk_segments
            } else {
                self.total_segments
            };
            (0, end)
        } else {
            proof {
                let i = chunk_index as int;
                let r = self.regular_chunk_segments as int;
                assert(i * r == (i - 1) * r + r) by (nonlinear_arith);
            }
            let start: usize = self.first_chunk_segments + (chunk_index - 1)
                * self.regular_chunk_segments;
            let end: usize = if self.total_segments - start <= self.regular_chunk_segments {
                self.total_segments
            } else {
                start + self.regular_chunk_segments
            };
            (start, end)
        }
    }

    /// Chunk index covering the playback position `seconds` (in seconds).
    pub fn chunk_for_position(&self, seconds: u64) -> (i: usize)
        requires
            self.wf(),
        ensures
            i == self.spec_chunk_for_position(seconds as int),
            i < self.spec_total_chunks(),
    {
        let first_span: u64 = (self.first_chunk_segments as u64) * SEGMENT_SECONDS;
        if seconds < first_span {
            0
        } else {
            let regular_span: u64 = (self.regular_chunk_segments as u64) * SEGMENT_SECONDS;
            let raw: u64 = 1 + (seconds - first_span) / regular_span;
            let last: usize = self.total_chunks() - 1;
            if raw <= last as u64 {
                raw as usize
            } else {
                last
            }
        }
    }

    /// Bounds for the range of a valid chunk index: the range is non-empty,
    /// lies inside `[0, total_segments]`, and its start matches the nominal
    /// start position without clamping.
    proof fn lemma_range_bounds(self, i: int)
        requires
            self.wf(),
            0 <= i < self.spec_total_chunks(),
        ensures
            0 <= self.spec_segment_start(i),
            self.spec_segment_start(i) < self.spec_segment_end(i),
            self.spec_segment_end(i) <= self.total_segments,
    {
        let f = self.first_chunk_segments as int;
        let r = self.regular_chunk_segments as int;
        let n = self.total_segments as int;
        if i > 0 {
            let rem = n - f;
            let q = (rem + r - 1) / r;
            assert(self.spec_total_chunks() == 1 + q);
            assert(i - 1 <= q - 1);
            assert((rem + r - 1) == r * q + (rem + r - 1) % r) by {
                vstd::arithmetic::div_mod::lemma_fundamental_div_mod(rem + r - 1, r);
            }
            assert(0 <= (rem + r - 1) % r < r) by {
                vstd::arithmetic::div_mod::lemma_mod_bound(rem + r - 1, r);
            }
            assert(r * q >= rem);
            // The start of chunk i lies strictly inside the segment range.
            assert((i - 1) * r <= rem - 1) by (nonlinear_arith)
                requires
                    i - 1 <= q - 1,
                    r >= 1,
                    r * q <= rem + r - 1,
            ;
            assert(f + (i - 1) * r <= n - 1);
            // The end is strictly above the start.
            assert(i * r == (i - 1) * r + r) by (nonlinear_arith);
            assert(f + i * r > f + (i - 1) * r);
        }
    }

    /// The chunk ranges partition the segment interval `[0, total_segments)`:
    /// chunk 0 starts at segment 0, each chunk begins where the previous one
    /// ends, every chunk is non-empty, and the last chunk ends at
    /// `total_segments`.
    pub proof fn lemma_chunks_partition(self)
        requires
            self.wf(),
        ensures
            self.spec_segment_start(0) == 0,
            self.spec_segment_end(self.spec_total_chunks() - 1) == self.total_segments,
            forall|i: int|
                0 <= i < self.spec_total_chunks() - 1 ==> self.spec_segment_end(i)
                    == self.spec_segment_start(i + 1),
            forall|i: int|
                0 <= i < self.spec_total_chunks() ==> self.spec_segment_start(i)
                    < self.spec_segment_end(i),
            forall|i: int|
                0 <= i < self.spec_total_chunks() ==> self.spec_segment_end(i)
                    <= self.total_segments,
    {
        let f = self.first_chunk_segments as int;
        let r = self.regular_chunk_segments as int;
        let n = self.total_segments as int;
        let tc = self.spec_total_chunks() as int;
        assert forall|i: int| 0 <= i < tc implies self.spec_segment_start(i)
            < self.spec_segment_end(i) && self.spec_segment_end(i) <= n by {
            self.lemma_range_bounds(i);
        }
        // The last chunk is never clamped short of the end.
        if n <= f {
            assert(tc == 1);
            assert(self.spec_segment_end(0) == n);
        } else {
            let rem = n - f;
            let q = (rem + r - 1) / r;
            assert(tc == 1 + q);
            assert((rem + r - 1) == r * ((rem + r - 1) / r) + (rem + r - 1) % r) by {
                vstd::arithmetic::div_mod::lemma_fundamental_div_mod(rem + r - 1, r);
            }
            assert(0 <= (rem + r - 1) % r < r) by {
                vstd::arithmetic::div_mod::lemma_mod_bound(rem + r - 1, r);
            }
            assert(r * q >= rem);
            assert(f + q * r >= n) by {
                assert(q * r == r * q) by (nonlinear_arith);
            }
            assert(self.spec_segment_end(tc - 1) == n);
        }
        // Adjacent chunks meet exactly.
        assert forall|i: int| 0 <= i < tc - 1 implies self.spec_segment_end(i)
            == self.spec_segment_start(i + 1) by {
            self.lemma_range_bounds(i);
            self.lemma_range_bounds(i + 1);
            if i == 0 {
                assert(tc >= 2);
                assert(n > f);
                assert(self.spec_segment_end(0) == f);
                assert(self.spec_segment_start(1) == f);
            } else {
                // Both ends are unclamped because the start of chunk i + 1 is
                // in range.
                assert(self.spec_segment_start(i + 1) == f + i * r);
                assert(f + i * r <= n - 1);
                assert(self.spec_segment_end(i) == if f + i * r <= n {
                    f + i * r
                } else {
                    n
                });
            }
        }
    }

    /// A position inside the track maps to the chunk whose time range
    /// contains it: `chunk_for_position(t)` returns an `i` with
    /// `start(i)*4 <= t < end(i)*4`, for any `t` below the track's nominal
    /// length of `total_segments * 4` seconds.
    pub proof fn lemma_chunk_for_position_covers(self, t: int)
        requires
            self.wf(),
            self.total_segments >= self.first_chunk_segments,
            0 <= t < self.total_segments * 4,
        ensures
            ({
                let i = self.spec_chunk_for_position(t);
                &&& 0 <= i < self.spec_total_chunks()
                &&& self.spec_segment_start(i) * 4 <= t
                &&& t < self.spec_segment_end(i) * 4
            }),
    {
        let f = self.first_chunk_segments as int;
        let r = self.regular_chunk_segments as int;
        let n = self.total_segments as int;
        let tc = self.spec_total_chunks() as int;
        let i = self.spec_chunk_for_position(t);
        self.lemma_chunks_partition();
        if t < f * 4 {
            assert(i == 0);
            assert(self.spec_segment_end(0) == f);
        } else {
            assert(n > f || t < f * 4);
            let rem_t = t - f * 4;
            let raw = 1 + rem_t / (r * 4);
            // The raw index is never clamped while t is inside the track.
            assert(rem_t == (r * 4) * (rem_t / (r * 4)) + rem_t % (r * 4)) by {
                vstd::arithmetic::div_mod::lemma_fundamental_div_mod(rem_t, r * 4);
            }
            assert(0 <= rem_t % (r * 4) < r * 4) by {
                vstd::arithmetic::div_mod::lemma_mod_bound(rem_t, r * 4);
            }
            let q = rem_t / (r * 4);
            // t < n * 4 gives (r*4)*q <= rem_t < (n - f) * 4, so q < ceil((n-f)/r).
            let rem = n - f;
            let qq = (rem + r - 1) / r;
            assert(tc == 1 + qq);
            assert((rem + r - 1) == r * ((rem + r - 1) / r) + (rem + r - 1) % r) by {
                vstd::arithmetic::div_mod::lemma_fundamental_div_mod(rem + r - 1, r);
            }
            assert(0 <= (rem + r - 1) % r < r) by {
                vstd::arithmetic::div_mod::lemma_mod_bound(rem + r - 1, r);
            }
            assert(r * qq >= rem);
            assert((r * 4) * q <= rem_t);
            assert(rem_t < rem * 4);
            assert((r * 4) * q < rem * 4);
            assert(q * r < rem) by (nonlinear_arith)
                requires
                    (r * 4) * q < rem * 4,
                    r >= 1,
            ;
            // q * r < rem <= r * qq implies q < qq.
            assert(q < qq) by (nonlinear_arith)
                requires
                    q * r < rem,
                    r * qq >= rem,
                    r >= 1,
            ;
            assert(raw <= tc - 1);
            assert(i == raw);
            // Start bound: start(i) * 4 = (f + q*r) * 4 <= f*4 + rem_t = t.
            assert(self.spec_segment_start(i) == f + q * r);
            assert((r * 4) * q == (q * r) * 4) by (nonlinear_arith);
            assert((f + q * r) * 4 == f * 4 + (q * r) * 4) by (nonlinear_arith);
            assert(self.spec_segment_start(i) * 4 <= t);
            // End bound: t < f*4 + (q+1)*r*4 and t < n*4.
            assert(rem_t < (r * 4) * (q + 1)) by (nonlinear_arith)
                requires
                    rem_t == (r * 4) * q + rem_t % (r * 4),
                    rem_t % (r * 4) < r * 4,
            ;
            let bound = f + i * r;
            assert(i * r == q * r + r) by (nonlinear_arith)
                requires
                    i == q + 1,
            ;
            assert(bound * 4 == f * 4 + (q * r) * 4 + r * 4) by (nonlinear_arith)
                requires
                    bound == f + i * r,
                    i * r == q * r + r,
            ;
            assert((r * 4) * (q + 1) == (q * r) * 4 + r * 4) by (nonlinear_arith);
            assert(t < bound * 4);
            if bound <= n {
                assert(self.spec_segment_end(i) == bound);
            } else {
                assert(self.spec_segment_end(i) == n);
            }
        }
    }
}

} // verus!
