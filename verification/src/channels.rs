//! Channel-layout conversion of interleaved sample buffers.
//!
//! The conversion is pure rearrangement, so it is generic in the sample
//! type: mono duplicates into both stereo channels, a wide layout collapses
//! to its first two channels, narrowing keeps the leading channels, and
//! widening pads with `silence`.  The one arm that computes new sample
//! values — averaging a stereo pair down to mono — is floating-point
//! arithmetic and happens outside the library; for it this function returns
//! `None` and the caller mixes the pairs itself.

use vstd::prelude::*;

verus! {

/// Number of whole frames in a buffer of `total` interleaved samples.
pub open spec fn spec_frames(total: int, channels: int) -> int
    recommends
        channels >= 1,
{
    total / channels
}


/// Frame `f` of a mono buffer duplicated into stereo.
pub open spec fn mono_dup_frame<T>(out: Seq<T>, samples: Seq<T>, f: int) -> bool {
    out[2 * f] == samples[f] && out[2 * f + 1] == samples[f]
}

/// Frame `f` of a wide buffer collapsed to its first two channels.
pub open spec fn wide_stereo_frame<T>(out: Seq<T>, samples: Seq<T>, from: int, f: int) -> bool {
    out[2 * f] == samples[f * from] && out[2 * f + 1] == samples[f * from + 1]
}

/// Sample `c` of frame `f` kept from the leading channels.
pub open spec fn kept_sample<T>(out: Seq<T>, samples: Seq<T>, from: int, to: int, f: int, c: int) -> bool {
    out[f * to + c] == samples[f * from + c]
}

/// Sample `c` of frame `f` kept from the source or padded with silence.
pub open spec fn padded_sample<T>(
    out: Seq<T>,
    samples: Seq<T>,
    from: int,
    to: int,
    silence: T,
    f: int,
    c: int,
) -> bool {
    out[f * to + c] == (if c < from {
        samples[f * from + c]
    } else {
        silence
    })
}

/// Convert `samples` (interleaved, `from_channels` per frame) to
/// `to_channels` per frame.  Partial trailing frames are dropped, as the
/// frame count is the whole division of the length.
///
/// `None` exactly for the stereo-to-mono conversion, whose averaging is
/// done by the caller.
#[verifier::loop_isolation(false)]
pub fn convert_channels<T: Copy>(
    samples: &Vec<T>,
    from_channels: usize,
    to_channels: usize,
    silence: T,
) -> (r: Option<Vec<T>>)
    requires
        to_channels >= 1,
        samples@.len() <= usize::MAX,
    ensures
        (r is None) == (from_channels == 2 && to_channels == 1),
        r matches Option::Some(out) ==> {
            let frames = spec_frames(samples@.len() as int, from_channels as int);
            &&& ((from_channels == to_channels || from_channels == 0) ==> out@ == samples@)
            &&& ((from_channels != to_channels && from_channels != 0) ==> {
                &&& out@.len() == frames * to_channels
                &&& ((from_channels == 1 && to_channels == 2) ==> forall|f: int|
                    0 <= f < frames ==> #[trigger] mono_dup_frame(out@, samples@, f))
                &&& ((to_channels == 2 && from_channels > 2) ==> forall|f: int|
                    0 <= f < frames ==> #[trigger] wide_stereo_frame(
                        out@,
                        samples@,
                        from_channels as int,
                        f,
                    ))
                &&& ((to_channels < from_channels && !(to_channels == 2 && from_channels > 2))
                    ==> forall|f: int, c: int|
                    0 <= f < frames && 0 <= c < to_channels ==> #[trigger] kept_sample(
                        out@,
                        samples@,
                        from_channels as int,
                        to_channels as int,
                        f,
                        c,
                    ))
                &&& ((to_channels > from_channels && !(from_channels == 1 && to_channels == 2))
                    ==> forall|f: int, c: int|
                    0 <= f < frames && 0 <= c < to_channels ==> #[trigger] padded_sample(
                        out@,
                        samples@,
                        from_channels as int,
                        to_channels as int,
                        silence,
                        f,
                        c,
                    ))
            })
        },
{
    if from_channels == to_channels || from_channels == 0 {
        let mut out: Vec<T> = Vec::new();
        let mut i: usize = 0;
        while i < samples.len()
            invariant
                0 <= i <= samples@.len(),
                out@ == samples@.subrange(0, i as int),
            decreases samples@.len() - i,
        {
            out.push(samples[i]);
            proof {
                assert(out@ =~= samples@.subrange(0, i + 1));
            }
            i = i + 1;
        }
        proof {
            assert(samples@.subrange(0, samples@.len() as int) =~= samples@);
        }
        return Option::Some(out);
    }
    if from_channels == 2 && to_channels == 1 {
        // Averaging the pair is sample arithmetic, done by the caller.
        return Option::None;
    }
    let num_frames: usize = samples.len() / from_channels;
    proof {
        assert(num_frames * from_channels <= samples@.len()) by (nonlinear_arith)
            requires
                num_frames == samples@.len() as int / from_channels as int,
                from_channels >= 1,
        {
            vstd::arithmetic::div_mod::lemma_fundamental_div_mod(
                samples@.len() as int,
                from_channels as int,
            );
            vstd::arithmetic::div_mod::lemma_mod_bound(samples@.len() as int, from_channels as int);
        }
    }
    let mut out: Vec<T> = Vec::new();
    let mut f: usize = 0;
    while f < num_frames
        invariant
            0 <= f <= num_frames,
            num_frames == spec_frames(samples@.len() as int, from_channels as int),
            num_frames * from_channels <= samples@.len(),
            from_channels >= 1,
            to_channels >= 1,
            from_channels != to_channels,
            !(from_channels == 2 && to_channels == 1),
            out@.len() == f * to_channels,
            (from_channels == 1 && to_channels == 2) ==> forall|g: int|
                0 <= g < f ==> #[trigger] mono_dup_frame(out@, samples@, g),
            (to_channels == 2 && from_channels > 2) ==> forall|g: int|
                0 <= g < f ==> #[trigger] wide_stereo_frame(
                    out@,
                    samples@,
                    from_channels as int,
                    g,
                ),
            (to_channels < from_channels && !(to_channels == 2 && from_channels > 2)) ==> forall|
                g: int,
                c: int,
            |
                0 <= g < f && 0 <= c < to_channels ==> #[trigger] kept_sample(
                    out@,
                    samples@,
                    from_channels as int,
                    to_channels as int,
                    g,
                    c,
                ),
            (to_channels > from_channels && !(from_channels == 1 && to_channels == 2)) ==> forall|
                g: int,
                c: int,
            |
                0 <= g < f && 0 <= c < to_channels ==> #[trigger] padded_sample(
                    out@,
                    samples@,
                    from_channels as int,
                    to_channels as int,
                    silence,
                    g,
                    c,
                ),
        decreases num_frames - f,
    {
        proof {
            assert((f + 1) * from_channels <= num_frames * from_channels && f * from_channels
                >= 0 && (f + 1) * to_channels <= num_frames * to_channels && f * to_channels
                >= 0 && (f + 1) * from_channels == f * from_channels + from_channels && (f + 1)
                * to_channels == f * to_channels + to_channels) by (nonlinear_arith)
                requires
                    0 <= f < num_frames,
                    from_channels >= 1,
                    to_channels >= 1,
            ;
        }
        let frame_start: usize = f * from_channels;
        let ghost out_before = out@;
        if to_channels < from_channels {
            if to_channels == 2 && from_channels > 2 {
                out.push(samples[frame_start]);
                out.push(samples[frame_start + 1]);
                proof {
                    assert forall|g: int| 0 <= g < f + 1 implies #[trigger] wide_stereo_frame(
                        out@,
                        samples@,
                        from_channels as int,
                        g,
                    ) by {
                        assert(out_before.len() == f * to_channels);
                        if g < f {
                            assert(wide_stereo_frame(
                                out_before,
                                samples@,
                                from_channels as int,
                                g,
                            ));
                            assert(0 <= 2 * g && 2 * g + 1 < out_before.len());
                            assert(out@[2 * g] == out_before[2 * g]);
                            assert(out@[2 * g + 1] == out_before[2 * g + 1]);
                        } else {
                            assert(2 * g == out_before.len());
                            assert(out@[2 * g] == samples@[frame_start as int]);
                            assert(out@[2 * g + 1] == samples@[frame_start + 1]);
                            assert(frame_start == g * from_channels);
                        }
                    }
                }
            } else {
                let mut c: usize = 0;
                while c < to_channels
                    invariant
                        0 <= c <= to_channels,
                        out@ == out_before + samples@.subrange(
                            frame_start as int,
                            frame_start + c,
                        ),
                        frame_start + to_channels <= samples@.len(),
                    decreases to_channels - c,
                {
                    out.push(samples[frame_start + c]);
                    proof {
                        assert(out@ =~= out_before + samples@.subrange(
                            frame_start as int,
                            frame_start + c + 1,
                        ));
                    }
                    c = c + 1;
                }
                proof {
                    assert forall|g: int, cc: int|
                        0 <= g < f + 1 && 0 <= cc < to_channels implies #[trigger] kept_sample(
                        out@,
                        samples@,
                        from_channels as int,
                        to_channels as int,
                        g,
                        cc,
                    ) by {
                        assert(out_before.len() == f * to_channels);
                        if g < f {
                            assert(kept_sample(
                                out_before,
                                samples@,
                                from_channels as int,
                                to_channels as int,
                                g,
                                cc,
                            ));
                            assert(0 <= g * to_channels + cc < out_before.len()) by (
                            nonlinear_arith)
                                requires
                                    0 <= g < f,
                                    0 <= cc < to_channels,
                                    out_before.len() == f * to_channels,
                            ;
                            assert(out@[g * to_channels + cc] == out_before[g * to_channels + cc]);
                        } else {
                            assert(g * to_channels + cc == out_before.len() + cc) by (
                            nonlinear_arith)
                                requires
                                    g == f,
                                    out_before.len() == f * to_channels,
                            ;
                            assert(out@[out_before.len() + cc] == samples@[frame_start + cc]);
                            assert(frame_start + cc == g * from_channels + cc) by (nonlinear_arith)
                                requires
                                    frame_start == f * from_channels,
                                    g == f,
                            ;
                        }
                    }
                }
            }
        } else {
            if from_channels == 1 && to_channels == 2 {
                let s = samples[frame_start];
                out.push(s);
                out.push(s);
                proof {
                    assert forall|g: int| 0 <= g < f + 1 implies #[trigger] mono_dup_frame(
                        out@,
                        samples@,
                        g,
                    ) by {
                        if g < f {
                            assert(mono_dup_frame(out_before, samples@, g));
                            assert(out@[2 * g] == out_before[2 * g]);
                            assert(out@[2 * g + 1] == out_before[2 * g + 1]);
                        } else {
                            assert(out_before.len() == f * to_channels);
                            assert(2 * g == out_before.len());
                            assert(out@[2 * g] == samples@[frame_start as int]);
                            assert(out@[2 * g + 1] == samples@[frame_start as int]);
                            assert(frame_start == g) by (nonlinear_arith)
                                requires
                                    frame_start == f * from_channels,
                                    from_channels == 1,
                                    g == f,
                            ;
                        }
                    }
                }
            } else {
                let mut c: usize = 0;
                while c < to_channels
                    invariant
                        0 <= c <= to_channels,
                        out@.len() == out_before.len() + c,
                        forall|m: int|
                            0 <= m < out_before.len() ==> #[trigger] out@[m] == out_before[m],
                        forall|m: int|
                            0 <= m < c ==> #[trigger] out@[out_before.len() + m] == (if m
                                < from_channels {
                                samples@[frame_start + m]
                            } else {
                                silence
                            }),
                        frame_start + from_channels <= samples@.len(),
                    decreases to_channels - c,
                {
                    if c < from_channels {
                        out.push(samples[frame_start + c]);
                    } else {
                        out.push(silence);
                    }
                    c = c + 1;
                }
                proof {
                    assert forall|g: int, cc: int|
                        0 <= g < f + 1 && 0 <= cc < to_channels implies #[trigger] padded_sample(
                        out@,
                        samples@,
                        from_channels as int,
                        to_channels as int,
                        silence,
                        g,
                        cc,
                    ) by {
                        if g < f {
                            assert(padded_sample(
                                out_before,
                                samples@,
                                from_channels as int,
                                to_channels as int,
                                silence,
                                g,
                                cc,
                            ));
                            assert(g * to_channels + cc < out_before.len()) by (nonlinear_arith)
                                requires
                                    0 <= g < f,
                                    0 <= cc < to_channels,
                                    out_before.len() == f * to_channels,
                            ;
                            assert(g * to_channels + cc >= 0) by (nonlinear_arith)
                                requires
                                    g >= 0,
                                    cc >= 0,
                                    to_channels >= 1,
                            ;
                            assert(out@[g * to_channels + cc] == out_before[g * to_channels + cc]);
                        } else {
                            assert(out@[out_before.len() + cc] == (if cc < from_channels {
                                samples@[frame_start + cc]
                            } else {
                                silence
                            }));
                            assert(g * to_channels + cc == out_before.len() + cc);
                        }
                    }
                }
            }
        }
        proof {
            lemma_frame_written(
                out_before,
                out@,
                samples@,
                f as int,
                from_channels as int,
                to_channels as int,
                silence,
            );
        }
        f = f + 1;
    }
    proof {
        assert(out@.len() == num_frames * to_channels);
    }
    Option::Some(out)
}

/// Helper: nothing here, index bookkeeping only; the frame loop's invariant
/// follows from the inner pushes.
proof fn lemma_frame_written<T>(
    before: Seq<T>,
    after: Seq<T>,
    samples: Seq<T>,
    f: int,
    from_channels: int,
    to_channels: int,
    silence: T,
)
    requires
        before.len() == f * to_channels,
        after.len() == before.len() + to_channels,
        forall|m: int| 0 <= m < before.len() ==> #[trigger] after[m] == before[m],
    ensures
        after.len() == (f + 1) * to_channels,
        forall|g: int, c: int|
            0 <= g < f && 0 <= c < to_channels && 0 <= g * to_channels + c < before.len()
                ==> #[trigger] after[g * to_channels + c] == before[g * to_channels + c],
{
    assert((f + 1) * to_channels == f * to_channels + to_channels) by (nonlinear_arith);
}


/// Element `f` of a deinterleaved channel `c` equals interleaved sample
/// `f * channels + c`.
pub open spec fn planar_sample<T>(
    chan: Seq<T>,
    samples: Seq<T>,
    channels: int,
    c: int,
    f: int,
) -> bool {
    chan[f] == samples[f * channels + c]
}

/// Split an interleaved buffer into one vector per channel: element `f` of
/// channel `c` is sample `f * channels + c`.  Partial trailing frames are
/// dropped.
#[verifier::loop_isolation(false)]
pub fn deinterleave<T: Copy>(samples: &Vec<T>, channels: usize) -> (r: Vec<Vec<T>>)
    requires
        channels >= 1,
    ensures
        r@.len() == channels,
        forall|c: int|
            0 <= c < channels ==> #[trigger] r@[c]@.len() == spec_frames(
                samples@.len() as int,
                channels as int,
            ),
        forall|c: int, f: int|
            0 <= c < channels && 0 <= f < spec_frames(samples@.len() as int, channels as int)
                ==> #[trigger] planar_sample(r@[c]@, samples@, channels as int, c, f),
{
    let num_frames: usize = samples.len() / channels;
    proof {
        assert(num_frames * channels <= samples@.len()) by (nonlinear_arith)
            requires
                num_frames == samples@.len() as int / channels as int,
                channels >= 1,
        {
            vstd::arithmetic::div_mod::lemma_fundamental_div_mod(
                samples@.len() as int,
                channels as int,
            );
            vstd::arithmetic::div_mod::lemma_mod_bound(samples@.len() as int, channels as int);
        }
    }
    let mut r: Vec<Vec<T>> = Vec::new();
    let mut c: usize = 0;
    while c < channels
        invariant
            0 <= c <= channels,
            r@.len() == c,
            num_frames == spec_frames(samples@.len() as int, channels as int),
            num_frames * channels <= samples@.len(),
            forall|cc: int| 0 <= cc < c ==> #[trigger] r@[cc]@.len() == num_frames,
            forall|cc: int, f: int|
                0 <= cc < c && 0 <= f < num_frames ==> #[trigger] r@[cc]@[f] == samples@[f
                    * channels + cc],
        decreases channels - c,
    {
        let mut chan: Vec<T> = Vec::new();
        let mut f: usize = 0;
        while f < num_frames
            invariant
                0 <= f <= num_frames,
                0 <= c < channels,
                chan@.len() == f,
                num_frames * channels <= samples@.len(),
                forall|g: int|
                    0 <= g < f ==> #[trigger] chan@[g] == samples@[g * channels + c],
            decreases num_frames - f,
        {
            proof {
                assert(0 <= f * channels + c && f * channels + c < num_frames * channels) by (
                nonlinear_arith)
                    requires
                        0 <= f < num_frames,
                        0 <= c < channels,
                ;
            }
            chan.push(samples[f * channels + c]);
            f = f + 1;
        }
        r.push(chan);
        c = c + 1;
    }
    proof {
        assert forall|cc: int, f: int|
            0 <= cc < channels && 0 <= f < num_frames implies #[trigger] planar_sample(
            r@[cc]@,
            samples@,
            channels as int,
            cc,
            f,
        ) by {
            assert(r@[cc]@[f] == samples@[f * channels + cc]);
        }
    }
    r
}

/// Merge per-channel vectors back into one interleaved buffer of
/// `frames` frames: sample `f * channels + c` is element `f` of channel
/// `c`, or `silence` where a channel is too short.
#[verifier::loop_isolation(false)]
pub fn interleave<T: Copy>(planar: &Vec<Vec<T>>, frames: usize, silence: T) -> (r: Vec<T>)
    requires
        planar@.len() >= 1,
        frames * planar@.len() <= usize::MAX,
    ensures
        r@.len() == frames * planar@.len(),
        forall|f: int, c: int|
            0 <= f < frames && 0 <= c < planar@.len() ==> #[trigger] r@[f * planar@.len() + c]
                == (if f < planar@[c]@.len() {
                planar@[c]@[f]
            } else {
                silence
            }),
{
    let channels: usize = planar.len();
    let mut r: Vec<T> = Vec::new();
    let mut f: usize = 0;
    while f < frames
        invariant
            0 <= f <= frames,
            channels == planar@.len(),
            channels >= 1,
            frames * channels <= usize::MAX,
            r@.len() == f * channels,
            forall|g: int, c: int|
                0 <= g < f && 0 <= c < channels ==> #[trigger] r@[g * channels + c] == (if g
                    < planar@[c]@.len() {
                    planar@[c]@[g]
                } else {
                    silence
                }),
        decreases frames - f,
    {
        proof {
            assert((f + 1) * channels == f * channels + channels && (f + 1) * channels <= frames
                * channels) by (nonlinear_arith)
                requires
                    0 <= f < frames,
                    channels >= 1,
            ;
        }
        let ghost r_before = r@;
        let mut c: usize = 0;
        while c < channels
            invariant
                0 <= c <= channels,
                r@.len() == r_before.len() + c,
                forall|m: int| 0 <= m < r_before.len() ==> #[trigger] r@[m] == r_before[m],
                forall|m: int|
                    0 <= m < c ==> #[trigger] r@[r_before.len() + m] == (if f < planar@[m]@.len() {
                        planar@[m]@[f as int]
                    } else {
                        silence
                    }),
            decreases channels - c,
        {
            let chan = &planar[c];
            if f < chan.len() {
                r.push(chan[f]);
            } else {
                r.push(silence);
            }
            c = c + 1;
        }
        proof {
            assert forall|g: int, cc: int|
                0 <= g < f + 1 && 0 <= cc < channels implies #[trigger] r@[g * channels + cc]
                == (if g < planar@[cc]@.len() {
                planar@[cc]@[g]
            } else {
                silence
            }) by {
                if g < f {
                    assert(0 <= g * channels + cc < r_before.len()) by (nonlinear_arith)
                        requires
                            0 <= g < f,
                            0 <= cc < channels,
                            r_before.len() == f * channels,
                    ;
                    assert(r@[g * channels + cc] == r_before[g * channels + cc]);
                } else {
                    assert(g * channels + cc == r_before.len() + cc) by (nonlinear_arith)
                        requires
                            g == f,
                            r_before.len() == f * channels,
                    ;
                    assert(r@[r_before.len() + cc] == (if f < planar@[cc]@.len() {
                        planar@[cc]@[f as int]
                    } else {
                        silence
                    }));
                }
            }
        }
        f = f + 1;
    }
    r
}

/// The slice `v[from..upto]` padded with `fill` to exactly `len` elements:
/// how the resampler's final partial input block is completed.
#[verifier::loop_isolation(false)]
pub fn padded_block<T: Copy>(v: &Vec<T>, from: usize, upto: usize, len: usize, fill: T) -> (r: Vec<
    T,
>)
    requires
        from <= upto <= v@.len(),
        upto - from <= len,
    ensures
        r@.len() == len,
        forall|i: int|
            0 <= i < len ==> #[trigger] r@[i] == (if i < upto - from {
                v@[from + i]
            } else {
                fill
            }),
{
    let mut r: Vec<T> = Vec::new();
    let mut i: usize = from;
    while i < upto
        invariant
            from <= i <= upto,
            r@.len() == i - from,
            forall|m: int| 0 <= m < i - from ==> #[trigger] r@[m] == v@[from + m],
        decreases upto - i,
    {
        r.push(v[i]);
        i = i + 1;
    }
    while r.len() < len
        invariant
            upto - from <= r@.len() <= len,
            forall|m: int| 0 <= m < upto - from ==> #[trigger] r@[m] == v@[from + m],
            forall|m: int| upto - from <= m < r@.len() ==> #[trigger] r@[m] == fill,
        decreases len - r@.len(),
    {
        r.push(fill);
    }
    r
}


} // verus!
