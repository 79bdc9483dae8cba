//! Chunk planning: split a recording of known duration and size into
//! contiguous boundaries so that every chunk respects three independent
//! budgets (wall-clock seconds, bytes, tokens).

use vstd::prelude::*;
use vstd::string::StringExecFns;

verus! {

/// Probed facts about one media file. Durations are integer milliseconds.
#[derive(Debug, Clone)]
pub struct VideoMetadata {
    pub path: String,
    pub duration_ms: u64,
    pub size_bytes: u64,
    pub fps_millis: Option<u64>,
    pub width: Option<u32>,
    pub height: Option<u32>,
    pub video_codec: Option<String>,
    pub audio_codec: Option<String>,
    pub audio_sample_rate: Option<u32>,
}

/// One planned boundary: a half-open slice `[start_ms, end_ms)` of the
/// recording, except that a zero-length recording is the single pair (0, 0).
#[derive(Debug, Clone, Copy, PartialEq, Eq, Structural)]
pub struct ChunkBoundary {
    pub start_ms: u64,
    pub end_ms: u64,
}

/// The smallest step the planner will take: one second. A pathological
/// budget (for example a token allowance below one second's worth) is
/// clamped here rather than looping forever on ever-smaller chunks.
pub const MIN_STEP_MS: u64 = 1000;

/// The step every chunk advances by: the tightest of the three budgets,
/// floored at one second.
pub open spec fn spec_effective_step_ms(
    duration_ms: u64,
    size_bytes: u64,
    max_seconds_ms: u64,
    max_bytes: u64,
    token_limit: Option<u32>,
    tokens_per_second: u64,
) -> int {
    let by_time = max_seconds_ms as int;
    let with_bytes = if max_bytes > 0 && size_bytes > 0 && duration_ms > 0 {
        min_int(by_time, (max_bytes as int * duration_ms as int) / size_bytes as int)
    } else {
        by_time
    };
    let with_tokens = if token_limit is Some && tokens_per_second > 0 {
        min_int(with_bytes, (token_limit->0 as int * 1000) / tokens_per_second as int)
    } else {
        with_bytes
    };
    if with_tokens < MIN_STEP_MS as int {
        MIN_STEP_MS as int
    } else {
        with_tokens
    }
}

pub open spec fn min_int(a: int, b: int) -> int {
    if a <= b {
        a
    } else {
        b
    }
}

/// How many chunks a walk of `step` covers `duration` in: the rounded-up
/// quotient.
pub open spec fn spec_chunk_count(duration_ms: int, step_ms: int) -> int
    recommends
        duration_ms > 0,
        step_ms > 0,
{
    (duration_ms + step_ms - 1) / step_ms
}

/// The boundary at position `i` of a walk with the given step.
pub open spec fn spec_boundary_at(duration_ms: int, step_ms: int, i: int) -> ChunkBoundary {
    ChunkBoundary {
        start_ms: (i * step_ms) as u64,
        end_ms: min_int((i + 1) * step_ms, duration_ms) as u64,
    }
}

/// The contract every plan of a non-empty recording meets: the boundaries
/// are contiguous from zero, strictly advancing, and the final end equals
/// the recording's duration exactly.
pub open spec fn boundaries_cover(bs: Seq<ChunkBoundary>, duration_ms: u64) -> bool {
    &&& bs.len() > 0
    &&& bs[0].start_ms == 0
    &&& bs[bs.len() - 1].end_ms == duration_ms
    &&& forall|i: int| 0 <= i < bs.len() ==> #[trigger] bs[i].start_ms < bs[i].end_ms
    &&& forall|i: int|
        0 <= i < bs.len() - 1 ==> #[trigger] bs[i].end_ms == bs[i + 1].start_ms
}

/// A step of a whole walk never overshoots by more than one step, so the
/// count times the step brackets the duration.
proof fn lemma_count_bounds(duration_ms: int, step_ms: int)
    requires
        duration_ms > 0,
        step_ms > 0,
    ensures
        spec_chunk_count(duration_ms, step_ms) >= 1,
        (spec_chunk_count(duration_ms, step_ms) - 1) * step_ms < duration_ms,
        spec_chunk_count(duration_ms, step_ms) * step_ms >= duration_ms,
{
    let d = duration_ms;
    let s = step_ms;
    let n = spec_chunk_count(d, s);
    vstd::arithmetic::div_mod::lemma_fundamental_div_mod(d + s - 1, s);
    vstd::arithmetic::div_mod::lemma_remainder_upper(d + s - 1, s);
    vstd::arithmetic::div_mod::lemma_remainder_lower(d + s - 1, s);
    let r = (d + s - 1) % s;
    assert(d + s - 1 == s * n + r);
    assert(n >= 1 && (n - 1) * s < d && n * s >= d) by (nonlinear_arith)
        requires
            d > 0,
            s > 0,
            0 <= r < s,
            d + s - 1 == s * n + r,
    ;
}

/// Every boundary of the closed-form walk advances, and adjacent ones meet,
/// which is the coverage contract.
pub proof fn lemma_boundary_coverage(bs: Seq<ChunkBoundary>, duration_ms: u64, step_ms: u64)
    requires
        duration_ms > 0,
        step_ms > 0,
        bs.len() == spec_chunk_count(duration_ms as int, step_ms as int),
        forall|i: int|
            0 <= i < bs.len() ==> #[trigger] bs[i] == spec_boundary_at(
                duration_ms as int,
                step_ms as int,
                i,
            ),
    ensures
        boundaries_cover(bs, duration_ms),
{
    let d = duration_ms as int;
    let s = step_ms as int;
    let n = spec_chunk_count(d, s);
    lemma_count_bounds(d, s);
    assert forall|i: int| 0 <= i < n implies #[trigger] (i * s) < d by {
        vstd::arithmetic::mul::lemma_mul_inequality(i, n - 1, s);
        assert((n - 1) * s < d);
    }
    assert(bs[0] == spec_boundary_at(d, s, 0));
    assert(0 * s == 0) by (nonlinear_arith);
    assert(bs[0].start_ms == 0);
    assert(bs[n - 1] == spec_boundary_at(d, s, n - 1));
    assert(bs[n - 1].end_ms == min_int(n * s, d) as u64);
    assert(bs[n - 1].end_ms == duration_ms);
    assert forall|i: int| 0 <= i < n implies #[trigger] bs[i].start_ms < bs[i].end_ms by {
        assert(i * s < d);
        assert((i + 1) * s == i * s + s) by (nonlinear_arith);
        assert(i * s < min_int((i + 1) * s, d));
    }
    assert forall|i: int| 0 <= i < n - 1 implies #[trigger] bs[i].end_ms == bs[i + 1].start_ms by {
        assert((i + 1) * s < d) by {
            assert((i + 1) * s <= (n - 1) * s) by {
                vstd::arithmetic::mul::lemma_mul_inequality(i + 1, n - 1, s);
            }
        }
        assert(bs[i] == spec_boundary_at(d, s, i));
        assert(bs[i + 1] == spec_boundary_at(d, s, i + 1));
        assert(bs[i].end_ms == min_int((i + 1) * s, d) as u64);
    }
}

/// The tightest of the three per-chunk budgets, in milliseconds: wall-clock
/// cap always applies; the byte cap is converted through the recording's
/// own bytes-per-duration rate; a token allowance is converted through the
/// tokens-per-second rate. The result is floored at one second.
pub fn effective_step_ms(
    duration_ms: u64,
    size_bytes: u64,
    max_seconds_ms: u64,
    max_bytes: u64,
    token_limit: Option<u32>,
    tokens_per_second: u64,
) -> (step: u64)
    ensures
        step as int == spec_effective_step_ms(
            duration_ms,
            size_bytes,
            max_seconds_ms,
            max_bytes,
            token_limit,
            tokens_per_second,
        ),
        step >= MIN_STEP_MS,
{
    let mut effective: u64 = max_seconds_ms;
    if max_bytes > 0 && size_bytes > 0 && duration_ms > 0 {
        proof {
            vstd::arithmetic::mul::lemma_mul_upper_bound(
                max_bytes as int,
                u64::MAX as int,
                duration_ms as int,
                u64::MAX as int,
            );
        }
        let scaled: u128 = (max_bytes as u128) * (duration_ms as u128);
        let by_bytes: u128 = scaled / (size_bytes as u128);
        if by_bytes < effective as u128 {
            effective = by_bytes as u64;
        }
    }
    if let Some(limit) = token_limit {
        if tokens_per_second > 0 {
            let by_tokens: u64 = (limit as u64 * 1000) / tokens_per_second;
            if by_tokens < effective {
                effective = by_tokens;
            }
        }
    }
    if effective < MIN_STEP_MS {
        effective = MIN_STEP_MS;
    }
    effective
}

/// Plan the boundaries of one recording. A zero-length recording yields the
/// single degenerate pair (0, 0); otherwise the walk advances by the
/// effective step and the final boundary is clamped to the exact duration.
pub fn compute_chunk_boundaries(
    metadata: &VideoMetadata,
    max_seconds_ms: u64,
    max_bytes: u64,
    token_limit: Option<u32>,
    tokens_per_second: u64,
) -> (bounds: Vec<ChunkBoundary>)
    ensures
        metadata.duration_ms == 0 ==> bounds@ =~= seq![
            ChunkBoundary { start_ms: 0, end_ms: 0 },
        ],
        metadata.duration_ms > 0 ==> {
            let step = spec_effective_step_ms(
                metadata.duration_ms,
                metadata.size_bytes,
                max_seconds_ms,
                max_bytes,
                token_limit,
                tokens_per_second,
            );
            &&& bounds@.len() == spec_chunk_count(metadata.duration_ms as int, step)
            &&& forall|i: int|
                0 <= i < bounds@.len() ==> #[trigger] bounds@[i] == spec_boundary_at(
                    metadata.duration_ms as int,
                    step,
                    i,
                )
            &&& boundaries_cover(bounds@, metadata.duration_ms)
        },
{
    let duration = metadata.duration_ms;
    if duration == 0 {
        let mut bounds: Vec<ChunkBoundary> = Vec::new();
        bounds.push(ChunkBoundary { start_ms: 0, end_ms: 0 });
        return bounds;
    }
    let step = effective_step_ms(
        duration,
        metadata.size_bytes,
        max_seconds_ms,
        max_bytes,
        token_limit,
        tokens_per_second,
    );
    let ghost d = duration as int;
    let ghost s = step as int;
    let ghost n = spec_chunk_count(d, s);
    proof {
        lemma_count_bounds(d, s);
    }
    let mut bounds: Vec<ChunkBoundary> = Vec::new();
    let mut start: u64 = 0;
    proof {
        assert(0 * s == 0) by (nonlinear_arith);
    }
    while start < duration
        invariant
            0 < duration,
            0 < step,
            d == duration as int,
            s == step as int,
            n == spec_chunk_count(d, s),
            n >= 1,
            (n - 1) * s < d,
            n * s >= d,
            start <= duration,
            start < duration ==> start as int == bounds@.len() * s,
            start == duration ==> bounds@.len() == n,
            forall|i: int|
                0 <= i < bounds@.len() ==> #[trigger] bounds@[i] == spec_boundary_at(d, s, i),
        decreases duration - start,
    {
        let ghost k = bounds@.len() as int;
        proof {
            assert(start as int == k * s);
            assert((k + 1) * s == k * s + s) by (nonlinear_arith);
        }
        let end = if duration - start <= step {
            duration
        } else {
            start + step
        };
        proof {
            assert(end as int == min_int((k + 1) * s, d));
        }
        bounds.push(ChunkBoundary { start_ms: start, end_ms: end });
        proof {
            if end as int == d {
                // the walk is complete: a shorter walk could not reach d
                assert(k + 1 >= n) by {
                    if k + 1 < n {
                        vstd::arithmetic::mul::lemma_mul_inequality(k + 1, n - 1, s);
                        assert((k + 1) * s <= (n - 1) * s);
                        assert((n - 1) * s < d);
                        assert((k + 1) * s >= d);
                    }
                }
                assert(k + 1 <= n) by {
                    if k >= n {
                        vstd::arithmetic::mul::lemma_mul_inequality(n, k, s);
                        assert(n * s <= k * s);
                    }
                }
                assert(bounds@.len() == n);
            }
        }
        start = end;
    }
    proof {
        lemma_boundary_coverage(bounds@, duration, step);
    }
    bounds
}


/// One materialized segment of the recording.
#[derive(Debug, Clone)]
pub struct VideoChunk {
    pub index: usize,
    pub start_ms: u64,
    pub end_ms: u64,
    pub path: String,
}

/// A whole plan: the probed facts, the normalized file, and the segments.
#[derive(Debug, Clone)]
pub struct VideoChunkPlan {
    pub metadata: VideoMetadata,
    pub normalized_path: String,
    pub chunks: Vec<VideoChunk>,
}

/// The file one segment is extracted to:
/// `<stem>-chunk<index, two digits>.mp4`.
pub open spec fn spec_chunk_file_name(stem: Seq<char>, index: int) -> Seq<char> {
    stem + "-chunk"@ + crate::text::spec_dec2(index) + ".mp4"@
}

/// The file one segment is extracted to.
pub fn chunk_file_name(stem: &str, index: u64) -> (r: String)
    ensures
        r@ == spec_chunk_file_name(stem@, index as int),
{
    let mut out = <String as StringExecFns>::from_str(stem);
    out.append("-chunk");
    let digits = crate::text::u64_to_string2(index);
    out.append(digits.as_str());
    out.append(".mp4");
    out
}

/// Assemble the chunk list for a plan. One boundary means the normalized
/// file itself is the single segment; several mean one numbered segment
/// file per boundary, named after the stem, extracted later by the shell.
pub fn plan_video_chunks(
    metadata: &VideoMetadata,
    normalized_path: &str,
    bounds: &Vec<ChunkBoundary>,
    stem: &str,
) -> (chunks: Vec<VideoChunk>)
    requires
        bounds@.len() >= 1,
        bounds@.len() <= u64::MAX,
    ensures
        chunks@.len() == bounds@.len(),
        forall|i: int|
            0 <= i < chunks@.len() ==> {
                &&& (#[trigger] chunks@[i]).index == i
                &&& chunks@[i].start_ms == bounds@[i].start_ms
                &&& chunks@[i].end_ms == bounds@[i].end_ms
            },
        bounds@.len() == 1 ==> chunks@[0].path@ == normalized_path@,
        bounds@.len() > 1 ==> forall|i: int|
            0 <= i < chunks@.len() ==> (#[trigger] chunks@[i]).path@ == spec_chunk_file_name(
                stem@,
                i,
            ),
{
    let mut chunks: Vec<VideoChunk> = Vec::new();
    if bounds.len() == 1 {
        chunks.push(
            VideoChunk {
                index: 0,
                start_ms: bounds[0].start_ms,
                end_ms: bounds[0].end_ms,
                path: <String as StringExecFns>::from_str(normalized_path),
            },
        );
        return chunks;
    }
    let n = bounds.len();
    let mut i: usize = 0;
    while i < n
        invariant
            0 <= i <= n,
            n == bounds@.len(),
            n <= u64::MAX,
            chunks@.len() == i,
            forall|j: int|
                0 <= j < i ==> {
                    &&& (#[trigger] chunks@[j]).index == j
                    &&& chunks@[j].start_ms == bounds@[j].start_ms
                    &&& chunks@[j].end_ms == bounds@[j].end_ms
                    &&& chunks@[j].path@ == spec_chunk_file_name(stem@, j)
                },
        decreases n - i,
    {
        let path = chunk_file_name(stem, i as u64);
        chunks.push(
            VideoChunk {
                index: i,
                start_ms: bounds[i].start_ms,
                end_ms: bounds[i].end_ms,
                path,
            },
        );
        i += 1;
    }
    chunks
}

/// An ISO-8601 style duration, whole seconds: `PT<h>H<m>M<s>S`.
pub open spec fn spec_seconds_iso(total_seconds: int) -> Seq<char> {
    "PT"@ + crate::text::spec_dec(total_seconds / 3600) + "H"@ + crate::text::spec_dec(
        (total_seconds % 3600) / 60,
    ) + "M"@ + crate::text::spec_dec(total_seconds % 60) + "S"@
}

/// A millisecond reading rendered as an ISO-style duration of whole
/// seconds, rounded to the nearest second.
pub fn seconds_to_iso(value_ms: u64) -> (r: String)
    ensures
        r@ == spec_seconds_iso((value_ms + 500) as int / 1000),
{
    proof {
        vstd::arithmetic::div_mod::lemma_remainder_lower((value_ms + 500) as int, 1000);
        vstd::arithmetic::div_mod::lemma_remainder_upper((value_ms + 500) as int, 1000);
    }
    let total_seconds: u64 = (value_ms / 1000) + (if value_ms % 1000 >= 500 {
        1
    } else {
        0
    });
    proof {
        vstd::arithmetic::div_mod::lemma_fundamental_div_mod(value_ms as int, 1000);
        vstd::arithmetic::div_mod::lemma_fundamental_div_mod((value_ms + 500) as int, 1000);
        assert(total_seconds as int == (value_ms + 500) as int / 1000) by (nonlinear_arith)
            requires
                value_ms as int == 1000 * (value_ms as int / 1000) + (value_ms as int % 1000),
                (value_ms + 500) as int == 1000 * ((value_ms + 500) as int / 1000) + ((value_ms
                    + 500) as int % 1000),
                0 <= value_ms as int % 1000 < 1000,
                0 <= (value_ms + 500) as int % 1000 < 1000,
                total_seconds as int == value_ms as int / 1000 + (if value_ms as int % 1000 >= 500 {
                    1int
                } else {
                    0int
                }),
        ;
    }
    let hours = total_seconds / 3600;
    let minutes = (total_seconds % 3600) / 60;
    let seconds = total_seconds % 60;
    let mut out = <String as StringExecFns>::from_str("PT");
    let h = crate::text::u64_to_string(hours);
    out.append(h.as_str());
    out.append("H");
    let m = crate::text::u64_to_string(minutes);
    out.append(m.as_str());
    out.append("M");
    let s = crate::text::u64_to_string(seconds);
    out.append(s.as_str());
    out.append("S");
    out
}

} // verus!
