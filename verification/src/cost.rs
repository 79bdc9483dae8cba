//! Token accounting for completed requests: which modality a request is
//! billed under, and how missing token counts are reconstructed from the
//! ones the response did report. The money arithmetic itself lives with
//! the reporting shell.

use vstd::prelude::*;
use crate::telemetry::RequestEvent;
use crate::text::str_eq;

verus! {

/// Which price column a request is billed under.
#[derive(Debug, Clone, Copy, PartialEq, Eq, Structural)]
pub enum PriceKey {
    Text,
    AudioVideo,
}

/// Synthetic bookkeeping modalities that must never be billed.
pub open spec fn spec_skip_modality(m: Seq<char>) -> bool {
    m == "video_token_count"@
}

/// Should this modality be left out of cost estimation altogether?
pub fn should_skip_modality(modality: &str) -> (r: bool)
    ensures
        r == spec_skip_modality(modality@),
{
    str_eq(modality, "video_token_count")
}

/// The price column of a modality: video is billed as audio/video,
/// everything else as text.
pub open spec fn spec_price_key(m: Seq<char>) -> PriceKey {
    if m == "video"@ {
        PriceKey::AudioVideo
    } else {
        PriceKey::Text
    }
}

/// The price column of a modality.
pub fn modality_price_key(modality: &str) -> (r: PriceKey)
    ensures
        r == spec_price_key(modality@),
{
    if str_eq(modality, "video") {
        PriceKey::AudioVideo
    } else {
        PriceKey::Text
    }
}

/// The input tokens of an event: the reported count, or total minus output
/// when both of those are known and do not contradict each other.
pub open spec fn spec_input_tokens(e: RequestEvent) -> Option<u32> {
    if e.input_tokens is Some {
        e.input_tokens
    } else if e.total_tokens is Some && e.output_tokens is Some {
        if e.output_tokens->0 <= e.total_tokens->0 {
            Some((e.total_tokens->0 - e.output_tokens->0) as u32)
        } else {
            None
        }
    } else {
        None
    }
}

/// The output tokens of an event: the reported count, total minus input
/// when both are known and consistent, or the bare total as a last resort.
pub open spec fn spec_output_tokens(e: RequestEvent) -> Option<u32> {
    if e.output_tokens is Some {
        e.output_tokens
    } else if e.total_tokens is Some && e.input_tokens is Some {
        if e.input_tokens->0 <= e.total_tokens->0 {
            Some((e.total_tokens->0 - e.input_tokens->0) as u32)
        } else {
            None
        }
    } else {
        e.total_tokens
    }
}

/// The input tokens of an event, reconstructed where possible.
pub fn determine_input_tokens(event: &RequestEvent) -> (r: Option<u32>)
    ensures
        r == spec_input_tokens(*event),
{
    if let Some(value) = event.input_tokens {
        return Some(value);
    }
    if let (Some(total), Some(output)) = (event.total_tokens, event.output_tokens) {
        return if output <= total {
            Some(total - output)
        } else {
            None
        };
    }
    None
}

/// The output tokens of an event, reconstructed where possible.
pub fn determine_output_tokens(event: &RequestEvent) -> (r: Option<u32>)
    ensures
        r == spec_output_tokens(*event),
{
    if let Some(value) = event.output_tokens {
        return Some(value);
    }
    if let (Some(total), Some(input)) = (event.total_tokens, event.input_tokens) {
        return if input <= total {
            Some(total - input)
        } else {
            None
        };
    }
    event.total_tokens
}

/// A fallback estimate when a video event reported no usage at all: the
/// segment's length times the stock tokens-per-second rate; any other
/// modality estimates zero.
pub open spec fn spec_estimated_tokens(e: RequestEvent) -> int {
    if e.modality@ != "video"@ {
        0
    } else if e.chunk_start_ms is Some && e.chunk_end_ms is Some && e.chunk_start_ms->0
        < e.chunk_end_ms->0 {
        let span_ms = e.chunk_end_ms->0 - e.chunk_start_ms->0;
        let estimate = span_ms * crate::constants::DEFAULT_TOKENS_PER_SECOND as int / 1000;
        if estimate <= u32::MAX {
            estimate
        } else {
            u32::MAX as int
        }
    } else {
        0
    }
}

/// The fallback token estimate of one event.
pub fn estimate_tokens(event: &RequestEvent) -> (r: u32)
    ensures
        r as int == spec_estimated_tokens(*event),
{
    if !str_eq(event.modality.as_str(), "video") {
        return 0;
    }
    let (start, end) = match (event.chunk_start_ms, event.chunk_end_ms) {
        (Some(s), Some(e)) => (s, e),
        _ => {
            return 0;
        },
    };
    if start >= end {
        return 0;
    }
    let span: u64 = end - start;
    proof {
        vstd::arithmetic::mul::lemma_mul_upper_bound(
            span as int,
            u64::MAX as int,
            crate::constants::DEFAULT_TOKENS_PER_SECOND as int,
            1000,
        );
    }
    let scaled: u128 = (span as u128) * (crate::constants::DEFAULT_TOKENS_PER_SECOND as u128)
        / 1000;
    if scaled <= u32::MAX as u128 {
        scaled as u32
    } else {
        u32::MAX
    }
}

} // verus!
