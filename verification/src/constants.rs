//! The model tables: what each provider model can ingest and the
//! provider-imposed per-minute request and token ceilings, plus the
//! engine's stock defaults.

use vstd::prelude::*;

verus! {

pub const GEMINI_2_5_FLASH: &'static str = "gemini-2.5-flash";

pub const GEMINI_2_5_FLASH_LITE: &'static str = "gemini-2.5-flash-lite";

pub const GEMINI_2_5_PRO: &'static str = "gemini-2.5-pro";

pub const GEMINI_3_PRO_PREVIEW: &'static str = "gemini-3-pro-preview";

pub const DEFAULT_MODEL: &'static str = "gemini-3-pro-preview";

pub const DEFAULT_VIDEO_TOKEN_LIMIT: u32 = 300_000;

pub const DEFAULT_VIDEO_TOKENS_PER_SECOND: u64 = 300;

pub const DEFAULT_MAX_WORKERS: usize = 4;

pub const DEFAULT_MAX_VIDEO_WORKERS: usize = 3;

pub const DEFAULT_PDF_DPI: u32 = 200;

pub const DEFAULT_MAX_CHUNK_SECONDS: u64 = 7_200;

pub const DEFAULT_MAX_CHUNK_BYTES: u64 = 500 * 1024 * 1024;

pub const DEFAULT_TOKENS_PER_SECOND: u64 = 300;

/// The modalities each model accepts.
pub fn model_capabilities() -> (r: Vec<(&'static str, Vec<&'static str>)>)
    ensures
        r@.len() == 4,
        r@[0].0@ == GEMINI_2_5_FLASH@ && r@[0].1.deep_view() =~= seq![
            "text"@,
            "image"@,
            "audio"@,
            "video"@,
        ],
        r@[1].0@ == GEMINI_2_5_FLASH_LITE@ && r@[1].1.deep_view() =~= seq![
            "text"@,
            "image"@,
            "audio"@,
            "video"@,
            "pdf"@,
        ],
        r@[2].0@ == GEMINI_2_5_PRO@ && r@[2].1.deep_view() =~= seq![
            "text"@,
            "image"@,
            "audio"@,
            "video"@,
            "pdf"@,
        ],
        r@[3].0@ == GEMINI_3_PRO_PREVIEW@ && r@[3].1.deep_view() =~= seq![
            "text"@,
            "image"@,
            "audio"@,
            "video"@,
            "pdf"@,
        ],
{
    let mut flash: Vec<&'static str> = Vec::new();
    flash.push("text");
    flash.push("image");
    flash.push("audio");
    flash.push("video");
    let mut flash_lite: Vec<&'static str> = Vec::new();
    flash_lite.push("text");
    flash_lite.push("image");
    flash_lite.push("audio");
    flash_lite.push("video");
    flash_lite.push("pdf");
    let mut pro: Vec<&'static str> = Vec::new();
    pro.push("text");
    pro.push("image");
    pro.push("audio");
    pro.push("video");
    pro.push("pdf");
    let mut preview: Vec<&'static str> = Vec::new();
    preview.push("text");
    preview.push("image");
    preview.push("audio");
    preview.push("video");
    preview.push("pdf");
    let mut table: Vec<(&'static str, Vec<&'static str>)> = Vec::new();
    table.push((GEMINI_2_5_FLASH, flash));
    table.push((GEMINI_2_5_FLASH_LITE, flash_lite));
    table.push((GEMINI_2_5_PRO, pro));
    table.push((GEMINI_3_PRO_PREVIEW, preview));
    table
}

/// The provider's requests-per-minute ceiling per model.
pub fn rate_limits_per_minute() -> (r: Vec<(&'static str, u32)>)
    ensures
        r@.len() == 4,
        r@[0].0@ == GEMINI_3_PRO_PREVIEW@ && r@[0].1 == 50,
        r@[1].0@ == GEMINI_2_5_PRO@ && r@[1].1 == 150,
        r@[2].0@ == GEMINI_2_5_FLASH@ && r@[2].1 == 1_000,
        r@[3].0@ == GEMINI_2_5_FLASH_LITE@ && r@[3].1 == 4_000,
{
    let mut table: Vec<(&'static str, u32)> = Vec::new();
    table.push((GEMINI_3_PRO_PREVIEW, 50));
    table.push((GEMINI_2_5_PRO, 150));
    table.push((GEMINI_2_5_FLASH, 1_000));
    table.push((GEMINI_2_5_FLASH_LITE, 4_000));
    table
}

/// The provider's tokens-per-minute ceiling per model.
pub fn token_limits_per_minute() -> (r: Vec<(&'static str, u32)>)
    ensures
        r@.len() == 4,
        r@[0].0@ == GEMINI_3_PRO_PREVIEW@ && r@[0].1 == 1_000_000,
        r@[1].0@ == GEMINI_2_5_PRO@ && r@[1].1 == 2_000_000,
        r@[2].0@ == GEMINI_2_5_FLASH@ && r@[2].1 == 1_000_000,
        r@[3].0@ == GEMINI_2_5_FLASH_LITE@ && r@[3].1 == 4_000_000,
{
    let mut table: Vec<(&'static str, u32)> = Vec::new();
    table.push((GEMINI_3_PRO_PREVIEW, 1_000_000));
    table.push((GEMINI_2_5_PRO, 2_000_000));
    table.push((GEMINI_2_5_FLASH, 1_000_000));
    table.push((GEMINI_2_5_FLASH_LITE, 4_000_000));
    table
}

} // verus!
