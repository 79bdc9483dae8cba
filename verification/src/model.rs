//! Shared vocabulary of the pipeline: content kinds, output formats, the
//! job description, and the strategy traits the engine is assembled from.

use vstd::prelude::*;
use crate::text::{eq_ignore_case, matches_keyword, spec_trim, trim};

verus! {

/// What sort of material a job transcribes.
#[derive(Debug, Clone, Copy, PartialEq, Eq, Structural, Hash)]
pub enum Kind {
    Slides,
    Lecture,
    Document,
    Image,
    Video,
}

impl Kind {
    /// The lowercase wire name of the kind.
    pub fn as_str(&self) -> (r: &'static str)
        ensures
            r@ == spec_kind_name(*self),
    {
        proof {
            reveal_strlit("slides");
            reveal_strlit("lecture");
            reveal_strlit("document");
            reveal_strlit("image");
            reveal_strlit("video");
        }
        match self {
            Kind::Slides => "slides",
            Kind::Lecture => "lecture",
            Kind::Document => "document",
            Kind::Image => "image",
            Kind::Video => "video",
        }
    }
}

/// The wire name of each kind.
pub open spec fn spec_kind_name(k: Kind) -> Seq<char> {
    match k {
        Kind::Slides => "slides"@,
        Kind::Lecture => "lecture"@,
        Kind::Document => "document"@,
        Kind::Image => "image"@,
        Kind::Video => "video"@,
    }
}

/// The transcript's output language.
#[derive(Debug, Clone, Copy, PartialEq, Eq, Structural)]
pub enum OutputFormat {
    Markdown,
    Latex,
}

impl OutputFormat {
    /// Parse a format name, case-insensitively, accepting the short forms.
    pub fn from_str(value: &str) -> (r: Option<OutputFormat>)
        ensures
            r == spec_format_from(value@),
    {
        if eq_ignore_case(value, "markdown") || eq_ignore_case(value, "md") {
            Some(OutputFormat::Markdown)
        } else if eq_ignore_case(value, "latex") || eq_ignore_case(value, "tex") {
            Some(OutputFormat::Latex)
        } else {
            None
        }
    }

    /// The lowercase wire name of the format.
    pub fn as_str(&self) -> (r: &'static str)
        ensures
            r@ == spec_format_name(*self),
    {
        proof {
            reveal_strlit("markdown");
            reveal_strlit("latex");
        }
        match self {
            OutputFormat::Markdown => "markdown",
            OutputFormat::Latex => "latex",
        }
    }
}

/// Which format a name denotes, under ASCII case folding.
pub open spec fn spec_format_from(s: Seq<char>) -> Option<OutputFormat> {
    if matches_keyword(s, "markdown"@) || matches_keyword(s, "md"@) {
        Some(OutputFormat::Markdown)
    } else if matches_keyword(s, "latex"@) || matches_keyword(s, "tex"@) {
        Some(OutputFormat::Latex)
    } else {
        None
    }
}

/// The wire name of each format.
pub open spec fn spec_format_name(f: OutputFormat) -> Seq<char> {
    match f {
        OutputFormat::Markdown => "markdown"@,
        OutputFormat::Latex => "latex"@,
    }
}

/// How PDF sources are fed to the provider: as-is, as page images, or
/// chosen by capability.
#[derive(Debug, Clone, Copy, PartialEq, Eq, Structural)]
pub enum PdfMode {
    Auto,
    Images,
    Pdf,
}

/// Where a source came from.
#[derive(Debug, Clone, Copy, PartialEq, Eq, Structural)]
pub enum SourceKind {
    Local,
    Url,
    Youtube,
    Drive,
}

/// One transcription job, fully resolved from the command line, the
/// configuration file and the chosen preset.
#[derive(Debug, Clone)]
pub struct Job {
    pub source: String,
    pub job_label: String,
    pub job_id: String,
    pub job_index: usize,
    pub job_total: usize,
    pub recursive: bool,
    pub kind: Option<Kind>,
    pub pdf_mode: PdfMode,
    pub output_dir: Option<String>,
    pub model: String,
    pub preset: Option<String>,
    pub export: Vec<String>,
    pub format: OutputFormat,
    pub skip_existing: bool,
    pub media_resolution: Option<String>,
    pub save_full_response: bool,
    pub save_intermediates: bool,
    pub save_metadata: bool,
    pub max_workers: usize,
    pub max_video_workers: usize,
    pub pdf_dpi: u32,
}

/// Parse a kind name, case-insensitively; anything unknown is no kind.
pub fn parse_kind(input: &str) -> (r: Option<Kind>)
    ensures
        r == spec_parse_kind(input@),
{
    if eq_ignore_case(input, "slides") {
        Some(Kind::Slides)
    } else if eq_ignore_case(input, "lecture") {
        Some(Kind::Lecture)
    } else if eq_ignore_case(input, "document") {
        Some(Kind::Document)
    } else if eq_ignore_case(input, "image") {
        Some(Kind::Image)
    } else if eq_ignore_case(input, "video") {
        Some(Kind::Video)
    } else {
        None
    }
}

/// Which kind a name denotes, under ASCII case folding.
pub open spec fn spec_parse_kind(s: Seq<char>) -> Option<Kind> {
    if matches_keyword(s, "slides"@) {
        Some(Kind::Slides)
    } else if matches_keyword(s, "lecture"@) {
        Some(Kind::Lecture)
    } else if matches_keyword(s, "document"@) {
        Some(Kind::Document)
    } else if matches_keyword(s, "image"@) {
        Some(Kind::Image)
    } else if matches_keyword(s, "video"@) {
        Some(Kind::Video)
    } else {
        None
    }
}

/// Parse a PDF mode name; anything unknown falls back to automatic.
pub fn parse_pdf_mode(input: &str) -> (r: PdfMode)
    ensures
        r == spec_parse_pdf_mode(input@),
{
    if eq_ignore_case(input, "images") {
        PdfMode::Images
    } else if eq_ignore_case(input, "pdf") {
        PdfMode::Pdf
    } else {
        PdfMode::Auto
    }
}

/// Which mode a name denotes, under ASCII case folding.
pub open spec fn spec_parse_pdf_mode(s: Seq<char>) -> PdfMode {
    if matches_keyword(s, "images"@) {
        PdfMode::Images
    } else if matches_keyword(s, "pdf"@) {
        PdfMode::Pdf
    } else {
        PdfMode::Auto
    }
}

/// The lowercase wire name of each PDF mode.
pub fn pdf_mode_to_str(mode: PdfMode) -> (r: &'static str)
    ensures
        r@ == spec_pdf_mode_name(mode),
{
    proof {
        reveal_strlit("auto");
        reveal_strlit("images");
        reveal_strlit("pdf");
    }
    match mode {
        PdfMode::Auto => "auto",
        PdfMode::Images => "images",
        PdfMode::Pdf => "pdf",
    }
}

/// The wire name of each PDF mode.
pub open spec fn spec_pdf_mode_name(m: PdfMode) -> Seq<char> {
    match m {
        PdfMode::Auto => "auto"@,
        PdfMode::Images => "images"@,
        PdfMode::Pdf => "pdf"@,
    }
}

/// Parse the accepted boolean spellings: "1", "true", "yes", "on", after
/// trimming and case folding; everything else is false.
pub fn parse_bool(value: &str) -> (r: bool)
    ensures
        r == spec_parse_bool(value@),
{
    let trimmed = trim(value);
    let t = trimmed.as_str();
    eq_ignore_case(t, "1") || eq_ignore_case(t, "true") || eq_ignore_case(t, "yes")
        || eq_ignore_case(t, "on")
}

/// The accepted truthy spellings.
pub open spec fn spec_parse_bool(s: Seq<char>) -> bool {
    let t = spec_trim(s);
    matches_keyword(t, "1"@) || matches_keyword(t, "true"@) || matches_keyword(t, "yes"@)
        || matches_keyword(t, "on"@)
}

/// The meta facts the pipeline reads off one asset. The ingestion layer
/// fills what it knows; everything else stays absent.
#[derive(Debug, Clone)]
pub struct AssetMeta {
    pub chunk_index: Option<u64>,
    pub chunk_total: Option<u64>,
    pub chunk_start_ms: Option<u64>,
    pub chunk_end_ms: Option<u64>,
    pub manifest_path: Option<String>,
    pub pass_through: Option<bool>,
    pub source_url: Option<String>,
    pub inline_bytes: Option<String>,
    pub upload_cache_key: Option<String>,
    pub file_uri: Option<String>,
    pub page_total: Option<u64>,
    pub slug: Option<String>,
    pub downloaded: Option<bool>,
}

impl AssetMeta {
    /// A meta record with nothing known.
    pub fn empty() -> (m: AssetMeta)
        ensures
            m.chunk_index is None,
            m.chunk_total is None,
            m.chunk_start_ms is None,
            m.chunk_end_ms is None,
            m.manifest_path is None,
            m.pass_through is None,
            m.source_url is None,
            m.inline_bytes is None,
            m.upload_cache_key is None,
            m.file_uri is None,
            m.page_total is None,
            m.slug is None,
            m.downloaded is None,
    {
        AssetMeta {
            chunk_index: None,
            chunk_total: None,
            chunk_start_ms: None,
            chunk_end_ms: None,
            manifest_path: None,
            pass_through: None,
            source_url: None,
            inline_bytes: None,
            upload_cache_key: None,
            file_uri: None,
            page_total: None,
            slug: None,
            downloaded: None,
        }
    }
}

/// One piece of media handed from the ingestion layer to the pipeline.
#[derive(Debug, Clone)]
pub struct Asset {
    pub path: String,
    pub media: String,
    pub page_index: Option<u32>,
    pub source_kind: SourceKind,
    pub mime: Option<String>,
    pub meta: AssetMeta,
}

/// How a job's prompt is produced: a preamble for the output document and
/// the instruction sent with the media.
pub trait PromptStrategy {
    fn preamble(&self, format: OutputFormat) -> String;

    fn instruction(&self, format: OutputFormat, preamble: &str) -> String;
}

} // verus!
