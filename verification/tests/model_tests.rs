use recapit::constants::{model_capabilities, rate_limits_per_minute, token_limits_per_minute};
use recapit::cost::{
    determine_input_tokens, determine_output_tokens, estimate_tokens, modality_price_key,
    should_skip_modality, PriceKey,
};
use recapit::engine::{counts_summary, infer_kind, modality_for, pluralize};
use recapit::model::{
    parse_bool, parse_kind, parse_pdf_mode, pdf_mode_to_str, Asset, AssetMeta, Kind, OutputFormat,
    PdfMode, SourceKind,
};
use recapit::engine::estimate_page_total;
use recapit::progress::ProgressStage;
use recapit::telemetry::{RequestEvent, RunMonitor};

fn asset(media: &str) -> Asset {
    Asset {
        path: String::from("input"),
        media: String::from(media),
        page_index: None,
        source_kind: SourceKind::Local,
        mime: None,
        meta: AssetMeta::empty(),
    }
}

fn event(
    input: Option<u32>,
    output: Option<u32>,
    total: Option<u32>,
    modality: &str,
) -> RequestEvent {
    RequestEvent {
        model: String::from("model-a"),
        modality: String::from(modality),
        started_at_ms: 1_000,
        finished_at_ms: 3_500,
        input_tokens: input,
        output_tokens: output,
        total_tokens: total,
        chunk_index: None,
        chunk_start_ms: None,
        chunk_end_ms: None,
        file_uri: None,
        retries: 0,
    }
}

#[test]
fn kind_names_round_trip() {
    assert_eq!(Kind::Slides.as_str(), "slides");
    assert_eq!(Kind::Video.as_str(), "video");
    assert_eq!(parse_kind("LECTURE"), Some(Kind::Lecture));
    assert_eq!(parse_kind("document"), Some(Kind::Document));
    assert_eq!(parse_kind("unknown"), None);
}

#[test]
fn output_format_parses_short_forms() {
    assert_eq!(OutputFormat::from_str("markdown"), Some(OutputFormat::Markdown));
    assert_eq!(OutputFormat::from_str("MD"), Some(OutputFormat::Markdown));
    assert_eq!(OutputFormat::from_str("tex"), Some(OutputFormat::Latex));
    assert_eq!(OutputFormat::from_str("html"), None);
    assert_eq!(OutputFormat::Latex.as_str(), "latex");
}

#[test]
fn pdf_modes_default_to_auto() {
    assert_eq!(parse_pdf_mode("images"), PdfMode::Images);
    assert_eq!(parse_pdf_mode("PDF"), PdfMode::Pdf);
    assert_eq!(parse_pdf_mode("whatever"), PdfMode::Auto);
    assert_eq!(pdf_mode_to_str(PdfMode::Images), "images");
}

#[test]
fn truthy_spellings() {
    assert!(parse_bool("1"));
    assert!(parse_bool(" true "));
    assert!(parse_bool("YES"));
    assert!(parse_bool("on"));
    assert!(!parse_bool("0"));
    assert!(!parse_bool("off"));
    assert!(!parse_bool(""));
}

#[test]
fn model_tables_hold_the_published_limits() {
    let rates = rate_limits_per_minute();
    assert_eq!(rates[0], ("gemini-3-pro-preview", 50));
    assert_eq!(rates[3], ("gemini-2.5-flash-lite", 4_000));
    let tokens = token_limits_per_minute();
    assert_eq!(tokens[1], ("gemini-2.5-pro", 2_000_000));
    let caps = model_capabilities();
    assert_eq!(caps.len(), 4);
    assert!(caps[0].1 == vec!["text", "image", "audio", "video"]);
    assert!(caps[2].1.contains(&"pdf"));
}

#[test]
fn kind_and_modality_inference() {
    assert_eq!(infer_kind(&vec![asset("video")]), Kind::Lecture);
    assert_eq!(infer_kind(&vec![asset("image")]), Kind::Slides);
    assert_eq!(infer_kind(&vec![asset("pdf")]), Kind::Document);
    assert_eq!(infer_kind(&vec![]), Kind::Document);
    assert_eq!(modality_for(&vec![asset("audio")]), "video");
    assert_eq!(modality_for(&vec![asset("pdf")]), "pdf");
    assert_eq!(modality_for(&vec![asset("image")]), "image");
}

#[test]
fn progress_summaries_pluralize() {
    assert_eq!(pluralize(1, "chunk"), "chunk");
    assert_eq!(pluralize(2, "chunk"), "chunks");
    assert_eq!(counts_summary(2, Some(3)), "2 chunks · 3 pages");
    assert_eq!(counts_summary(1, None), "1 chunk");
}

#[test]
fn token_counts_reconstruct_from_totals() {
    assert_eq!(determine_input_tokens(&event(Some(10), None, None, "pdf")), Some(10));
    assert_eq!(determine_input_tokens(&event(None, Some(4), Some(10), "pdf")), Some(6));
    assert_eq!(determine_input_tokens(&event(None, None, Some(10), "pdf")), None);
    assert_eq!(determine_output_tokens(&event(Some(4), None, Some(10), "pdf")), Some(6));
    assert_eq!(determine_output_tokens(&event(None, None, Some(10), "pdf")), Some(10));
}

#[test]
fn video_fallback_estimate_uses_segment_length() {
    let mut e = event(None, None, None, "video");
    e.chunk_start_ms = Some(10_000);
    e.chunk_end_ms = Some(20_000);
    // ten seconds at the stock three hundred tokens per second
    assert_eq!(estimate_tokens(&e), 3_000);
    e.modality = String::from("pdf");
    assert_eq!(estimate_tokens(&e), 0);
}

#[test]
fn bookkeeping_modalities_are_never_billed() {
    assert!(should_skip_modality("video_token_count"));
    assert!(!should_skip_modality("video"));
    assert!(matches!(modality_price_key("video"), PriceKey::AudioVideo));
    assert!(matches!(modality_price_key("pdf"), PriceKey::Text));
}

#[test]
fn event_durations_clamp_at_zero() {
    let e = event(None, None, None, "pdf");
    assert_eq!(e.duration_ms(), 2_500);
    let mut backwards = event(None, None, None, "pdf");
    backwards.finished_at_ms = 500;
    assert_eq!(backwards.duration_ms(), 0);
}

#[test]
fn run_monitor_tracks_event_bounds() {
    let mut monitor = RunMonitor::new();
    assert_eq!(monitor.first_started_ms(), None);
    monitor.record(event(None, None, Some(10), "pdf"));
    let mut earlier = event(None, None, None, "pdf");
    earlier.started_at_ms = 500;
    earlier.finished_at_ms = 9_000;
    monitor.record(earlier);
    assert_eq!(monitor.events().len(), 2);
    assert_eq!(monitor.first_started_ms(), Some(500));
    assert_eq!(monitor.last_finished_ms(), Some(9_000));
    monitor.note_event("retry", "attempt 1", 42);
    assert_eq!(monitor.notes().len(), 1);
    assert_eq!(monitor.notes()[0].name, "retry");
}

#[test]
fn page_totals_prefer_reported_counts() {
    let mut with_total = asset("pdf");
    with_total.meta.page_total = Some(9);
    assert_eq!(estimate_page_total(&vec![asset("pdf"), with_total]), Some(9));
    let mut page_a = asset("image");
    page_a.page_index = Some(0);
    let mut page_b = asset("image");
    page_b.page_index = Some(1);
    let mut page_dup = asset("image");
    page_dup.page_index = Some(0);
    assert_eq!(estimate_page_total(&vec![page_a, page_b, page_dup]), Some(2));
    assert_eq!(estimate_page_total(&vec![asset("pdf")]), None);
}

#[test]
fn progress_stages_have_labels() {
    assert_eq!(ProgressStage::Discover.label(), "discover");
    assert_eq!(ProgressStage::Write.label(), "write");
}
