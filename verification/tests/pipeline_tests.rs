use recapit::config::{builtin_presets, parse_workers, resolve_media_resolution};
use recapit::conversion::{extract_text, latex_to_markdown_body, to_json_body};
use recapit::encoder::{
    auto_preference_order, encoder_spec, parse_encoder_line, select_encoder_chain, Platform,
    VideoEncoderPreference,
};
use recapit::media::{extension_lower, file_name, guess_mime, infer_media, media_for_extension};
use recapit::model::{Asset, AssetMeta, Kind, OutputFormat, SourceKind};
use recapit::parts::{
    cache_key, encode_base64, part_for_asset, resolve_mime, AssetPart, CachedUpload,
    PartDecision,
};
use recapit::pdf::{page_count, parse_pdftoppm_page_number};
use recapit::prompts::{build_prompt_strategies, TemplatePromptStrategy};
use recapit::model::PromptStrategy;
use recapit::render::{
    distribute_round_robin, format_timestamp, latex_document, markdown_document, paragraphs_of,
    split_text, SubtitleExporter, SubtitleFormat,
};
use recapit::templates::{TemplateEntry, TemplateLoader};
use recapit::utils::{slugify, truncate_status};
use recapit::youtube::{parse_url, YouTubeIngestor};

#[test]
fn slugs_keep_word_characters_and_trim_dashes() {
    assert_eq!(slugify("a b!c"), "a-b-c");
    assert_eq!(slugify("--x--"), "x");
    assert_eq!(slugify("My Lecture 01.mp4"), "My-Lecture-01.mp4");
    assert_eq!(slugify("___"), "___");
}

#[test]
fn status_lines_truncate_with_ellipsis() {
    assert_eq!(truncate_status("short", 10), "short");
    assert_eq!(truncate_status("a longer status line", 10), "a longe...");
    assert_eq!(truncate_status("abcdef", 3), "abc");
    assert_eq!(truncate_status("abcdef", 0), "");
}

#[test]
fn path_model_extracts_names_and_extensions() {
    assert_eq!(file_name("/a/b/c.txt"), "c.txt");
    assert_eq!(file_name("plain"), "plain");
    assert_eq!(extension_lower("/x/REPORT.PDF").as_deref(), Some("pdf"));
    assert_eq!(extension_lower("/x/noext"), None);
    assert_eq!(extension_lower("/x/.hidden"), None);
}

#[test]
fn media_classification_by_extension() {
    assert_eq!(media_for_extension("mp4").unwrap(), "video");
    assert_eq!(media_for_extension("tiff").unwrap(), "image");
    assert_eq!(media_for_extension("txt"), None);
    assert_eq!(infer_media("clip.MOV"), "video");
    assert_eq!(infer_media("song.mp3"), "audio");
    assert_eq!(infer_media("mystery.bin"), "pdf");
    assert_eq!(guess_mime("doc.pdf"), "application/pdf");
    assert_eq!(guess_mime("img.jpeg"), "image/jpeg");
    assert_eq!(guess_mime("weird.xyz"), "application/octet-stream");
}

#[test]
fn rasterizer_page_numbers_hide_in_the_stem() {
    assert_eq!(parse_pdftoppm_page_number("out/slides-07.png"), Some(7));
    assert_eq!(parse_pdftoppm_page_number("out/slides-12.png"), Some(12));
    assert_eq!(parse_pdftoppm_page_number("out/nodash.png"), None);
    assert_eq!(parse_pdftoppm_page_number("out/slides-x.png"), None);
}

#[test]
fn page_count_reads_the_info_listing() {
    let listing = "Title: demo\nAuthor: someone\nPages: 12\nEncrypted: no\n";
    assert_eq!(page_count(listing), Some(12));
    assert_eq!(page_count("nothing here"), None);
}

#[test]
fn encoder_preferences_parse_loosely() {
    assert_eq!(
        VideoEncoderPreference::parse(Some(" NVENC ")),
        Some(VideoEncoderPreference::Nvenc)
    );
    assert_eq!(VideoEncoderPreference::parse(None), Some(VideoEncoderPreference::Auto));
    assert_eq!(VideoEncoderPreference::parse(Some("")), Some(VideoEncoderPreference::Auto));
    assert_eq!(VideoEncoderPreference::parse(Some("weird")), None);
}

#[test]
fn encoder_chains_end_with_the_cpu_fallback() {
    let supported = vec![String::from("h264_nvenc"), String::from("libx264")];
    let chain = select_encoder_chain(VideoEncoderPreference::Auto, Platform::Other, &supported);
    assert_eq!(chain.len(), 2);
    assert_eq!(chain[0].preference, VideoEncoderPreference::Nvenc);
    assert_eq!(chain[1].preference, VideoEncoderPreference::Cpu);
    // nothing probed: the software encoder still closes the chain
    let bare = select_encoder_chain(VideoEncoderPreference::Vaapi, Platform::Other, &vec![]);
    assert_eq!(bare.len(), 1);
    assert_eq!(bare[0].preference, VideoEncoderPreference::Cpu);
    let order = auto_preference_order(Platform::MacOs);
    assert_eq!(order[0], VideoEncoderPreference::Videotoolbox);
    let cpu = encoder_spec(VideoEncoderPreference::Cpu).unwrap();
    assert_eq!(cpu.codec, "libx264");
    assert!(!cpu.accelerated);
}

#[test]
fn encoder_listing_lines_parse() {
    assert_eq!(
        parse_encoder_line(" V....D libx264              H.264").as_deref(),
        Some("libx264")
    );
    assert_eq!(parse_encoder_line("Encoders:"), None);
    assert_eq!(parse_encoder_line(" ------"), None);
    assert_eq!(parse_encoder_line(""), None);
}

#[test]
fn templates_prefer_overrides_and_fill_the_marker() {
    let entries = vec![TemplateEntry {
        name: String::from("video-prompt.txt"),
        contents: String::from("{{PREAMBLE}}::custom"),
    }];
    let loader = TemplateLoader::new(entries);
    let strategy = TemplatePromptStrategy::new(loader, Kind::Video);
    let instruction = strategy.instruction(OutputFormat::Markdown, "HEAD");
    assert_eq!(instruction, "HEAD::custom");
    // without an override the built-in prompt is used, marker filled
    let fallback = TemplatePromptStrategy::new(TemplateLoader::new(vec![]), Kind::Slides);
    let text = fallback.instruction(OutputFormat::Markdown, "P");
    assert!(text.starts_with("P\n"));
    assert!(!text.contains("{{PREAMBLE}}"));
    let strategies = build_prompt_strategies(&TemplateLoader::new(vec![]));
    assert_eq!(strategies.len(), 5);
    assert_eq!(strategies[0].0, Kind::Slides);
}

#[test]
fn documents_assemble_with_separators_and_closings() {
    assert_eq!(markdown_document("", "body  "), "body\n");
    assert_eq!(markdown_document("# head", "body"), "# head\n\nbody\n");
    assert_eq!(markdown_document("# head\n", "body"), "# head\n\nbody\n");
    let latex = latex_document("\\begin{document}", "text");
    assert_eq!(latex, "\\begin{document}\ntext\n\\end{document}\n");
    let closed = latex_document("\\begin{document}\n", "text\\end{document}");
    assert_eq!(closed, "\\begin{document}\ntext\\end{document}");
}

#[test]
fn subtitle_timestamps_pad_every_field() {
    assert_eq!(format_timestamp(3_661_001, SubtitleFormat::Srt), "01:01:01,001");
    assert_eq!(format_timestamp(59_999, SubtitleFormat::Vtt), "00:00:59.999");
    let exporter = SubtitleExporter::new();
    assert_eq!(exporter.applies(" SRT "), Some(SubtitleFormat::Srt));
    assert_eq!(exporter.applies("vtt"), Some(SubtitleFormat::Vtt));
    assert_eq!(exporter.applies("ass"), None);
}

#[test]
fn transcripts_split_round_robin_over_segments() {
    let split = split_text("a\n\nb\n\nc", 2);
    assert_eq!(split, vec!["a\n\nc", "b"]);
    let single = split_text("a\n\nb", 1);
    assert_eq!(single, vec!["a\n\nb"]);
    let empty = split_text("   ", 3);
    assert_eq!(empty, vec!["", "", ""]);
}

#[test]
fn conversion_bodies_frame_the_source() {
    assert_eq!(
        latex_to_markdown_body("P", "\\section{x}").unwrap(),
        "Instructions:\nP\n\nLaTeX:\n\\section{x}"
    );
    assert_eq!(latex_to_markdown_body("P", "   "), None);
    assert_eq!(to_json_body("P", "x |"), Some(String::from("Instructions:\nP\n\n```\nx |\n```")));
    assert_eq!(
        extract_text(&vec![String::from("a"), String::from("b")]).unwrap(),
        "a\nb"
    );
    assert_eq!(extract_text(&vec![]), None);
}

#[test]
fn inline_payloads_encode_as_base64() {
    let asset = Asset {
        path: String::from("seg.mp4"),
        media: String::from("video"),
        page_index: None,
        source_kind: SourceKind::Local,
        mime: Some(String::from("video/mp4")),
        meta: AssetMeta::empty(),
    };
    let bytes = vec![b'a', b'b', b'c'];
    assert_eq!(encode_base64(&bytes), "YWJj");
    let decision = part_for_asset(&asset, Some(&bytes), None);
    let PartDecision::Ready { part: AssetPart::InlineData { data, mime_type } } = decision else {
        panic!("expected an inline part");
    };
    assert_eq!(data, "YWJj");
    assert_eq!(mime_type, "video/mp4");
}

#[test]
fn large_uncached_payloads_need_an_upload() {
    let asset = Asset {
        path: String::from("seg.mp4"),
        media: String::from("video"),
        page_index: None,
        source_kind: SourceKind::Local,
        mime: Some(String::from("video/mp4")),
        meta: AssetMeta::empty(),
    };
    let decision = part_for_asset(&asset, None, None);
    assert!(matches!(decision, PartDecision::NeedsUpload { .. }));
    let cached = CachedUpload {
        uri: String::from("files/777"),
        mime_type: String::from("video/mp4"),
        name: None,
    };
    let decision = part_for_asset(&asset, None, Some(&cached));
    let PartDecision::Ready { part: AssetPart::FileData { file_uri, .. } } = decision else {
        panic!("expected the cached upload to be reused");
    };
    assert_eq!(file_uri, "files/777");
}

#[test]
fn cache_keys_are_hex_sha256() {
    let key = cache_key(&b"abc".to_vec());
    assert_eq!(key, "ba7816bf8f01cfea414140de5dae2223b00361a396177a9cb410ff61f20015ad");
    assert_eq!(key.len(), 64);
}

#[test]
fn video_urls_are_recognized() {
    let ingestor = YouTubeIngestor::new();
    let direct = parse_url("https://www.youtube.com/watch?v=abc").unwrap();
    assert!(ingestor.supports(&direct));
    // a bare host name parses through the https fallback
    let bare = parse_url("youtu.be/abc").unwrap();
    assert!(ingestor.supports(&bare));
    let other = parse_url("https://example.com/v.mp4").unwrap();
    assert!(!ingestor.supports(&other));
}

#[test]
fn configuration_values_resolve() {
    assert_eq!(resolve_media_resolution(Some("LOW")).as_deref(), Some("low"));
    assert_eq!(resolve_media_resolution(None).as_deref(), Some("default"));
    assert_eq!(resolve_media_resolution(Some("")).as_deref(), Some("default"));
    assert_eq!(resolve_media_resolution(Some("ultra")), None);
    let values = vec![String::from("x"), String::from("0"), String::from("6")];
    assert_eq!(parse_workers(&values, 4), 6);
    assert_eq!(parse_workers(&vec![], 4), 4);
    let presets = builtin_presets();
    assert_eq!(presets.len(), 3);
    assert_eq!(presets[1].name, "speed");
}

#[test]
fn mime_resolution_prefers_the_asset_then_the_path() {
    let mut asset = Asset {
        path: String::from("frame.png"),
        media: String::from("image"),
        page_index: None,
        source_kind: SourceKind::Local,
        mime: None,
        meta: AssetMeta::empty(),
    };
    // the extension table must answer, not echo the input back
    assert_eq!(resolve_mime(&asset), "image/png");
    asset.mime = Some(String::from("image/x-custom"));
    assert_eq!(resolve_mime(&asset), "image/x-custom");
    asset.mime = None;
    asset.path = String::from("payload.unknownext");
    assert_eq!(resolve_mime(&asset), "application/octet-stream");
}

#[test]
fn slugs_keep_unicode_letters() {
    assert_eq!(slugify("caf\u{e9} session"), "caf\u{e9}-session");
}

#[test]
fn paragraphs_split_at_blank_lines_and_trim() {
    let paras = paragraphs_of("first line\nsecond line\n\n  third  \n\n\n");
    assert_eq!(paras, vec!["first line\nsecond line", "third"]);
    assert_eq!(paragraphs_of("   \n \n"), Vec::<String>::new());
}

#[test]
fn round_robin_deals_in_order() {
    let paras = vec![
        String::from("a"),
        String::from("b"),
        String::from("c"),
        String::from("d"),
        String::from("e"),
    ];
    let slots = distribute_round_robin(&paras, 3);
    assert_eq!(slots, vec!["a\n\nd", "b\n\ne", "c"]);
}
