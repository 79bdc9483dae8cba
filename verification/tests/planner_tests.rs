use recapit::planner::{
    chunk_file_name, compute_chunk_boundaries, plan_video_chunks, seconds_to_iso, ChunkBoundary,
    VideoMetadata,
};

fn metadata(duration_ms: u64, size_bytes: u64) -> VideoMetadata {
    VideoMetadata {
        path: String::from("clip.mp4"),
        duration_ms,
        size_bytes,
        fps_millis: None,
        width: None,
        height: None,
        video_codec: None,
        audio_codec: None,
        audio_sample_rate: None,
    }
}

fn assert_covers(bounds: &[ChunkBoundary], duration_ms: u64) {
    assert!(!bounds.is_empty());
    assert_eq!(bounds[0].start_ms, 0);
    assert_eq!(bounds[bounds.len() - 1].end_ms, duration_ms);
    for window in bounds.windows(2) {
        assert_eq!(window[0].end_ms, window[1].start_ms);
    }
    for b in bounds {
        assert!(b.start_ms < b.end_ms);
    }
}

#[test]
fn boundary_coverage_holds_for_odd_durations() {
    // a duration that the step does not divide exactly
    let meta = metadata(10_000_500, 1_000);
    let bounds = compute_chunk_boundaries(&meta, 7_200_000, u64::MAX, None, 300);
    assert_covers(&bounds, 10_000_500);
}

#[test]
fn wall_clock_cap_splits_long_recordings() {
    // ten thousand seconds against a two-hour cap: exactly two chunks
    let meta = metadata(10_000_000, 1);
    let bounds = compute_chunk_boundaries(&meta, 7_200_000, u64::MAX, None, 300);
    assert_eq!(
        bounds,
        vec![
            ChunkBoundary { start_ms: 0, end_ms: 7_200_000 },
            ChunkBoundary { start_ms: 7_200_000, end_ms: 10_000_000 },
        ]
    );
}

#[test]
fn byte_budget_tightens_the_step() {
    // a gigabyte over a thousand seconds against a half-gigabyte cap:
    // five hundred seconds per chunk
    let meta = metadata(1_000_000, 1_000_000_000);
    let bounds = compute_chunk_boundaries(&meta, 7_200_000, 500_000_000, None, 300);
    assert_eq!(
        bounds,
        vec![
            ChunkBoundary { start_ms: 0, end_ms: 500_000 },
            ChunkBoundary { start_ms: 500_000, end_ms: 1_000_000 },
        ]
    );
}

#[test]
fn token_budget_tightens_the_step() {
    // three hundred thousand tokens at three hundred per second: a
    // thousand seconds per chunk, beating the larger wall-clock cap
    let meta = metadata(2_000_000, 1);
    let bounds = compute_chunk_boundaries(&meta, 7_200_000, u64::MAX, Some(300_000), 300);
    assert_eq!(
        bounds,
        vec![
            ChunkBoundary { start_ms: 0, end_ms: 1_000_000 },
            ChunkBoundary { start_ms: 1_000_000, end_ms: 2_000_000 },
        ]
    );
}

#[test]
fn zero_duration_yields_one_degenerate_chunk() {
    let meta = metadata(0, 123);
    let bounds = compute_chunk_boundaries(&meta, 7_200_000, u64::MAX, None, 300);
    assert_eq!(bounds, vec![ChunkBoundary { start_ms: 0, end_ms: 0 }]);
}

#[test]
fn zero_token_budget_still_tightens_to_the_floor() {
    // a token allowance of nothing converts to a zero step, which the
    // one-second floor turns into a one-second-stepped plan
    let meta = metadata(2_500, 1);
    let bounds = compute_chunk_boundaries(&meta, 7_200_000, u64::MAX, Some(0), 300);
    assert_covers(&bounds, 2_500);
    assert_eq!(bounds.len(), 3);
    assert_eq!(bounds[0].end_ms, 1_000);
}

#[test]
fn pathological_budgets_clamp_to_one_second_steps() {
    // a token budget below one second's worth of tokens still advances
    let meta = metadata(3_500, 1);
    let bounds = compute_chunk_boundaries(&meta, 7_200_000, u64::MAX, Some(1), 300);
    assert_covers(&bounds, 3_500);
    assert_eq!(bounds.len(), 4);
    assert_eq!(bounds[0].end_ms, 1_000);
}

#[test]
fn single_boundary_reuses_the_normalized_file() {
    let meta = metadata(5_000, 1);
    let bounds = compute_chunk_boundaries(&meta, 7_200_000, u64::MAX, None, 300);
    assert_eq!(bounds.len(), 1);
    let chunks = plan_video_chunks(&meta, "/tmp/clip-normalized.mp4", &bounds, "clip-normalized");
    assert_eq!(chunks.len(), 1);
    assert_eq!(chunks[0].index, 0);
    assert_eq!(chunks[0].path, "/tmp/clip-normalized.mp4");
}

#[test]
fn multiple_boundaries_get_numbered_segment_files() {
    let meta = metadata(10_000_000, 1);
    let bounds = compute_chunk_boundaries(&meta, 7_200_000, u64::MAX, None, 300);
    let chunks = plan_video_chunks(&meta, "/tmp/clip-normalized.mp4", &bounds, "clip-normalized");
    assert_eq!(chunks.len(), 2);
    assert_eq!(chunks[0].path, "clip-normalized-chunk00.mp4");
    assert_eq!(chunks[1].path, "clip-normalized-chunk01.mp4");
    assert_eq!(chunks[1].index, 1);
    assert_eq!(chunks[1].start_ms, 7_200_000);
}

#[test]
fn chunk_file_names_pad_the_index() {
    assert_eq!(chunk_file_name("video", 7), "video-chunk07.mp4");
    assert_eq!(chunk_file_name("video", 12), "video-chunk12.mp4");
}

#[test]
fn iso_durations_round_to_whole_seconds() {
    assert_eq!(seconds_to_iso(3_723_000), "PT1H2M3S");
    assert_eq!(seconds_to_iso(0), "PT0H0M0S");
    assert_eq!(seconds_to_iso(59_600), "PT0H1M0S");
}
