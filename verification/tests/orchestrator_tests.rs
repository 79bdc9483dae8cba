use recapit::manifest::{ChunkOutcome, ChunkStatus, Manifest, SegmentDescriptor};
use recapit::orchestrator::{
    chunk_response_file, decide_actions, join_responses, trim_all, ChunkAction,
};

fn segment(index: u64, with_response: bool) -> SegmentDescriptor {
    SegmentDescriptor {
        index,
        path: format!("chunks/part{index}.mp4"),
        start_ms: Some(index * 1_000),
        end_ms: Some((index + 1) * 1_000),
        response_path: if with_response {
            Some(format!("out/part{index}.txt"))
        } else {
            None
        },
        file_uri: None,
    }
}

#[test]
fn resume_with_all_responses_on_disk_skips_every_segment() {
    let segs = vec![segment(0, true), segment(1, true), segment(2, true)];
    let exists = vec![true, true, true];
    let actions = decide_actions(&segs, true, true, &exists);
    assert_eq!(actions, vec![ChunkAction::Skip, ChunkAction::Skip, ChunkAction::Skip]);
}

#[test]
fn resume_replays_only_what_is_on_disk() {
    let segs = vec![segment(0, true), segment(1, true), segment(2, false)];
    let exists = vec![true, false, false];
    let actions = decide_actions(&segs, true, true, &exists);
    assert_eq!(
        actions,
        vec![ChunkAction::Skip, ChunkAction::Transcribe, ChunkAction::Transcribe]
    );
}

#[test]
fn without_skip_existing_everything_is_transcribed() {
    let segs = vec![segment(0, true), segment(1, true)];
    let exists = vec![true, true];
    let actions = decide_actions(&segs, false, true, &exists);
    assert_eq!(actions, vec![ChunkAction::Transcribe, ChunkAction::Transcribe]);
}

#[test]
fn repeated_resume_reproduces_identical_output() {
    // both runs replay the same stored texts, so the joined output is
    // byte-identical
    let stored = vec![String::from("first part"), String::from("second part")];
    let first = join_responses(&trim_all(&stored));
    let second = join_responses(&trim_all(&stored));
    assert_eq!(first, second);
    assert_eq!(first, "first part\n\nsecond part");
}

#[test]
fn joined_output_keeps_index_order_and_separators() {
    let texts = vec![String::from("a"), String::from("b"), String::from("c")];
    assert_eq!(join_responses(&texts), "a\n\nb\n\nc");
    assert_eq!(join_responses(&vec![]), "");
    assert_eq!(join_responses(&vec![String::from("only")]), "only");
}

#[test]
fn responses_are_trimmed_before_joining() {
    let texts = vec![String::from("  a \n"), String::from("\tb")];
    assert_eq!(join_responses(&trim_all(&texts)), "a\n\nb");
}

#[test]
fn manifest_reconciles_and_merges_to_terminal_states() {
    let mut manifest = Manifest::new();
    let segs = vec![segment(0, true), segment(1, true), segment(2, true)];
    manifest.reconcile_segments(&segs);
    assert_eq!(manifest.chunks.len(), 3);
    for (i, record) in manifest.chunks.iter().enumerate() {
        assert_eq!(record.index, i as u64);
        assert_eq!(record.status, ChunkStatus::Pending);
    }
    let outcomes = vec![
        ChunkOutcome { index: 0, status: ChunkStatus::Skipped, file_uri: None },
        ChunkOutcome {
            index: 1,
            status: ChunkStatus::Done,
            file_uri: Some(String::from("files/abc")),
        },
        ChunkOutcome { index: 2, status: ChunkStatus::Done, file_uri: None },
    ];
    manifest.apply_outcomes(&outcomes);
    assert_eq!(manifest.chunks.len(), 3);
    assert_eq!(manifest.chunks[0].status, ChunkStatus::Skipped);
    assert_eq!(manifest.chunks[1].status, ChunkStatus::Done);
    assert_eq!(manifest.chunks[1].file_uri.as_deref(), Some("files/abc"));
    assert_eq!(manifest.chunks[2].status, ChunkStatus::Done);
}

#[test]
fn reconcile_appends_missing_records_and_keeps_known_ones() {
    let mut manifest = Manifest::new();
    manifest.reconcile_segments(&vec![segment(0, true)]);
    manifest.apply_outcomes(&vec![ChunkOutcome {
        index: 0,
        status: ChunkStatus::Done,
        file_uri: Some(String::from("files/kept")),
    }]);
    // a later run plans one more segment: the old record survives, the new
    // one is appended as pending
    manifest.reconcile_segments(&vec![segment(0, true), segment(1, true)]);
    assert_eq!(manifest.chunks.len(), 2);
    assert_eq!(manifest.chunks[0].status, ChunkStatus::Done);
    assert_eq!(manifest.chunks[0].file_uri.as_deref(), Some("files/kept"));
    assert_eq!(manifest.chunks[1].status, ChunkStatus::Pending);
}

#[test]
fn response_files_are_named_by_padded_index() {
    assert_eq!(chunk_response_file("talk", 3), "talk-chunk03.txt");
    assert_eq!(chunk_response_file("talk", 42), "talk-chunk42.txt");
}
