//! Progress events the engine emits for the terminal renderer: which scope
//! a bar belongs to, which pipeline stage it is in, and how far along.

use vstd::prelude::*;

verus! {

/// Whose progress an event reports.
#[derive(Debug, Clone, PartialEq, Eq, Hash)]
pub enum ProgressScope {
    Run,
    Job { id: String, label: String },
    ChunkProgress { job_id: String, total: u64 },
    ChunkDetail { job_id: String, index: u64, total: u64 },
}

/// The pipeline stage a bar is in.
#[derive(Debug, Clone, Copy, PartialEq, Eq, Structural, Hash)]
pub enum ProgressStage {
    Discover,
    Normalize,
    Transcribe,
    Write,
}

/// One progress event.
#[derive(Debug, Clone)]
pub struct Progress {
    pub scope: ProgressScope,
    pub stage: ProgressStage,
    pub current: u64,
    pub total: u64,
    pub status: String,
    pub finished: bool,
}

/// The label of each stage.
pub open spec fn spec_stage_label(s: ProgressStage) -> Seq<char> {
    match s {
        ProgressStage::Discover => "discover"@,
        ProgressStage::Normalize => "normalize"@,
        ProgressStage::Transcribe => "transcribe"@,
        ProgressStage::Write => "write"@,
    }
}

impl ProgressStage {
    /// The lowercase label shown next to a bar.
    pub fn label(&self) -> (r: &'static str)
        ensures
            r@ == spec_stage_label(*self),
    {
        proof {
            reveal_strlit("discover");
            reveal_strlit("normalize");
            reveal_strlit("transcribe");
            reveal_strlit("write");
        }
        match self {
            ProgressStage::Discover => "discover",
            ProgressStage::Normalize => "normalize",
            ProgressStage::Transcribe => "transcribe",
            ProgressStage::Write => "write",
        }
    }
}

} // verus!
