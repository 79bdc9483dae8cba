//! The per-run manifest: one record per planned segment, reconciled before
//! work starts and folded over the workers' results after they finish.
//!
//! The manifest is the single source of truth for resumability. Workers
//! never touch it: the parallel phase only computes `(index, outcome)`
//! pairs, and this module merges them sequentially, so the on-disk file
//! never reflects a half-written concurrent update.

use vstd::prelude::*;

verus! {

/// Lifecycle of one segment within a run.
#[derive(Debug, Clone, Copy, PartialEq, Eq, Structural)]
pub enum ChunkStatus {
    Pending,
    Running,
    Done,
    Skipped,
}

/// A status that no further work in this run will change.
pub open spec fn is_terminal(s: ChunkStatus) -> bool {
    s == ChunkStatus::Done || s == ChunkStatus::Skipped
}

/// One persisted segment record.
#[derive(Debug, Clone)]
pub struct ChunkRecord {
    pub index: u64,
    pub path: String,
    pub start_ms: Option<u64>,
    pub end_ms: Option<u64>,
    pub status: ChunkStatus,
    pub response_path: Option<String>,
    pub file_uri: Option<String>,
}

/// What the planner knows about one segment when a run begins.
#[derive(Debug, Clone)]
pub struct SegmentDescriptor {
    pub index: u64,
    pub path: String,
    pub start_ms: Option<u64>,
    pub end_ms: Option<u64>,
    pub response_path: Option<String>,
    pub file_uri: Option<String>,
}

/// What one segment's work produced: a terminal status and, where an upload
/// happened, the remote file the segment now lives under.
#[derive(Debug, Clone)]
pub struct ChunkOutcome {
    pub index: u64,
    pub status: ChunkStatus,
    pub file_uri: Option<String>,
}

/// The persisted run manifest.
#[derive(Debug, Clone)]
pub struct Manifest {
    pub version: u64,
    pub chunks: Vec<ChunkRecord>,
}

/// No two records claim the same segment.
pub open spec fn indices_unique(chunks: Seq<ChunkRecord>) -> bool {
    forall|i: int, j: int|
        0 <= i < j < chunks.len() ==> #[trigger] chunks[i].index != #[trigger] chunks[j].index
}

/// Some record covers the segment.
pub open spec fn has_index(chunks: Seq<ChunkRecord>, index: u64) -> bool {
    exists|i: int| 0 <= i < chunks.len() && #[trigger] chunks[i].index == index
}

/// The record a segment's reconciliation leaves behind: the descriptor's
/// facts overwrite the stored ones, a prior status and a prior upload
/// survive, and a fresh record starts out pending.
pub open spec fn spec_reconciled_record(prev: Option<ChunkRecord>, seg: SegmentDescriptor) -> ChunkRecord {
    ChunkRecord {
        index: seg.index,
        path: seg.path,
        start_ms: seg.start_ms,
        end_ms: seg.end_ms,
        status: if prev is Some {
            prev->0.status
        } else {
            ChunkStatus::Pending
        },
        response_path: seg.response_path,
        file_uri: if seg.file_uri is Some {
            seg.file_uri
        } else if prev is Some {
            prev->0.file_uri
        } else {
            None
        },
    }
}

/// The record an outcome leaves behind: the terminal status lands, and a
/// reported upload replaces the stored one.
pub open spec fn spec_merged_record(r: ChunkRecord, o: ChunkOutcome) -> ChunkRecord {
    ChunkRecord {
        status: o.status,
        file_uri: if o.file_uri is Some {
            o.file_uri
        } else {
            r.file_uri
        },
        ..r
    }
}

/// One outcome folded into the records: only the record of its segment
/// changes.
pub open spec fn spec_apply_outcome(chunks: Seq<ChunkRecord>, o: ChunkOutcome) -> Seq<ChunkRecord> {
    Seq::new(
        chunks.len(),
        |j: int|
            if chunks[j].index == o.index {
                spec_merged_record(chunks[j], o)
            } else {
                chunks[j]
            },
    )
}

/// All outcomes folded in, left to right.
pub open spec fn spec_apply_outcomes(
    chunks: Seq<ChunkRecord>,
    outs: Seq<ChunkOutcome>,
) -> Seq<ChunkRecord>
    decreases outs.len(),
{
    if outs.len() == 0 {
        chunks
    } else {
        spec_apply_outcomes(spec_apply_outcome(chunks, outs[0]), outs.subrange(1, outs.len() as int))
    }
}

impl Manifest {
    /// A fresh manifest, used when none exists on disk or the stored one
    /// cannot be read: resuming then simply redoes the work.
    pub fn new() -> (m: Manifest)
        ensures
            m.version == 1,
            m.chunks@.len() == 0,
    {
        Manifest { version: 1, chunks: Vec::new() }
    }

    /// Fold one segment into the manifest: update the first record that
    /// already covers it, or append a fresh pending one. Missing records are
    /// normal (a longer plan than last run), never an error.
    pub fn reconcile_segment(&mut self, seg: &SegmentDescriptor)
        ensures
            final(self).version == old(self).version,
            has_index(final(self).chunks@, seg.index),
            indices_unique(old(self).chunks@) ==> indices_unique(final(self).chunks@),
            // records of other segments keep their positions and contents
            forall|j: int|
                0 <= j < old(self).chunks@.len() && old(self).chunks@[j].index != seg.index
                    ==> final(self).chunks@[j] == old(self).chunks@[j],
            if has_index(old(self).chunks@, seg.index) {
                &&& final(self).chunks@.len() == old(self).chunks@.len()
                &&& exists|j: int|
                    0 <= j < old(self).chunks@.len() && old(self).chunks@[j].index == seg.index
                        && final(self).chunks@ == old(self).chunks@.update(
                        j,
                        spec_reconciled_record(Some(old(self).chunks@[j]), *seg),
                    )
            } else {
                final(self).chunks@ == old(self).chunks@.push(
                    spec_reconciled_record(None, *seg),
                )
            },
    {
        let n = self.chunks.len();
        let mut i: usize = 0;
        while i < n
            invariant
                0 <= i <= n,
                n == self.chunks@.len(),
                *self == *old(self),
                forall|j: int| 0 <= j < i ==> #[trigger] self.chunks@[j].index != seg.index,
            decreases n - i,
        {
            if self.chunks[i].index == seg.index {
                let prev_status = self.chunks[i].status;
                let uri = match &seg.file_uri {
                    Some(u) => Some(u.clone()),
                    None => match &self.chunks[i].file_uri {
                        Some(u) => Some(u.clone()),
                        None => None,
                    },
                };
                let record = ChunkRecord {
                    index: seg.index,
                    path: seg.path.clone(),
                    start_ms: seg.start_ms,
                    end_ms: seg.end_ms,
                    status: prev_status,
                    response_path: seg.response_path.clone(),
                    file_uri: uri,
                };
                let ghost pre = self.chunks@;
                self.chunks[i] = record;
                proof {
                    assert(self.chunks@ =~= pre.update(
                        i as int,
                        spec_reconciled_record(Some(pre[i as int]), *seg),
                    ));
                    assert(self.chunks@[i as int].index == seg.index);
                }
                return ;
            }
            i += 1;
        }
        let record = ChunkRecord {
            index: seg.index,
            path: seg.path.clone(),
            start_ms: seg.start_ms,
            end_ms: seg.end_ms,
            status: ChunkStatus::Pending,
            response_path: seg.response_path.clone(),
            file_uri: match &seg.file_uri {
                Some(u) => Some(u.clone()),
                None => None,
            },
        };
        let ghost pre = self.chunks@;
        self.chunks.push(record);
        proof {
            assert(self.chunks@[pre.len() as int].index == seg.index);
        }
    }

    /// Reconcile a whole plan. On a fresh manifest with distinct segment
    /// indices the records line up with the segments one for one.
    pub fn reconcile_segments(&mut self, segs: &Vec<SegmentDescriptor>)
        ensures
            final(self).version == old(self).version,
            indices_unique(old(self).chunks@) ==> indices_unique(final(self).chunks@),
            forall|k: int|
                0 <= k < segs@.len() ==> has_index(final(self).chunks@, #[trigger] segs@[k].index),
            old(self).chunks@.len() == 0 && (forall|a: int, b: int|
                0 <= a < b < segs@.len() ==> #[trigger] segs@[a].index != #[trigger] segs@[b].index)
                ==> {
                &&& final(self).chunks@.len() == segs@.len()
                &&& forall|k: int|
                    0 <= k < segs@.len() ==> #[trigger] final(self).chunks@[k]
                        == spec_reconciled_record(None, segs@[k])
            },
    {
        let ghost distinct_from_empty = old(self).chunks@.len() == 0 && (forall|a: int, b: int|
            0 <= a < b < segs@.len() ==> #[trigger] segs@[a].index != #[trigger] segs@[b].index);
        let n = segs.len();
        let mut k: usize = 0;
        while k < n
            invariant
                n == segs@.len(),
                0 <= k <= n,
                self.version == old(self).version,
                indices_unique(old(self).chunks@) ==> indices_unique(self.chunks@),
                forall|t: int|
                    0 <= t < k ==> has_index(self.chunks@, #[trigger] segs@[t].index),
                distinct_from_empty == (old(self).chunks@.len() == 0 && (forall|a: int, b: int|
                    0 <= a < b < segs@.len() ==> #[trigger] segs@[a].index
                        != #[trigger] segs@[b].index)),
                distinct_from_empty ==> {
                    &&& self.chunks@.len() == k
                    &&& forall|t: int|
                        0 <= t < k ==> #[trigger] self.chunks@[t] == spec_reconciled_record(
                            None,
                            segs@[t],
                        )
                },
            decreases n - k,
        {
            let ghost pre = self.chunks@;
            self.reconcile_segment(&segs[k]);
            proof {
                if distinct_from_empty {
                    assert(!has_index(pre, segs@[k as int].index)) by {
                        if has_index(pre, segs@[k as int].index) {
                            let j = choose|j: int|
                                0 <= j < pre.len() && pre[j].index == segs@[k as int].index;
                            assert(pre[j] == spec_reconciled_record(None, segs@[j]));
                        }
                    }
                    assert(self.chunks@ == pre.push(
                        spec_reconciled_record(None, segs@[k as int]),
                    ));
                }
                assert forall|t: int| 0 <= t < k + 1 implies has_index(
                    self.chunks@,
                    #[trigger] segs@[t].index,
                ) by {
                    if t < k {
                        let j = choose|j: int|
                            0 <= j < pre.len() && #[trigger] pre[j].index == segs@[t].index;
                        if pre[j].index == segs@[k as int].index {
                            assert(has_index(self.chunks@, segs@[t].index));
                        } else {
                            assert(self.chunks@[j] == pre[j]);
                            assert(has_index(self.chunks@, segs@[t].index));
                        }
                    }
                }
            }
            k += 1;
        }
    }

    /// Fold one worker outcome into the manifest.
    pub fn apply_outcome(&mut self, o: &ChunkOutcome)
        requires
            indices_unique(old(self).chunks@),
        ensures
            final(self).version == old(self).version,
            indices_unique(final(self).chunks@),
            final(self).chunks@ == spec_apply_outcome(old(self).chunks@, *o),
    {
        let ghost pre = self.chunks@;
        let n = self.chunks.len();
        let mut i: usize = 0;
        while i < n
            invariant
                0 <= i <= n,
                n == self.chunks@.len(),
                *self == *old(self),
                pre == old(self).chunks@,
                indices_unique(pre),
                forall|j: int| 0 <= j < i ==> #[trigger] pre[j].index != o.index,
            decreases n - i,
        {
            if self.chunks[i].index == o.index {
                let uri = match &o.file_uri {
                    Some(u) => Some(u.clone()),
                    None => match &self.chunks[i].file_uri {
                        Some(u) => Some(u.clone()),
                        None => None,
                    },
                };
                let record = ChunkRecord {
                    index: self.chunks[i].index,
                    path: self.chunks[i].path.clone(),
                    start_ms: self.chunks[i].start_ms,
                    end_ms: self.chunks[i].end_ms,
                    status: o.status,
                    response_path: self.chunks[i].response_path.clone(),
                    file_uri: uri,
                };
                self.chunks[i] = record;
                proof {
                    assert forall|j: int, l: int|
                        0 <= j < l < self.chunks@.len() implies #[trigger] self.chunks@[j].index
                        != #[trigger] self.chunks@[l].index by {
                        assert(self.chunks@[j].index == pre[j].index);
                        assert(self.chunks@[l].index == pre[l].index);
                    }
                    assert(self.chunks@ =~= spec_apply_outcome(pre, *o));
                }
                return ;
            }
            i += 1;
        }
        proof {
            assert(self.chunks@ =~= spec_apply_outcome(pre, *o));
        }
    }

    /// The sequential merge phase: fold every worker outcome in, in order.
    pub fn apply_outcomes(&mut self, outs: &Vec<ChunkOutcome>)
        requires
            indices_unique(old(self).chunks@),
        ensures
            final(self).version == old(self).version,
            indices_unique(final(self).chunks@),
            final(self).chunks@ == spec_apply_outcomes(old(self).chunks@, outs@),
            final(self).chunks@.len() == old(self).chunks@.len(),
    {
        let ghost orig = self.chunks@;
        let n = outs.len();
        proof {
            assert(outs@.subrange(0, n as int) =~= outs@);
        }
        let mut k: usize = 0;
        while k < n
            invariant
                0 <= k <= n,
                n == outs@.len(),
                self.version == old(self).version,
                orig == old(self).chunks@,
                indices_unique(self.chunks@),
                spec_apply_outcomes(self.chunks@, outs@.subrange(k as int, n as int))
                    == spec_apply_outcomes(orig, outs@),
                self.chunks@.len() == orig.len(),
            decreases n - k,
        {
            let ghost rest = outs@.subrange(k as int, n as int);
            self.apply_outcome(&outs[k]);
            proof {
                assert(rest[0] == outs@[k as int]);
                assert(rest.subrange(1, rest.len() as int) =~= outs@.subrange(
                    k as int + 1,
                    n as int,
                ));
            }
            k += 1;
        }
        proof {
            assert(outs@.subrange(n as int, n as int) =~= Seq::<ChunkOutcome>::empty());
        }
    }
}

/// An exact copy of one record.
fn clone_record(r: &ChunkRecord) -> (c: ChunkRecord)
    ensures
        c == *r,
{
    ChunkRecord {
        index: r.index,
        path: r.path.clone(),
        start_ms: r.start_ms,
        end_ms: r.end_ms,
        status: r.status,
        response_path: match &r.response_path {
            Some(p) => Some(p.clone()),
            None => None,
        },
        file_uri: match &r.file_uri {
            Some(u) => Some(u.clone()),
            None => None,
        },
    }
}

/// A stored manifest cleaned of duplicate indices: the first record of
/// each segment survives, later claimants of the same index are dropped.
pub open spec fn spec_dedup(chunks: Seq<ChunkRecord>) -> Seq<ChunkRecord>
    decreases chunks.len(),
{
    if chunks.len() == 0 {
        Seq::empty()
    } else {
        let head = spec_dedup(chunks.subrange(0, chunks.len() - 1));
        if has_index(head, chunks[chunks.len() - 1].index) {
            head
        } else {
            head.push(chunks[chunks.len() - 1])
        }
    }
}

impl Manifest {
    /// Drop later records that claim an already-seen index, as a manifest
    /// edited or corrupted outside this library may hold. The sequential
    /// merge relies on distinct indices.
    pub fn dedup_chunks(&mut self)
        ensures
            final(self).version == old(self).version,
            final(self).chunks@ == spec_dedup(old(self).chunks@),
            indices_unique(final(self).chunks@),
    {
        let ghost orig = self.chunks@;
        let n = self.chunks.len();
        let mut kept: Vec<ChunkRecord> = Vec::new();
        proof {
            assert(orig.subrange(0, 0) =~= Seq::<ChunkRecord>::empty());
        }
        let mut i: usize = 0;
        while i < n
            invariant
                0 <= i <= n,
                n == self.chunks@.len(),
                self.chunks@ == orig,
                self.version == old(self).version,
                kept@ == spec_dedup(orig.subrange(0, i as int)),
                indices_unique(kept@),
            decreases n - i,
        {
            let ghost pre = kept@;
            proof {
                assert(orig.subrange(0, i as int + 1).subrange(0, i as int) =~= orig.subrange(
                    0,
                    i as int,
                ));
                assert(orig.subrange(0, i as int + 1)[i as int] == orig[i as int]);
            }
            let index = self.chunks[i].index;
            let mut present = false;
            let m = kept.len();
            let mut j: usize = 0;
            while j < m
                invariant
                    0 <= j <= m,
                    m == kept@.len(),
                    kept@ == pre,
                    present == exists|t: int| 0 <= t < j && #[trigger] kept@[t].index == index,
                decreases m - j,
            {
                if kept[j].index == index {
                    proof {
                        assert(kept@[j as int].index == index);
                    }
                    present = true;
                }
                j += 1;
            }
            proof {
                if present {
                    let t = choose|t: int| 0 <= t < m && #[trigger] kept@[t].index == index;
                    assert(has_index(kept@, index));
                } else {
                    if has_index(kept@, index) {
                        let t = choose|t: int|
                            0 <= t < kept@.len() && #[trigger] kept@[t].index == index;
                    }
                }
            }
            if !present {
                kept.push(clone_record(&self.chunks[i]));
                proof {
                    assert(kept@ =~= pre.push(orig[i as int]));
                    assert forall|a: int, b: int|
                        0 <= a < b < kept@.len() implies #[trigger] kept@[a].index
                        != #[trigger] kept@[b].index by {
                        if b == kept@.len() - 1 {
                            assert(kept@[a] == pre[a]);
                            if pre[a].index == index {
                                assert(has_index(pre, index));
                                let t = choose|t: int|
                                    0 <= t < pre.len() && #[trigger] pre[t].index == index;
                            }
                        } else {
                            assert(kept@[a] == pre[a] && kept@[b] == pre[b]);
                        }
                    }
                }
            }
            i += 1;
        }
        proof {
            assert(orig.subrange(0, n as int) =~= orig);
        }
        self.chunks = kept;
    }
}

/// Applying outcomes never changes a record's index or the record count.
proof fn lemma_apply_outcomes_shape(chunks: Seq<ChunkRecord>, outs: Seq<ChunkOutcome>)
    ensures
        spec_apply_outcomes(chunks, outs).len() == chunks.len(),
        forall|j: int|
            0 <= j < chunks.len() ==> #[trigger] spec_apply_outcomes(chunks, outs)[j].index
                == chunks[j].index,
    decreases outs.len(),
{
    if outs.len() > 0 {
        lemma_apply_outcomes_shape(spec_apply_outcome(chunks, outs[0]), outs.subrange(1, outs.len() as int));
    }
}

/// A record's final status is its original one, untouched, or the status of
/// one of the outcomes for its segment.
proof fn lemma_apply_outcomes_status(chunks: Seq<ChunkRecord>, outs: Seq<ChunkOutcome>, j: int)
    requires
        0 <= j < chunks.len(),
    ensures
        spec_apply_outcomes(chunks, outs)[j].status == chunks[j].status || exists|o: int|
            0 <= o < outs.len() && #[trigger] outs[o].index == chunks[j].index
                && spec_apply_outcomes(chunks, outs)[j].status == outs[o].status,
        (exists|o: int| 0 <= o < outs.len() && #[trigger] outs[o].index == chunks[j].index)
            ==> exists|o: int|
            0 <= o < outs.len() && #[trigger] outs[o].index == chunks[j].index
                && spec_apply_outcomes(chunks, outs)[j].status == outs[o].status,
    decreases outs.len(),
{
    if outs.len() > 0 {
        let res = spec_apply_outcomes(chunks, outs);
        let mid = spec_apply_outcome(chunks, outs[0]);
        let rest = outs.subrange(1, outs.len() as int);
        assert(res == spec_apply_outcomes(mid, rest));
        lemma_apply_outcomes_status(mid, rest, j);
        assert(mid[j].index == chunks[j].index);
        if res[j].status == mid[j].status {
            if chunks[j].index == outs[0].index {
                assert(mid[j] == spec_merged_record(chunks[j], outs[0]));
                assert(res[j].status == outs[0].status);
                assert(0 <= 0 < outs.len() && outs[0].index == chunks[j].index && res[j].status
                    == outs[0].status);
            } else {
                assert(mid[j] == chunks[j]);
            }
        } else {
            let o = choose|o: int|
                0 <= o < rest.len() && #[trigger] rest[o].index == mid[j].index && res[j].status
                    == rest[o].status;
            assert(rest[o] == outs[o + 1]);
            assert(0 <= o + 1 < outs.len() && outs[o + 1].index == chunks[j].index && res[j].status
                == outs[o + 1].status);
        }
        if exists|o: int| 0 <= o < outs.len() && #[trigger] outs[o].index == chunks[j].index {
            if res[j].status == mid[j].status && chunks[j].index != outs[0].index {
                // the match sits in the tail, and the head left the record alone
                let o = choose|o: int|
                    0 <= o < outs.len() && #[trigger] outs[o].index == chunks[j].index;
                assert(o >= 1);
                assert(rest[o - 1] == outs[o]);
                assert(exists|t: int|
                    0 <= t < rest.len() && #[trigger] rest[t].index == mid[j].index);
                let t = choose|t: int|
                    0 <= t < rest.len() && #[trigger] rest[t].index == mid[j].index
                        && spec_apply_outcomes(mid, rest)[j].status == rest[t].status;
                assert(rest[t] == outs[t + 1]);
                assert(0 <= t + 1 < outs.len() && outs[t + 1].index == chunks[j].index
                    && res[j].status == outs[t + 1].status);
            }
        }
    }
}

/// Law (manifest race-freedom): the parallel phase computes, the merge is
/// sequential; once every segment reports a terminal outcome, the manifest
/// holds exactly as many records as it had segments, the indices are still
/// distinct, and every record's status is terminal.
pub proof fn lemma_manifest_race_freedom(chunks: Seq<ChunkRecord>, outs: Seq<ChunkOutcome>)
    requires
        indices_unique(chunks),
        forall|o: int| 0 <= o < outs.len() ==> is_terminal(#[trigger] outs[o].status),
        forall|j: int|
            0 <= j < chunks.len() ==> exists|o: int|
                0 <= o < outs.len() && #[trigger] outs[o].index == #[trigger] chunks[j].index,
    ensures
        spec_apply_outcomes(chunks, outs).len() == chunks.len(),
        indices_unique(spec_apply_outcomes(chunks, outs)),
        forall|j: int|
            0 <= j < chunks.len() ==> is_terminal(
                #[trigger] spec_apply_outcomes(chunks, outs)[j].status,
            ),
{
    lemma_apply_outcomes_shape(chunks, outs);
    assert forall|j: int| 0 <= j < chunks.len() implies is_terminal(
        #[trigger] spec_apply_outcomes(chunks, outs)[j].status,
    ) by {
        lemma_apply_outcomes_status(chunks, outs, j);
    }
    assert forall|i: int, j: int|
        0 <= i < j < spec_apply_outcomes(chunks, outs).len() implies #[trigger] spec_apply_outcomes(
        chunks,
        outs,
    )[i].index != #[trigger] spec_apply_outcomes(chunks, outs)[j].index by {
        assert(spec_apply_outcomes(chunks, outs)[i].index == chunks[i].index);
        assert(spec_apply_outcomes(chunks, outs)[j].index == chunks[j].index);
    }
}

} // verus!
