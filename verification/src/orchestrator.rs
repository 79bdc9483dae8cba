//! Per-segment transcription decisions and result assembly.
//!
//! The orchestrator's run is a strict two-phase protocol: first a
//! sequential pass reconciles the manifest and decides, per segment,
//! whether a stored response can be replayed or a generation call is owed;
//! then the parallel phase only computes `(index, text)` results, and a
//! final sequential pass merges them back and joins the texts in index
//! order.

use vstd::prelude::*;
use vstd::string::StringExecFns;
use crate::manifest::SegmentDescriptor;
use crate::text::{spec_dec2, spec_trim, trim, u64_to_string2};

verus! {

/// What a segment needs this run: a replay of its stored response, or a
/// fresh generation call.
#[derive(Debug, Clone, Copy, PartialEq, Eq, Structural)]
pub enum ChunkAction {
    Skip,
    Transcribe,
}

/// A segment is replayed only when the run keeps intermediates, resume is
/// asked for, and its response file is already on disk.
pub open spec fn spec_action_for(
    skip_existing: bool,
    save_intermediates: bool,
    has_response_path: bool,
    response_exists: bool,
) -> ChunkAction {
    if skip_existing && save_intermediates && has_response_path && response_exists {
        ChunkAction::Skip
    } else {
        ChunkAction::Transcribe
    }
}

/// Decide every segment's action for this run. `response_exists` reports,
/// per segment, whether its response file is present on disk.
pub fn decide_actions(
    segs: &Vec<SegmentDescriptor>,
    skip_existing: bool,
    save_intermediates: bool,
    response_exists: &Vec<bool>,
) -> (acts: Vec<ChunkAction>)
    requires
        response_exists@.len() == segs@.len(),
    ensures
        acts@.len() == segs@.len(),
        forall|k: int|
            0 <= k < segs@.len() ==> #[trigger] acts@[k] == spec_action_for(
                skip_existing,
                save_intermediates,
                segs@[k].response_path is Some,
                response_exists@[k],
            ),
{
    let n = segs.len();
    let mut acts: Vec<ChunkAction> = Vec::new();
    let mut k: usize = 0;
    while k < n
        invariant
            0 <= k <= n,
            n == segs@.len(),
            n == response_exists@.len(),
            acts@.len() == k,
            forall|t: int|
                0 <= t < k ==> #[trigger] acts@[t] == spec_action_for(
                    skip_existing,
                    save_intermediates,
                    segs@[t].response_path is Some,
                    response_exists@[t],
                ),
        decreases n - k,
    {
        let has_path = segs[k].response_path.is_some();
        let act = if skip_existing && save_intermediates && has_path && response_exists[k] {
            ChunkAction::Skip
        } else {
            ChunkAction::Transcribe
        };
        acts.push(act);
        k += 1;
    }
    acts
}

/// Law (resume idempotence): a resumed run that keeps intermediates and
/// finds every segment's response already on disk dispatches no generation
/// call at all — every action is a replay.
pub proof fn lemma_resume_skips_all(
    segs: Seq<SegmentDescriptor>,
    response_exists: Seq<bool>,
    acts: Seq<ChunkAction>,
)
    requires
        response_exists.len() == segs.len(),
        acts.len() == segs.len(),
        forall|k: int|
            0 <= k < segs.len() ==> #[trigger] acts[k] == spec_action_for(
                true,
                true,
                segs[k].response_path is Some,
                response_exists[k],
            ),
        forall|k: int| 0 <= k < segs.len() ==> #[trigger] segs[k].response_path is Some,
        forall|k: int| 0 <= k < segs.len() ==> #[trigger] response_exists[k],
    ensures
        forall|k: int| 0 <= k < acts.len() ==> #[trigger] acts[k] == ChunkAction::Skip,
{
}

/// The separator between adjacent segment texts in the joined output.
pub open spec fn spec_separator() -> Seq<char> {
    "\n\n"@
}

/// Texts joined with a separator, in order.
pub open spec fn spec_join(parts: Seq<Seq<char>>, sep: Seq<char>) -> Seq<char>
    decreases parts.len(),
{
    if parts.len() == 0 {
        Seq::empty()
    } else if parts.len() == 1 {
        parts[0]
    } else {
        parts[0] + sep + spec_join(parts.subrange(1, parts.len() as int), sep)
    }
}

pub proof fn lemma_join_push(parts: Seq<Seq<char>>, sep: Seq<char>, p: Seq<char>)
    ensures
        parts.len() == 0 ==> spec_join(parts.push(p), sep) == p,
        parts.len() > 0 ==> spec_join(parts.push(p), sep) == spec_join(parts, sep) + sep + p,
    decreases parts.len(),
{
    let pushed = parts.push(p);
    if parts.len() == 0 {
        assert(pushed[0] == p);
    } else if parts.len() == 1 {
        assert(pushed.subrange(1, 2) =~= Seq::<Seq<char>>::empty().push(p));
        lemma_join_push(Seq::<Seq<char>>::empty(), sep, p);
        assert(spec_join(pushed, sep) == parts[0] + sep + p);
    } else {
        let tail = parts.subrange(1, parts.len() as int);
        lemma_join_push(tail, sep, p);
        assert(pushed.subrange(1, pushed.len() as int) =~= tail.push(p));
        assert(spec_join(pushed, sep) == pushed[0] + sep + spec_join(tail.push(p), sep));
        assert(pushed[0] == parts[0]);
        assert(parts[0] + sep + (spec_join(tail, sep) + sep + p) =~= (parts[0] + sep + spec_join(
            tail,
            sep,
        )) + sep + p);
    }
}

/// The final transcript: the segment texts in index order, separated by
/// blank lines.
pub fn join_responses(texts: &Vec<String>) -> (r: String)
    ensures
        r@ == spec_join(texts@.map_values(|t: String| t@), spec_separator()),
{
    let ghost all = texts@.map_values(|t: String| t@);
    let mut out = String::new();
    let n = texts.len();
    let mut k: usize = 0;
    while k < n
        invariant
            0 <= k <= n,
            n == texts@.len(),
            all == texts@.map_values(|t: String| t@),
            out@ == spec_join(all.subrange(0, k as int), spec_separator()),
        decreases n - k,
    {
        let ghost sofar = all.subrange(0, k as int);
        if k > 0 {
            out.append("\n\n");
        }
        out.append(texts[k].as_str());
        proof {
            assert(all.subrange(0, k as int + 1) =~= sofar.push(all[k as int]));
            lemma_join_push(sofar, spec_separator(), all[k as int]);
            if k == 0 {
                assert(out@ =~= all[0]);
            }
        }
        k += 1;
    }
    proof {
        assert(all.subrange(0, n as int) =~= all);
    }
    out
}

/// Each response trimmed of surrounding blanks, ready to join.
pub fn trim_all(texts: &Vec<String>) -> (r: Vec<String>)
    ensures
        r@.len() == texts@.len(),
        forall|k: int| 0 <= k < texts@.len() ==> #[trigger] r@[k]@ == spec_trim(texts@[k]@),
{
    let n = texts.len();
    let mut out: Vec<String> = Vec::new();
    let mut k: usize = 0;
    while k < n
        invariant
            0 <= k <= n,
            n == texts@.len(),
            out@.len() == k,
            forall|t: int| 0 <= t < k ==> #[trigger] out@[t]@ == spec_trim(texts@[t]@),
        decreases n - k,
    {
        out.push(trim(texts[k].as_str()));
        k += 1;
    }
    out
}

/// The file one segment's response is saved under:
/// `<name>-chunk<index, two digits>.txt`.
pub fn chunk_response_file(name: &str, chunk_index: u64) -> (r: String)
    ensures
        r@ == name@ + "-chunk"@ + spec_dec2(chunk_index as int) + ".txt"@,
{
    let mut out = String::from_str(name);
    out.append("-chunk");
    let digits = u64_to_string2(chunk_index);
    out.append(digits.as_str());
    out.append(".txt");
    out
}

} // verus!
