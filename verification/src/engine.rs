//! Run-level decisions of the pipeline: what kind and modality a set of
//! assets implies, and the human-readable progress summaries.

use vstd::prelude::*;
use vstd::string::StringExecFns;
use crate::model::{Asset, Kind};
use crate::text::{spec_dec, str_eq, u64_to_string};

verus! {

/// The singular noun, or its plural for any other count.
pub open spec fn spec_plural(count: u64, singular: Seq<char>) -> Seq<char> {
    if count == 1 {
        singular
    } else {
        singular + "s"@
    }
}

/// The singular noun, or its plural for any other count.
pub fn pluralize(count: u64, singular: &str) -> (r: String)
    ensures
        r@ == spec_plural(count, singular@),
{
    if count == 1 {
        String::from_str(singular)
    } else {
        let mut out = String::from_str(singular);
        out.append("s");
        out
    }
}

/// The "N chunks · M pages" progress summary.
pub open spec fn spec_counts_summary(chunks: u64, pages: Option<u64>) -> Seq<char> {
    let head = spec_dec(chunks as int) + " "@ + spec_plural(chunks, "chunk"@);
    if pages is Some {
        head + " · "@ + spec_dec(pages->0 as int) + " "@ + spec_plural(pages->0, "page"@)
    } else {
        head
    }
}

/// The "N chunks · M pages" progress summary.
pub fn counts_summary(chunks: u64, pages: Option<u64>) -> (r: String)
    ensures
        r@ == spec_counts_summary(chunks, pages),
{
    let mut out = u64_to_string(chunks);
    out.append(" ");
    let noun = pluralize(chunks, "chunk");
    out.append(noun.as_str());
    if let Some(total_pages) = pages {
        out.append(" · ");
        let digits = u64_to_string(total_pages);
        out.append(digits.as_str());
        out.append(" ");
        let page_noun = pluralize(total_pages, "page");
        out.append(page_noun.as_str());
    }
    out
}

/// The kind a run falls back to when none was asked for: video means a
/// lecture, images mean slides, anything else is a document.
pub open spec fn spec_infer_kind(assets: Seq<Asset>) -> Kind {
    if assets.len() > 0 && assets[0].media@ == "video"@ {
        Kind::Lecture
    } else if assets.len() > 0 && assets[0].media@ == "image"@ {
        Kind::Slides
    } else {
        Kind::Document
    }
}

/// The kind a run falls back to when none was asked for.
pub fn infer_kind(assets: &Vec<Asset>) -> (r: Kind)
    ensures
        r == spec_infer_kind(assets@),
{
    if assets.len() > 0 {
        if str_eq(assets[0].media.as_str(), "video") {
            return Kind::Lecture;
        }
        if str_eq(assets[0].media.as_str(), "image") {
            return Kind::Slides;
        }
    }
    Kind::Document
}

/// The request modality of a normalized asset set: audio and video are
/// billed and routed as video, documents as pdf, everything else as image.
pub open spec fn spec_modality_for(assets: Seq<Asset>) -> Seq<char> {
    if assets.len() == 0 {
        "image"@
    } else if assets[0].media@ == "video"@ || assets[0].media@ == "audio"@ {
        "video"@
    } else if assets[0].media@ == "pdf"@ {
        "pdf"@
    } else {
        "image"@
    }
}

/// The request modality of a normalized asset set.
pub fn modality_for(assets: &Vec<Asset>) -> (r: &'static str)
    ensures
        r@ == spec_modality_for(assets@),
{
    proof {
        reveal_strlit("video");
        reveal_strlit("pdf");
        reveal_strlit("image");
    }
    if assets.len() == 0 {
        return "image";
    }
    let media = assets[0].media.as_str();
    if str_eq(media, "video") || str_eq(media, "audio") {
        "video"
    } else if str_eq(media, "pdf") {
        "pdf"
    } else {
        "image"
    }
}

/// The largest page total any asset's meta reports.
pub open spec fn spec_meta_page_max(assets: Seq<Asset>) -> Option<u64>
    decreases assets.len(),
{
    if assets.len() == 0 {
        None
    } else {
        let rest = spec_meta_page_max(assets.subrange(0, assets.len() - 1));
        let last = assets[assets.len() - 1].meta.page_total;
        if last is Some {
            if rest is Some && rest->0 >= last->0 {
                rest
            } else {
                last
            }
        } else {
            rest
        }
    }
}

/// How many distinct values a sequence holds, counting first sightings.
pub open spec fn spec_distinct_count(vals: Seq<u32>) -> int
    decreases vals.len(),
{
    if vals.len() == 0 {
        0int
    } else {
        let head = vals.subrange(0, vals.len() - 1);
        spec_distinct_count(head) + if head.contains(vals[vals.len() - 1]) {
            0int
        } else {
            1int
        }
    }
}

/// The page indexes the assets carry, in order.
pub open spec fn spec_page_indexes(assets: Seq<Asset>) -> Seq<u32>
    decreases assets.len(),
{
    if assets.len() == 0 {
        Seq::empty()
    } else {
        let head = spec_page_indexes(assets.subrange(0, assets.len() - 1));
        if assets[assets.len() - 1].page_index is Some {
            head.push(assets[assets.len() - 1].page_index->0)
        } else {
            head
        }
    }
}

/// The page total a run can estimate without touching the documents: the
/// largest reported page total, or failing that the number of distinct page
/// indexes. When neither exists the caller may still probe the files.
pub fn estimate_page_total(assets: &Vec<Asset>) -> (r: Option<u64>)
    ensures
        spec_meta_page_max(assets@) is Some ==> r == spec_meta_page_max(assets@),
        spec_meta_page_max(assets@) is None && spec_page_indexes(assets@).len() > 0 ==> r
            == Some(spec_distinct_count(spec_page_indexes(assets@)) as u64),
        spec_meta_page_max(assets@) is None && spec_page_indexes(assets@).len() == 0 ==> r is None,
{
    let n = assets.len();
    let mut best: Option<u64> = None;
    proof {
        assert(assets@.subrange(0, 0) =~= Seq::<Asset>::empty());
    }
    let mut i: usize = 0;
    while i < n
        invariant
            0 <= i <= n,
            n == assets@.len(),
            best == spec_meta_page_max(assets@.subrange(0, i as int)),
        decreases n - i,
    {
        let ghost pre = assets@.subrange(0, i as int);
        if let Some(total) = assets[i].meta.page_total {
            best = match best {
                Some(b) => if b >= total {
                    Some(b)
                } else {
                    Some(total)
                },
                None => Some(total),
            };
        }
        proof {
            assert(assets@.subrange(0, i as int + 1).subrange(0, i as int) =~= pre);
            assert(assets@.subrange(0, i as int + 1)[i as int] == assets@[i as int]);
        }
        i += 1;
    }
    proof {
        assert(assets@.subrange(0, n as int) =~= assets@);
    }
    if best.is_some() {
        return best;
    }
    let mut seen: Vec<u32> = Vec::new();
    proof {
        assert(assets@.subrange(0, 0) =~= Seq::<Asset>::empty());
    }
    let mut i: usize = 0;
    while i < n
        invariant
            0 <= i <= n,
            n == assets@.len(),
            seen@.len() == spec_distinct_count(spec_page_indexes(assets@.subrange(0, i as int))),
            seen@.no_duplicates(),
            forall|v: u32|
                seen@.contains(v) <==> spec_page_indexes(
                    assets@.subrange(0, i as int),
                ).contains(v),
        decreases n - i,
    {
        let ghost pre = assets@.subrange(0, i as int);
        let ghost pre_idx = spec_page_indexes(pre);
        proof {
            assert(assets@.subrange(0, i as int + 1).subrange(0, i as int) =~= pre);
            assert(assets@.subrange(0, i as int + 1)[i as int] == assets@[i as int]);
        }
        if let Some(idx) = assets[i].page_index {
            let present = contains_u32(&seen, idx);
            let ghost old_seen = seen@;
            if !present {
                seen.push(idx);
            }
            proof {
                assert(spec_page_indexes(assets@.subrange(0, i as int + 1)) =~= pre_idx.push(idx));
                lemma_seen_step(old_seen, pre_idx, idx, seen@);
            }
        } else {
            proof {
                assert(spec_page_indexes(assets@.subrange(0, i as int + 1)) =~= pre_idx);
            }
        }
        i += 1;
    }
    proof {
        assert(assets@.subrange(0, n as int) =~= assets@);
    }
    if seen.len() > 0 {
        proof {
            if spec_page_indexes(assets@).len() == 0 {
                assert(spec_distinct_count(spec_page_indexes(assets@)) == 0);
            }
        }
        Some(seen.len() as u64)
    } else {
        proof {
            if spec_page_indexes(assets@).len() > 0 {
                lemma_distinct_positive(spec_page_indexes(assets@));
            }
        }
        None
    }
}

/// One sighting folded into the distinct set: the set grows exactly when
/// the value is new, and keeps mirroring the sightings.
proof fn lemma_seen_step(old_seen: Seq<u32>, pre_idx: Seq<u32>, idx: u32, new_seen: Seq<u32>)
    requires
        forall|v: u32| old_seen.contains(v) <==> pre_idx.contains(v),
        old_seen.no_duplicates(),
        old_seen.len() == spec_distinct_count(pre_idx),
        new_seen == if old_seen.contains(idx) {
            old_seen
        } else {
            old_seen.push(idx)
        },
    ensures
        new_seen.no_duplicates(),
        new_seen.len() == spec_distinct_count(pre_idx.push(idx)),
        forall|v: u32| new_seen.contains(v) <==> pre_idx.push(idx).contains(v),
{
    let grown = pre_idx.push(idx);
    assert(grown.subrange(0, pre_idx.len() as int) =~= pre_idx);
    assert(spec_distinct_count(grown) == spec_distinct_count(pre_idx) + if pre_idx.contains(idx) {
        0int
    } else {
        1int
    });
    if !old_seen.contains(idx) {
        assert forall|a: int, b: int|
            0 <= a < b < new_seen.len() implies new_seen[a] != new_seen[b] by {
            if b == new_seen.len() - 1 {
                assert(new_seen[a] == old_seen[a]);
                if old_seen[a] == idx {
                    assert(old_seen.contains(idx));
                }
            } else {
                assert(new_seen[a] == old_seen[a] && new_seen[b] == old_seen[b]);
            }
        }
    }
    assert forall|v: u32| new_seen.contains(v) <==> grown.contains(v) by {
        if new_seen.contains(v) {
            let t = choose|t: int| 0 <= t < new_seen.len() && new_seen[t] == v;
            if t < old_seen.len() {
                assert(old_seen[t] == v);
                assert(old_seen.contains(v));
                let u = choose|u: int| 0 <= u < pre_idx.len() && pre_idx[u] == v;
                assert(grown[u] == v);
            } else {
                assert(v == idx);
                assert(grown[pre_idx.len() as int] == idx);
            }
            assert(grown.contains(v));
        }
        if grown.contains(v) {
            let u = choose|u: int| 0 <= u < grown.len() && grown[u] == v;
            if u < pre_idx.len() {
                assert(pre_idx[u] == v);
                assert(pre_idx.contains(v));
                assert(old_seen.contains(v));
                let t = choose|t: int| 0 <= t < old_seen.len() && old_seen[t] == v;
                assert(new_seen[t] == v);
            } else {
                assert(v == idx);
                if old_seen.contains(idx) {
                    let t = choose|t: int| 0 <= t < old_seen.len() && old_seen[t] == idx;
                    assert(new_seen[t] == v);
                } else {
                    assert(new_seen[old_seen.len() as int] == idx);
                }
            }
            assert(new_seen.contains(v));
        }
    }
}

/// Does the vector hold the value?
fn contains_u32(seen: &Vec<u32>, v: u32) -> (r: bool)
    ensures
        r == seen@.contains(v),
{
    let n = seen.len();
    let mut i: usize = 0;
    while i < n
        invariant
            0 <= i <= n,
            n == seen@.len(),
            forall|j: int| 0 <= j < i ==> seen@[j] != v,
        decreases n - i,
    {
        if seen[i] == v {
            proof {
                assert(seen@[i as int] == v);
            }
            return true;
        }
        i += 1;
    }
    proof {
        assert(!seen@.contains(v));
    }
    false
}

/// A non-empty sequence holds at least one distinct value.
proof fn lemma_distinct_positive(vals: Seq<u32>)
    requires
        vals.len() > 0,
    ensures
        spec_distinct_count(vals) > 0,
    decreases vals.len(),
{
    let head = vals.subrange(0, vals.len() - 1);
    if head.len() > 0 {
        lemma_distinct_positive(head);
    }
    lemma_distinct_nonnegative(head);
}

/// A distinct count is never negative.
proof fn lemma_distinct_nonnegative(vals: Seq<u32>)
    ensures
        spec_distinct_count(vals) >= 0,
    decreases vals.len(),
{
    if vals.len() > 0 {
        lemma_distinct_nonnegative(vals.subrange(0, vals.len() - 1));
    }
}

} // verus!
