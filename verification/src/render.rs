//! Output assembly: the Markdown and LaTeX documents written for a job,
//! the timestamp format of subtitle files, and the distribution of a
//! transcript over its segments.

use vstd::prelude::*;
use vstd::string::StringExecFns;
use crate::model::OutputFormat;
use crate::orchestrator::{spec_join, spec_separator};
use crate::text::{spec_contains_sub, spec_dec2, spec_ends_with, spec_trim, spec_trim_back,
    split_char, trim, u64_to_string2};

verus! {

/// The Markdown document for a transcript: the header (when any) separated
/// from the body by one blank line, the body stripped of trailing blanks,
/// and a final newline.
pub open spec fn spec_markdown_document(header: Seq<char>, body: Seq<char>) -> Seq<char> {
    let head = if header.len() == 0 {
        Seq::<char>::empty()
    } else if spec_ends_with(header, "\n\n"@) {
        header
    } else if spec_ends_with(header, "\n"@) {
        header + "\n"@
    } else {
        header + "\n\n"@
    };
    head + spec_trim_back(body) + "\n"@
}

/// The Markdown document for a transcript.
pub fn markdown_document(header: &str, body: &str) -> (r: String)
    ensures
        r@ == spec_markdown_document(header@, body@),
{
    let mut out = String::new();
    if header.unicode_len() > 0 {
        out.append(header);
        if crate::text::ends_with(header, "\n\n") {
        } else if crate::text::ends_with(header, "\n") {
            out.append("\n");
        } else {
            out.append("\n\n");
        }
    }
    let trimmed = crate::text::trim_end(body);
    out.append(trimmed.as_str());
    out.append("\n");
    out
}

/// The LaTeX document for a transcript: the preamble, a separating newline
/// where the preamble lacks one, the body, and a closing document
/// environment where the body has none.
pub open spec fn spec_latex_document(preamble: Seq<char>, body: Seq<char>) -> Seq<char> {
    let head = if spec_ends_with(preamble, "\n"@) {
        preamble
    } else {
        preamble + "\n"@
    };
    let closed = if spec_contains_sub(body, "\\end{document}"@) {
        body
    } else {
        body + "\n\\end{document}\n"@
    };
    head + closed
}

/// The LaTeX document for a transcript.
pub fn latex_document(preamble: &str, body: &str) -> (r: String)
    ensures
        r@ == spec_latex_document(preamble@, body@),
{
    let mut out = String::new();
    out.append(preamble);
    if !crate::text::ends_with(preamble, "\n") {
        out.append("\n");
    }
    out.append(body);
    if !crate::text::contains_sub(body, "\\end{document}") {
        out.append("\n\\end{document}\n");
    }
    out
}

/// The writer that renders a transcript for each output format.
#[derive(Debug)]
pub struct CompositeWriter {
}

impl CompositeWriter {
    pub fn new() -> (w: CompositeWriter) {
        CompositeWriter {  }
    }

    /// The document content for a format; the shell writes it to the
    /// format's file.
    pub fn render(&self, format: OutputFormat, preamble: &str, body: &str) -> (r: String)
        ensures
            format == OutputFormat::Markdown ==> r@ == spec_markdown_document(preamble@, body@),
            format == OutputFormat::Latex ==> r@ == spec_latex_document(preamble@, body@),
    {
        match format {
            OutputFormat::Markdown => markdown_document(preamble, body),
            OutputFormat::Latex => latex_document(preamble, body),
        }
    }
}

/// The subtitle container formats the exporter can emit.
#[derive(Debug, Clone, Copy, PartialEq, Eq, Structural)]
pub enum SubtitleFormat {
    Srt,
    Vtt,
}

/// The subtitle exporter; it distributes the transcript over the segments
/// and stamps each with its time range.
#[derive(Debug, Clone)]
pub struct SubtitleExporter {
}

impl SubtitleExporter {
    pub fn new() -> (e: SubtitleExporter) {
        SubtitleExporter {  }
    }

    /// Which subtitle format a requested export name denotes, if any.
    pub fn applies(&self, fmt: &str) -> (r: Option<SubtitleFormat>)
        ensures
            ({
                let t = crate::text::spec_lower(spec_trim(fmt@));
                match r {
                    Some(SubtitleFormat::Srt) => t == "srt"@,
                    Some(SubtitleFormat::Vtt) => t == "vtt"@,
                    None => t != "srt"@ && t != "vtt"@,
                }
            }),
    {
        proof {
            reveal_strlit("srt");
            reveal_strlit("vtt");
            assert(crate::text::spec_lower("srt"@) =~= "srt"@);
            assert(crate::text::spec_lower("vtt"@) =~= "vtt"@);
        }
        let trimmed = trim(fmt);
        if crate::text::eq_ignore_case(trimmed.as_str(), "srt") {
            Some(SubtitleFormat::Srt)
        } else if crate::text::eq_ignore_case(trimmed.as_str(), "vtt") {
            Some(SubtitleFormat::Vtt)
        } else {
            None
        }
    }
}

/// The blank-line paragraph grouping: consecutive lines that are not blank
/// join with newlines into one paragraph; a blank line closes the open
/// paragraph. `current` is the paragraph under construction.
pub open spec fn spec_paragraph_groups(lines: Seq<Seq<char>>, current: Seq<char>) -> Seq<
    Seq<char>,
>
    decreases lines.len(),
{
    if lines.len() == 0 {
        if current.len() > 0 {
            seq![current]
        } else {
            Seq::empty()
        }
    } else {
        let line = lines[0];
        let rest = lines.subrange(1, lines.len() as int);
        if spec_trim(line).len() == 0 {
            if current.len() > 0 {
                seq![current] + spec_paragraph_groups(rest, Seq::empty())
            } else {
                spec_paragraph_groups(rest, Seq::empty())
            }
        } else {
            let grown = if current.len() == 0 {
                line
            } else {
                current + "\n"@ + line
            };
            spec_paragraph_groups(rest, grown)
        }
    }
}

/// The groups trimmed of surrounding blanks, blank groups dropped.
pub open spec fn spec_clean_paragraphs(groups: Seq<Seq<char>>) -> Seq<Seq<char>>
    decreases groups.len(),
{
    if groups.len() == 0 {
        Seq::empty()
    } else {
        let head = spec_clean_paragraphs(groups.subrange(0, groups.len() - 1));
        let t = spec_trim(groups[groups.len() - 1]);
        if t.len() > 0 {
            head.push(t)
        } else {
            head
        }
    }
}

/// The paragraphs a transcript splits into: its trimmed text grouped at
/// blank lines, each paragraph trimmed, blanks dropped.
pub open spec fn spec_paragraphs(text: Seq<char>) -> Seq<Seq<char>> {
    spec_clean_paragraphs(
        spec_paragraph_groups(
            crate::text::spec_split_char(spec_trim(text), '\n'),
            Seq::empty(),
        ),
    )
}

/// The elements at positions congruent to `k` modulo `parts`, in order.
pub open spec fn spec_every_nth(items: Seq<Seq<char>>, parts: int, k: int) -> Seq<Seq<char>>
    recommends
        parts > 0,
    decreases items.len(),
{
    if items.len() == 0 {
        Seq::empty()
    } else {
        let head = spec_every_nth(items.subrange(0, items.len() - 1), parts, k);
        if (items.len() - 1) % parts == k {
            head.push(items[items.len() - 1])
        } else {
            head
        }
    }
}

/// A transcript split over a number of slots. An all-blank transcript
/// yields one empty slot per part; one part (or no paragraphs) yields the
/// single joined text; otherwise the paragraphs are dealt round-robin into
/// `parts` slots in order, each slot joining its share with blank lines.
pub fn split_text(text: &str, parts: usize) -> (r: Vec<String>)
    ensures
        ({
            let paras = spec_paragraphs(text@);
            if spec_trim(text@).len() == 0 {
                &&& r@.len() == (if parts == 0 {
                    1int
                } else {
                    parts as int
                })
                &&& forall|k: int| 0 <= k < r@.len() ==> (#[trigger] r@[k])@.len() == 0
            } else if parts <= 1 || paras.len() == 0 {
                &&& r@.len() == 1
                &&& r@[0]@ == spec_join(paras, spec_separator())
            } else {
                &&& r@.len() == parts
                &&& forall|k: int|
                    0 <= k < parts ==> (#[trigger] r@[k])@ == spec_join(
                        spec_every_nth(paras, parts as int, k),
                        spec_separator(),
                    )
            }
        }),
{
    let trimmed = trim(text);
    if trimmed.as_str().unicode_len() == 0 {
        let slots = if parts == 0 {
            1
        } else {
            parts
        };
        let mut out: Vec<String> = Vec::new();
        let mut k: usize = 0;
        while k < slots
            invariant
                0 <= k <= slots,
                out@.len() == k,
                forall|t: int| 0 <= t < k ==> (#[trigger] out@[t])@.len() == 0,
            decreases slots - k,
        {
            out.push(String::new());
            k += 1;
        }
        return out;
    }
    let paragraphs = paragraphs_of(trimmed.as_str());
    proof {
        assert(paragraphs@.map_values(|p: String| p@) == spec_paragraphs(text@));
    }
    if parts <= 1 || paragraphs.len() == 0 {
        let joined = crate::orchestrator::join_responses(&paragraphs);
        let mut out: Vec<String> = Vec::new();
        out.push(joined);
        return out;
    }
    distribute_round_robin(&paragraphs, parts)
}

/// The paragraphs of a text, trimmed, with blank paragraphs dropped.
pub fn paragraphs_of(text: &str) -> (r: Vec<String>)
    ensures
        r@.map_values(|p: String| p@) == spec_clean_paragraphs(
            spec_paragraph_groups(
                crate::text::spec_split_char(text@, '\n'),
                Seq::empty(),
            ),
        ),
        forall|i: int| 0 <= i < r@.len() ==> (#[trigger] r@[i])@.len() > 0,
{
    let rough = split_paragraphs(text);
    let ghost groups = rough@.map_values(|p: String| p@);
    let mut out: Vec<String> = Vec::new();
    let n = rough.len();
    proof {
        assert(groups.subrange(0, 0) =~= Seq::<Seq<char>>::empty());
    }
    let mut k: usize = 0;
    while k < n
        invariant
            0 <= k <= n,
            n == rough@.len(),
            groups == rough@.map_values(|p: String| p@),
            out@.map_values(|p: String| p@) == spec_clean_paragraphs(
                groups.subrange(0, k as int),
            ),
            forall|i: int| 0 <= i < out@.len() ==> (#[trigger] out@[i])@.len() > 0,
        decreases n - k,
    {
        let ghost pre = out@.map_values(|p: String| p@);
        proof {
            assert(groups.subrange(0, k as int + 1).subrange(0, k as int) =~= groups.subrange(
                0,
                k as int,
            ));
            assert(groups.subrange(0, k as int + 1)[k as int] == groups[k as int]);
            assert(groups[k as int] == rough@[k as int]@);
        }
        let p = trim(rough[k].as_str());
        if p.as_str().unicode_len() > 0 {
            out.push(p);
            proof {
                assert(out@.map_values(|q: String| q@) =~= pre.push(
                    spec_trim(groups[k as int]),
                ));
            }
        }
        k += 1;
    }
    proof {
        assert(groups.subrange(0, n as int) =~= groups);
    }
    out
}

/// The paragraphs dealt round-robin into `parts` slots in order: slot `k`
/// takes the paragraphs at positions `k`, `k + parts`, and so on, joined
/// with blank lines.
pub fn distribute_round_robin(paragraphs: &Vec<String>, parts: usize) -> (r: Vec<String>)
    requires
        parts > 0,
        forall|i: int| 0 <= i < paragraphs@.len() ==> (#[trigger] paragraphs@[i])@.len() > 0,
    ensures
        r@.len() == parts,
        forall|k: int|
            0 <= k < parts ==> (#[trigger] r@[k])@ == spec_join(
                spec_every_nth(
                    paragraphs@.map_values(|p: String| p@),
                    parts as int,
                    k,
                ),
                spec_separator(),
            ),
{
    let ghost paras = paragraphs@.map_values(|p: String| p@);
    let mut out: Vec<String> = Vec::new();
    let mut k: usize = 0;
    while k < parts
        invariant
            0 <= k <= parts,
            out@.len() == k,
            forall|t: int| 0 <= t < k ==> (#[trigger] out@[t])@.len() == 0,
        decreases parts - k,
    {
        out.push(String::new());
        k += 1;
    }
    proof {
        assert(paras.subrange(0, 0) =~= Seq::<Seq<char>>::empty());
        assert forall|t: int| 0 <= t < parts implies (#[trigger] out@[t])@ == spec_join(
            spec_every_nth(paras.subrange(0, 0), parts as int, t),
            spec_separator(),
        ) by {
            assert(spec_every_nth(paras.subrange(0, 0), parts as int, t)
                =~= Seq::<Seq<char>>::empty());
        }
    }
    let m = paragraphs.len();
    let mut idx: usize = 0;
    while idx < m
        invariant
            0 <= idx <= m,
            0 < parts,
            m == paragraphs@.len(),
            paras == paragraphs@.map_values(|p: String| p@),
            forall|i: int| 0 <= i < paras.len() ==> (#[trigger] paras[i]).len() > 0,
            out@.len() == parts,
            forall|t: int|
                0 <= t < parts ==> (#[trigger] out@[t])@ == spec_join(
                    spec_every_nth(paras.subrange(0, idx as int), parts as int, t),
                    spec_separator(),
                ),
        decreases m - idx,
    {
        let ghost taken = paras.subrange(0, idx as int);
        proof {
            vstd::arithmetic::div_mod::lemma_mod_bound(idx as int, parts as int);
            assert(paras.subrange(0, idx as int + 1).subrange(0, idx as int) =~= taken);
            assert(paras.subrange(0, idx as int + 1)[idx as int] == paras[idx as int]);
            assert(paras[idx as int] == paragraphs@[idx as int]@);
        }
        let slot = idx % parts;
        let ghost pre_slot = out@[slot as int]@;
        let ghost slot_items = spec_every_nth(taken, parts as int, slot as int);
        proof {
            // the slot is empty exactly while it has taken nothing, since
            // every paragraph is non-blank
            assert forall|i: int| 0 <= i < taken.len() implies (#[trigger] taken[i]).len()
                > 0 by {
                assert(taken[i] == paras[i]);
            }
            lemma_every_nth_nonblank(taken, parts as int, slot as int);
            if pre_slot.len() == 0 && slot_items.len() > 0 {
                lemma_join_nonempty(slot_items, spec_separator());
            }
        }
        if out[slot].as_str().unicode_len() > 0 {
            out[slot].append("\n\n");
        }
        let p = paragraphs[idx].as_str();
        out[slot].append(p);
        proof {
            crate::orchestrator::lemma_join_push(
                slot_items,
                spec_separator(),
                paras[idx as int],
            );
            assert(spec_every_nth(paras.subrange(0, idx as int + 1), parts as int, slot as int)
                =~= slot_items.push(paras[idx as int]));
            assert forall|t: int| 0 <= t < parts implies (#[trigger] out@[t])@ == spec_join(
                spec_every_nth(paras.subrange(0, idx as int + 1), parts as int, t),
                spec_separator(),
            ) by {
                if t != slot as int {
                    assert(spec_every_nth(
                        paras.subrange(0, idx as int + 1),
                        parts as int,
                        t,
                    ) =~= spec_every_nth(taken, parts as int, t));
                }
            }
        }
        idx += 1;
    }
    proof {
        assert(paras.subrange(0, m as int) =~= paras);
    }
    out
}

/// A join of a non-empty list opening with non-blank text is non-empty.
proof fn lemma_join_nonempty(items: Seq<Seq<char>>, sep: Seq<char>)
    requires
        items.len() > 0,
        items[0].len() > 0,
    ensures
        spec_join(items, sep).len() > 0,
{
}

/// Every round-robin pick keeps its text: dealing non-blank paragraphs
/// never produces a blank pick.
proof fn lemma_every_nth_nonblank(items: Seq<Seq<char>>, parts: int, k: int)
    requires
        parts > 0,
        forall|i: int| 0 <= i < items.len() ==> (#[trigger] items[i]).len() > 0,
    ensures
        forall|j: int|
            0 <= j < spec_every_nth(items, parts, k).len() ==> (#[trigger] spec_every_nth(
                items,
                parts,
                k,
            )[j]).len() > 0,
    decreases items.len(),
{
    if items.len() > 0 {
        let head_items = items.subrange(0, items.len() - 1);
        lemma_every_nth_nonblank(head_items, parts, k);
        let picked = spec_every_nth(items, parts, k);
        let head = spec_every_nth(head_items, parts, k);
        assert forall|j: int| 0 <= j < picked.len() implies (#[trigger] picked[j]).len() > 0 by {
            if (items.len() - 1) % parts == k {
                if j < head.len() {
                    assert(picked[j] == head[j]);
                } else {
                    assert(picked[j] == items[items.len() - 1]);
                }
            } else {
                assert(picked[j] == head[j]);
            }
        }
    }
}

/// The paragraph groups of a text: runs of non-blank lines joined with
/// newlines, separated by blank lines.
fn split_paragraphs(text: &str) -> (r: Vec<String>)
    ensures
        r@.map_values(|p: String| p@) == spec_paragraph_groups(
            crate::text::spec_split_char(text@, '\n'),
            Seq::empty(),
        ),
{
    let lines = split_char(text, '\n');
    let ghost all = crate::text::spec_split_char(text@, '\n');
    let mut out: Vec<String> = Vec::new();
    let mut current = String::new();
    let n = lines.len();
    proof {
        assert(all.subrange(0, n as int) =~= all);
        assert(out@.map_values(|p: String| p@) + Seq::<Seq<char>>::empty()
            =~= Seq::<Seq<char>>::empty());
    }
    let mut k: usize = 0;
    while k < n
        invariant
            0 <= k <= n,
            n == lines@.len(),
            all == lines@.map_values(|l: String| l@),
            all == crate::text::spec_split_char(text@, '\n'),
            spec_paragraph_groups(all, Seq::empty()) == out@.map_values(|p: String| p@)
                + spec_paragraph_groups(all.subrange(k as int, n as int), current@),
        decreases n - k,
    {
        let ghost pre = out@.map_values(|p: String| p@);
        let ghost pending = all.subrange(k as int, n as int);
        proof {
            assert(pending[0] == all[k as int]);
            assert(all[k as int] == lines@[k as int]@);
            assert(pending.subrange(1, pending.len() as int) =~= all.subrange(
                k as int + 1,
                n as int,
            ));
        }
        let line = lines[k].as_str();
        let t = trim(line);
        if t.as_str().unicode_len() == 0 {
            if current.as_str().unicode_len() > 0 {
                let ghost closed = current@;
                out.push(current);
                current = String::new();
                proof {
                    assert(out@.map_values(|p: String| p@) =~= pre.push(closed));
                    assert((pre + (seq![closed] + spec_paragraph_groups(
                        all.subrange(k as int + 1, n as int),
                        Seq::empty(),
                    ))) =~= (pre.push(closed) + spec_paragraph_groups(
                        all.subrange(k as int + 1, n as int),
                        Seq::empty(),
                    )));
                }
            }
        } else {
            if current.as_str().unicode_len() > 0 {
                current.append("\n");
            }
            current.append(line);
        }
        k += 1;
    }
    proof {
        assert(all.subrange(n as int, n as int) =~= Seq::<Seq<char>>::empty());
    }
    if current.as_str().unicode_len() > 0 {
        let ghost pre = out@.map_values(|p: String| p@);
        let ghost closed = current@;
        out.push(current);
        proof {
            assert(out@.map_values(|p: String| p@) =~= pre.push(closed));
            assert(pre + seq![closed] =~= pre.push(closed));
        }
        return out;
    }
    proof {
        assert(out@.map_values(|p: String| p@) + Seq::<Seq<char>>::empty() =~= out@.map_values(
            |p: String| p@,
        ));
    }
    out
}

/// A subtitle timestamp: hours, minutes, seconds and milliseconds, with the
/// format's own fraction separator.
pub open spec fn spec_timestamp(ms: int, fmt: SubtitleFormat) -> Seq<char> {
    let sep: Seq<char> = match fmt {
        SubtitleFormat::Srt => ","@,
        SubtitleFormat::Vtt => "."@,
    };
    spec_dec2(ms / 3_600_000) + ":"@ + spec_dec2((ms % 3_600_000) / 60_000) + ":"@ + spec_dec2(
        (ms % 60_000) / 1000,
    ) + sep + crate::text::spec_dec3(ms % 1000)
}

/// A subtitle timestamp of a millisecond reading.
pub fn format_timestamp(ms: u64, fmt: SubtitleFormat) -> (r: String)
    ensures
        r@ == spec_timestamp(ms as int, fmt),
{
    let hours = ms / 3_600_000;
    let minutes = (ms % 3_600_000) / 60_000;
    let seconds = (ms % 60_000) / 1000;
    let millis = ms % 1000;
    let mut out = u64_to_string2(hours);
    out.append(":");
    let m = u64_to_string2(minutes);
    out.append(m.as_str());
    out.append(":");
    let s = u64_to_string2(seconds);
    out.append(s.as_str());
    match fmt {
        SubtitleFormat::Srt => out.append(","),
        SubtitleFormat::Vtt => out.append("."),
    }
    let f = crate::text::u64_to_string3(millis);
    out.append(f.as_str());
    out
}

} // verus!
