//! Page selections: the "1,3-5,10-" syntax, parsed into spans and resolved
//! against a document's page count into sorted, merged, one-based ranges.

use vstd::prelude::*;
use vstd::string::StrSliceExecFns;
use crate::text::{all_digits, find_char, parse_u32, spec_find, spec_num, spec_split_char,
    spec_trim, split_char, str_eq, trim};

verus! {

/// One comma-separated piece of a selection: an optionally open-ended range.
/// An absent bound means "from the first page" or "to the last page".
#[derive(Debug, Clone, Copy, PartialEq, Eq, Structural)]
pub struct IndexSpan {
    pub start: Option<u32>,
    pub end: Option<u32>,
}

/// Why a selection cannot be parsed or resolved.
#[derive(Debug, Clone, Copy, PartialEq, Eq, Structural)]
pub enum SelectionError {
    /// The selection string is empty.
    EmptySelection,
    /// A comma-separated segment is empty.
    EmptySegment,
    /// A page index is not a number the type can hold.
    InvalidIndex,
    /// Page indexes are one-based; zero was given.
    ZeroIndex,
    /// A range's start exceeds its end.
    InvertedRange,
    /// The document's page count must be positive.
    ZeroTotal,
    /// A range starts beyond the document's last page.
    StartBeyondTotal,
    /// A range ends beyond the document's last page.
    EndBeyondTotal,
    /// The selection resolves to no pages at all.
    NoPages,
}

/// A parsed page selection.
#[derive(Debug, Clone, PartialEq, Eq)]
pub struct IndexSelection {
    spans: Vec<IndexSpan>,
}

/// One optional bound of a range: empty means absent, otherwise a positive
/// page number.
pub open spec fn spec_parse_optional_index(s: Seq<char>) -> Result<Option<u32>, SelectionError> {
    let t = spec_trim(s);
    if t.len() == 0 {
        Ok(None)
    } else if all_digits(t) && spec_num(t) <= u32::MAX {
        if spec_num(t) == 0 {
            Err(SelectionError::ZeroIndex)
        } else {
            Ok(Some(spec_num(t) as u32))
        }
    } else {
        Err(SelectionError::InvalidIndex)
    }
}

/// One comma-separated token: a bare dash selects everything, a token with
/// a dash is a range with optional bounds, anything else is a single page.
pub open spec fn spec_parse_token(tok: Seq<char>) -> Result<IndexSpan, SelectionError> {
    let t = spec_trim(tok);
    if t.len() == 0 {
        Err(SelectionError::EmptySegment)
    } else if t == "-"@ {
        Ok(IndexSpan { start: None, end: None })
    } else {
        match spec_find(t, '-') {
            Some(i) => {
                let lhs = spec_parse_optional_index(t.subrange(0, i));
                let rhs = spec_parse_optional_index(t.subrange(i + 1, t.len() as int));
                if lhs is Err {
                    Err(lhs->Err_0)
                } else if rhs is Err {
                    Err(rhs->Err_0)
                } else if lhs->Ok_0 is Some && rhs->Ok_0 is Some && lhs->Ok_0->0 > rhs->Ok_0->0 {
                    Err(SelectionError::InvertedRange)
                } else {
                    Ok(IndexSpan { start: lhs->Ok_0, end: rhs->Ok_0 })
                }
            },
            None => {
                if all_digits(t) && spec_num(t) <= u32::MAX {
                    if spec_num(t) == 0 {
                        Err(SelectionError::ZeroIndex)
                    } else {
                        Ok(
                            IndexSpan {
                                start: Some(spec_num(t) as u32),
                                end: Some(spec_num(t) as u32),
                            },
                        )
                    }
                } else {
                    Err(SelectionError::InvalidIndex)
                }
            },
        }
    }
}

/// All tokens parsed in order; the first failure wins.
pub open spec fn spec_parse_tokens(toks: Seq<Seq<char>>) -> Result<Seq<IndexSpan>, SelectionError>
    decreases toks.len(),
{
    if toks.len() == 0 {
        Ok(Seq::empty())
    } else {
        match spec_parse_token(toks[0]) {
            Err(e) => Err(e),
            Ok(span) => match spec_parse_tokens(toks.subrange(1, toks.len() as int)) {
                Err(e) => Err(e),
                Ok(rest) => Ok(seq![span] + rest),
            },
        }
    }
}

/// The whole selection grammar: a trimmed empty string is rejected, "*" and
/// "all" select everything, anything else is comma-separated tokens.
pub open spec fn spec_parse_selection(s: Seq<char>) -> Result<Seq<IndexSpan>, SelectionError> {
    let t = spec_trim(s);
    if t.len() == 0 {
        Err(SelectionError::EmptySelection)
    } else if t == "*"@ || t == "all"@ {
        Ok(seq![IndexSpan { start: None, end: None }])
    } else {
        spec_parse_tokens(spec_split_char(t, ','))
    }
}

/// A span resolved against the document: absent bounds become the first and
/// last pages.
pub open spec fn spec_resolve(span: IndexSpan, total: u32) -> (u32, u32) {
    (
        if span.start is Some {
            span.start->0
        } else {
            1
        },
        if span.end is Some {
            span.end->0
        } else {
            total
        },
    )
}

/// Spans resolved in order; bounds are checked against the document and
/// inverted spans are dropped; the first failure wins.
pub open spec fn spec_resolve_spans(spans: Seq<IndexSpan>, total: u32) -> Result<
    Seq<(u32, u32)>,
    SelectionError,
>
    decreases spans.len(),
{
    if spans.len() == 0 {
        Ok(Seq::empty())
    } else {
        let (start, end) = spec_resolve(spans[0], total);
        let rest = spans.subrange(1, spans.len() as int);
        if start == 0 || end == 0 {
            Err(SelectionError::ZeroIndex)
        } else if start > total {
            Err(SelectionError::StartBeyondTotal)
        } else if end > total {
            Err(SelectionError::EndBeyondTotal)
        } else {
            match spec_resolve_spans(rest, total) {
                Err(e) => Err(e),
                Ok(tail) => if start > end {
                    Ok(tail)
                } else {
                    Ok(seq![(start, end)] + tail)
                },
            }
        }
    }
}

/// Every range a successful resolution produces lies within the document.
pub proof fn lemma_resolved_bounds(spans: Seq<IndexSpan>, total: u32)
    requires
        total > 0,
        spec_resolve_spans(spans, total) is Ok,
    ensures
        forall|i: int|
            0 <= i < spec_resolve_spans(spans, total)->Ok_0.len() ==> 1 <= (
            #[trigger] spec_resolve_spans(spans, total)->Ok_0[i]).0 && spec_resolve_spans(
                spans,
                total,
            )->Ok_0[i].0 <= spec_resolve_spans(spans, total)->Ok_0[i].1 && spec_resolve_spans(
                spans,
                total,
            )->Ok_0[i].1 <= total,
    decreases spans.len(),
{
    if spans.len() > 0 {
        let rest = spans.subrange(1, spans.len() as int);
        lemma_resolved_bounds(rest, total);
        let (start, end) = spec_resolve(spans[0], total);
        if start <= end {
            let tail = spec_resolve_spans(rest, total)->Ok_0;
            let whole = spec_resolve_spans(spans, total)->Ok_0;
            assert(whole == seq![(start, end)] + tail);
            assert forall|i: int| 0 <= i < whole.len() implies 1 <= (#[trigger] whole[i]).0
                && whole[i].0 <= whole[i].1 && whole[i].1 <= total by {
                if i > 0 {
                    assert(whole[i] == tail[i - 1]);
                }
            }
        }
    }
}

/// Is a page inside one of the ranges?
pub open spec fn covers(rs: Seq<(u32, u32)>, p: u32) -> bool {
    exists|i: int| 0 <= i < rs.len() && #[trigger] rs[i].0 <= p && p <= rs[i].1
}

/// Ranges in ascending order, each within the document, none touching its
/// neighbour: the shape `merged_ranges` promises.
pub open spec fn sorted_disjoint(rs: Seq<(u32, u32)>, total: u32) -> bool {
    &&& forall|i: int| 0 <= i < rs.len() ==> 1 <= #[trigger] rs[i].0 && rs[i].0 <= rs[i].1
        && rs[i].1 <= total
    &&& forall|i: int| 0 <= i < rs.len() - 1 ==> #[trigger] rs[i].1 + 1 < #[trigger] rs[i + 1].0
}

/// Ranges ordered by start, then end.
pub open spec fn lex_sorted(rs: Seq<(u32, u32)>) -> bool {
    forall|i: int, j: int|
        0 <= i < j < rs.len() ==> (#[trigger] rs[i].0 < #[trigger] rs[j].0 || (rs[i].0 == rs[j].0
            && rs[i].1 <= rs[j].1))
}

proof fn lemma_covers_insert(out: Seq<(u32, u32)>, pos: int, r: (u32, u32), p: u32)
    requires
        0 <= pos <= out.len(),
    ensures
        covers(out.insert(pos, r), p) <==> (covers(out, p) || (r.0 <= p && p <= r.1)),
{
    let ins = out.insert(pos, r);
    if covers(ins, p) {
        let i = choose|i: int| 0 <= i < ins.len() && #[trigger] ins[i].0 <= p && p <= ins[i].1;
        if i == pos {
        } else if i < pos {
            assert(ins[i] == out[i]);
            assert(covers(out, p));
        } else {
            assert(ins[i] == out[i - 1]);
            assert(covers(out, p));
        }
    }
    if covers(out, p) {
        let i = choose|i: int| 0 <= i < out.len() && #[trigger] out[i].0 <= p && p <= out[i].1;
        if i < pos {
            assert(ins[i] == out[i]);
            assert(covers(ins, p));
        } else {
            assert(ins[i + 1] == out[i]);
            assert(covers(ins, p));
        }
    }
    if r.0 <= p && p <= r.1 {
        assert(ins[pos] == r);
        assert(covers(ins, p));
    }
}

impl IndexSelection {
    /// The parsed spans.
    pub closed spec fn spec_spans(&self) -> Seq<IndexSpan> {
        self.spans@
    }

    /// Parse a selection string: "*" or "all", or comma-separated pages and
    /// ranges such as "1,3-5,10-". Page indexes are one-based; a range with
    /// its start above its end is rejected.
    pub fn parse(input: &str) -> (r: Result<IndexSelection, SelectionError>)
        ensures
            match r {
                Ok(sel) => spec_parse_selection(input@) == Ok::<_, SelectionError>(
                    sel.spec_spans(),
                ),
                Err(e) => spec_parse_selection(input@) == Err::<Seq<IndexSpan>, _>(e),
            },
    {
        let trimmed = trim(input);
        let t = trimmed.as_str();
        if t.unicode_len() == 0 {
            return Err(SelectionError::EmptySelection);
        }
        if str_eq(t, "*") || str_eq(t, "all") {
            let mut spans: Vec<IndexSpan> = Vec::new();
            spans.push(IndexSpan { start: None, end: None });
            return Ok(IndexSelection { spans });
        }
        let tokens = split_char(t, ',');
        let ghost toks = spec_split_char(t@, ',');
        let mut spans: Vec<IndexSpan> = Vec::new();
        let n = tokens.len();
        proof {
            assert(toks.subrange(0, n as int) =~= toks);
            if spec_parse_tokens(toks) is Ok {
                assert(spans@ + spec_parse_tokens(toks)->Ok_0 =~= spec_parse_tokens(toks)->Ok_0);
            }
        }
        let mut k: usize = 0;
        while k < n
            invariant
                0 <= k <= n,
                n == tokens@.len(),
                toks == tokens@.map_values(|t: String| t@),
                toks.len() == n,
                toks == spec_split_char(spec_trim(input@), ','),
                spec_trim(input@).len() > 0,
                spec_trim(input@) != "*"@,
                spec_trim(input@) != "all"@,
                spec_parse_tokens(toks) == match spec_parse_tokens(
                    toks.subrange(k as int, n as int),
                ) {
                    Err(e) => Err::<Seq<IndexSpan>, SelectionError>(e),
                    Ok(rest) => Ok(spans@ + rest),
                },
            decreases n - k,
        {
            let ghost pending = toks.subrange(k as int, n as int);
            match parse_token(tokens[k].as_str()) {
                Err(e) => {
                    proof {
                        assert(toks[k as int] == tokens@[k as int]@);
                        assert(pending[0] == toks[k as int]);
                    }
                    return Err(e);
                },
                Ok(span) => {
                    proof {
                        assert(toks[k as int] == tokens@[k as int]@);
                        assert(pending[0] == toks[k as int]);
                        assert(pending.subrange(1, pending.len() as int) =~= toks.subrange(
                            k as int + 1,
                            n as int,
                        ));
                    }
                    let ghost prev = spans@;
                    spans.push(span);
                    proof {
                        if spec_parse_tokens(toks.subrange(k as int + 1, n as int)) is Ok {
                            let rest = spec_parse_tokens(
                                toks.subrange(k as int + 1, n as int),
                            )->Ok_0;
                            assert(prev + (seq![span] + rest) =~= spans@ + rest);
                        }
                    }
                },
            }
            k += 1;
        }
        proof {
            assert(toks.subrange(n as int, n as int) =~= Seq::<Seq<char>>::empty());
            assert(spans@ + Seq::<IndexSpan>::empty() =~= spans@);
        }
        Ok(IndexSelection { spans })
    }

    /// Does the selection name every page, whatever the document's size?
    pub fn is_full(&self) -> (r: bool)
        ensures
            r == exists|i: int|
                0 <= i < self.spec_spans().len() && (#[trigger] self.spec_spans()[i]).start is None
                    && self.spec_spans()[i].end is None,
    {
        let n = self.spans.len();
        let mut k: usize = 0;
        while k < n
            invariant
                0 <= k <= n,
                n == self.spans@.len(),
                forall|j: int|
                    0 <= j < k ==> !((#[trigger] self.spans@[j]).start is None
                        && self.spans@[j].end is None),
            decreases n - k,
        {
            if self.spans[k].start.is_none() && self.spans[k].end.is_none() {
                return true;
            }
            k += 1;
        }
        false
    }

    /// Resolve the selection against a document of `total` pages: every
    /// span becomes a concrete one-based range, the ranges are sorted, and
    /// overlapping or touching ranges are merged. The result covers exactly
    /// the pages the resolved spans cover, in ascending disjoint ranges.
    pub fn merged_ranges(&self, total: u32) -> (r: Result<Vec<(u32, u32)>, SelectionError>)
        ensures
            total == 0 ==> r == Err::<Vec<(u32, u32)>, _>(SelectionError::ZeroTotal),
            total > 0 ==> match spec_resolve_spans(self.spec_spans(), total) {
                Err(e) => r == Err::<Vec<(u32, u32)>, _>(e),
                Ok(resolved) => if resolved.len() == 0 {
                    r == Err::<Vec<(u32, u32)>, _>(SelectionError::NoPages)
                } else {
                    &&& r is Ok
                    &&& sorted_disjoint(r->Ok_0@, total)
                    &&& forall|p: u32| covers(r->Ok_0@, p) <==> covers(resolved, p)
                },
            },
    {
        if total == 0 {
            return Err(SelectionError::ZeroTotal);
        }
        let resolved = match self.resolve_spans(total) {
            Ok(v) => v,
            Err(e) => {
                return Err(e);
            },
        };
        if resolved.len() == 0 {
            return Err(SelectionError::NoPages);
        }
        let ghost resolved_view = resolved@;
        proof {
            lemma_resolved_bounds(self.spans@, total);
        }
        let sorted = sort_ranges(resolved);
        proof {
            assert forall|i: int| 0 <= i < sorted@.len() implies 1 <= (#[trigger] sorted@[i]).0
                && sorted@[i].0 <= sorted@[i].1 && sorted@[i].1 <= total by {
                assert(resolved_view.contains(sorted@[i]));
                let j = choose|j: int|
                    0 <= j < resolved_view.len() && resolved_view[j] == sorted@[i];
                assert(resolved_view[j] == spec_resolve_spans(
                    self.spec_spans(),
                    total,
                )->Ok_0[j]);
            }
        }
        let merged = merge_sorted(&sorted, total);
        proof {
            assert forall|p: u32| covers(merged@, p) <==> covers(resolved_view, p) by {
                assert(covers(sorted@, p) == covers(resolved_view, p));
            }
        }
        Ok(merged)
    }

    /// Every span resolved and bounds-checked, inverted spans dropped.
    fn resolve_spans(&self, total: u32) -> (r: Result<Vec<(u32, u32)>, SelectionError>)
        requires
            total > 0,
        ensures
            match r {
                Ok(v) => spec_resolve_spans(self.spec_spans(), total) == Ok::<
                    _,
                    SelectionError,
                >(v@),
                Err(e) => spec_resolve_spans(self.spec_spans(), total) == Err::<Seq<(u32, u32)>, _>(
                    e,
                ),
            },
    {
        let ghost spans = self.spans@;
        let n = self.spans.len();
        let mut out: Vec<(u32, u32)> = Vec::new();
        proof {
            assert(spans.subrange(0, n as int) =~= spans);
            if spec_resolve_spans(spans, total) is Ok {
                assert(out@ + spec_resolve_spans(spans, total)->Ok_0 =~= spec_resolve_spans(
                    spans,
                    total,
                )->Ok_0);
            }
        }
        let mut k: usize = 0;
        while k < n
            invariant
                0 <= k <= n,
                n == self.spans@.len(),
                spans == self.spans@,
                spec_resolve_spans(spans, total) == match spec_resolve_spans(
                    spans.subrange(k as int, n as int),
                    total,
                ) {
                    Err(e) => Err::<Seq<(u32, u32)>, SelectionError>(e),
                    Ok(tail) => Ok(out@ + tail),
                },
            decreases n - k,
        {
            let ghost pending = spans.subrange(k as int, n as int);
            proof {
                assert(pending[0] == spans[k as int]);
                assert(pending.subrange(1, pending.len() as int) =~= spans.subrange(
                    k as int + 1,
                    n as int,
                ));
            }
            let span = self.spans[k];
            let start = match span.start {
                Some(v) => v,
                None => 1,
            };
            let end = match span.end {
                Some(v) => v,
                None => total,
            };
            if start == 0 || end == 0 {
                return Err(SelectionError::ZeroIndex);
            }
            if start > total {
                return Err(SelectionError::StartBeyondTotal);
            }
            if end > total {
                return Err(SelectionError::EndBeyondTotal);
            }
            if start <= end {
                let ghost prev = out@;
                out.push((start, end));
                proof {
                    if spec_resolve_spans(spans.subrange(k as int + 1, n as int), total) is Ok {
                        let tail = spec_resolve_spans(
                            spans.subrange(k as int + 1, n as int),
                            total,
                        )->Ok_0;
                        assert(prev + (seq![(start, end)] + tail) =~= out@ + tail);
                    }
                }
            }
            k += 1;
        }
        proof {
            assert(spans.subrange(n as int, n as int) =~= Seq::<IndexSpan>::empty());
            assert(out@ + Seq::<(u32, u32)>::empty() =~= out@);
        }
        Ok(out)
    }
}

/// Ranges sorted by start, then end, covering the same pages.
fn sort_ranges(input: Vec<(u32, u32)>) -> (out: Vec<(u32, u32)>)
    ensures
        lex_sorted(out@),
        out@.len() == input@.len(),
        forall|p: u32| covers(out@, p) <==> covers(input@, p),
        forall|i: int| 0 <= i < out@.len() ==> input@.contains(#[trigger] out@[i]),
{
    let ghost orig = input@;
    let n = input.len();
    let mut out: Vec<(u32, u32)> = Vec::new();
    let mut k: usize = 0;
    while k < n
        invariant
            0 <= k <= n,
            n == orig.len(),
            input@ == orig,
            out@.len() == k,
            lex_sorted(out@),
            forall|p: u32| covers(out@, p) <==> covers(orig.subrange(0, k as int), p),
            forall|i: int| 0 <= i < out@.len() ==> orig.contains(#[trigger] out@[i]),
        decreases n - k,
    {
        let r = input[k];
        // find the first position whose element is lexicographically above r
        let m = out.len();
        let mut pos: usize = 0;
        while pos < m && (out[pos].0 < r.0 || (out[pos].0 == r.0 && out[pos].1 <= r.1))
            invariant
                0 <= pos <= m,
                m == out@.len(),
                forall|j: int|
                    0 <= j < pos ==> (#[trigger] out@[j].0 < r.0 || (out@[j].0 == r.0 && out@[j].1
                        <= r.1)),
            decreases m - pos,
        {
            pos += 1;
        }
        let ghost pre = out@;
        out.insert(pos, r);
        proof {
            assert(out@ == pre.insert(pos as int, r));
            assert forall|a: int, b: int| 0 <= a < b < out@.len() implies (#[trigger] out@[a].0
                < #[trigger] out@[b].0 || (out@[a].0 == out@[b].0 && out@[a].1 <= out@[b].1)) by {
                if b < pos {
                    assert(out@[a] == pre[a] && out@[b] == pre[b]);
                } else if a < pos && b == pos {
                    assert(out@[a] == pre[a] && out@[b] == r);
                } else if a == pos {
                    assert(out@[b] == pre[b - 1]);
                    assert(!(pre[pos as int].0 < r.0 || (pre[pos as int].0 == r.0
                        && pre[pos as int].1 <= r.1)));
                    if b - 1 > pos {
                        assert(pre[pos as int].0 < pre[b - 1].0 || (pre[pos as int].0 == pre[b
                            - 1].0 && pre[pos as int].1 <= pre[b - 1].1));
                    }
                } else if a < pos {
                    assert(out@[a] == pre[a] && out@[b] == pre[b - 1]);
                    if a < b - 1 {
                        assert(pre[a].0 < pre[b - 1].0 || (pre[a].0 == pre[b - 1].0 && pre[a].1
                            <= pre[b - 1].1));
                    }
                } else {
                    assert(out@[a] == pre[a - 1] && out@[b] == pre[b - 1]);
                }
            }
            assert forall|p: u32| covers(out@, p) <==> covers(
                orig.subrange(0, k as int + 1),
                p,
            ) by {
                lemma_covers_insert(pre, pos as int, r, p);
                assert(orig.subrange(0, k as int + 1) =~= orig.subrange(0, k as int).push(r));
                lemma_covers_push(orig.subrange(0, k as int), r, p);
            }
            assert forall|i: int| 0 <= i < out@.len() implies orig.contains(
                #[trigger] out@[i],
            ) by {
                if i < pos {
                    assert(out@[i] == pre[i]);
                } else if i > pos {
                    assert(out@[i] == pre[i - 1]);
                } else {
                    assert(out@[i] == orig[k as int]);
                    assert(orig.contains(orig[k as int]));
                }
            }
        }
        k += 1;
    }
    proof {
        assert(orig.subrange(0, n as int) =~= orig);
    }
    out
}

proof fn lemma_covers_push(out: Seq<(u32, u32)>, r: (u32, u32), p: u32)
    ensures
        covers(out.push(r), p) <==> (covers(out, p) || (r.0 <= p && p <= r.1)),
{
    assert(out.push(r) =~= out.insert(out.len() as int, r));
    lemma_covers_insert(out, out.len() as int, r, p);
}

/// Sorted ranges merged: overlapping or adjacent ranges collapse into one,
/// leaving ascending ranges separated by at least one uncovered page.
fn merge_sorted(sorted: &Vec<(u32, u32)>, total: u32) -> (out: Vec<(u32, u32)>)
    requires
        total > 0,
        lex_sorted(sorted@),
        forall|i: int|
            0 <= i < sorted@.len() ==> 1 <= (#[trigger] sorted@[i]).0 && sorted@[i].0
                <= sorted@[i].1 && sorted@[i].1 <= total,
    ensures
        sorted_disjoint(out@, total),
        forall|p: u32| covers(out@, p) <==> covers(sorted@, p),
        sorted@.len() > 0 ==> out@.len() > 0,
{
    let n = sorted.len();
    let mut out: Vec<(u32, u32)> = Vec::new();
    let mut k: usize = 0;
    while k < n
        invariant
            0 <= k <= n,
            n == sorted@.len(),
            lex_sorted(sorted@),
            forall|i: int|
                0 <= i < sorted@.len() ==> 1 <= (#[trigger] sorted@[i]).0 && sorted@[i].0
                    <= sorted@[i].1 && sorted@[i].1 <= total,
            sorted_disjoint(out@, total),
            k > 0 ==> out@.len() > 0,
            out@.len() > 0 && k < n ==> out@.last().0 <= sorted@[k as int].0,
            forall|p: u32| covers(out@, p) <==> covers(sorted@.subrange(0, k as int), p),
        decreases n - k,
    {
        let (start, end) = sorted[k];
        let ghost pre = out@;
        let m = out.len();
        let mut merged_in: bool = false;
        if m > 0 {
            let (last_start, last_end) = out[m - 1];
            if start - 1 <= last_end {
                // the new range touches or overlaps the last one: widen it
                let new_end = if last_end >= end {
                    last_end
                } else {
                    end
                };
                let new_start = if last_start <= start {
                    last_start
                } else {
                    start
                };
                out[m - 1] = (new_start, new_end);
                merged_in = true;
                proof {
                    assert(out@ =~= pre.update(m - 1, (new_start, new_end)));
                    assert(new_start == last_start);
                    assert forall|p: u32| covers(out@, p) <==> covers(
                        sorted@.subrange(0, k as int + 1),
                        p,
                    ) by {
                        assert(sorted@.subrange(0, k as int + 1) =~= sorted@.subrange(
                            0,
                            k as int,
                        ).push((start, end)));
                        lemma_covers_push(sorted@.subrange(0, k as int), (start, end), p);
                        if covers(out@, p) {
                            let i = choose|i: int|
                                0 <= i < out@.len() && #[trigger] out@[i].0 <= p && p <= out@[i].1;
                            if i < m - 1 {
                                assert(pre[i] == out@[i]);
                                assert(covers(pre, p));
                            } else {
                                if p <= last_end {
                                    assert(covers(pre, p));
                                } else {
                                    assert(start <= p && p <= end);
                                }
                            }
                        }
                        if covers(pre, p) {
                            let i = choose|i: int|
                                0 <= i < pre.len() && #[trigger] pre[i].0 <= p && p <= pre[i].1;
                            if i < m - 1 {
                                assert(out@[i] == pre[i]);
                                assert(covers(out@, p));
                            } else {
                                assert(out@[m - 1].0 <= p && p <= out@[m - 1].1);
                                assert(covers(out@, p));
                            }
                        }
                        if start <= p && p <= end {
                            assert(out@[m - 1].0 <= p && p <= out@[m - 1].1);
                            assert(covers(out@, p));
                        }
                    }
                }
            }
        }
        if !merged_in {
            out.push((start, end));
            proof {
                assert forall|p: u32| covers(out@, p) <==> covers(
                    sorted@.subrange(0, k as int + 1),
                    p,
                ) by {
                    assert(sorted@.subrange(0, k as int + 1) =~= sorted@.subrange(0, k as int).push(
                        (start, end),
                    ));
                    lemma_covers_push(sorted@.subrange(0, k as int), (start, end), p);
                    lemma_covers_push(pre, (start, end), p);
                }
                assert forall|i: int| 0 <= i < out@.len() - 1 implies #[trigger] out@[i].1 + 1
                    < #[trigger] out@[i + 1].0 by {
                    if i < pre.len() - 1 {
                        assert(out@[i] == pre[i] && out@[i + 1] == pre[i + 1]);
                    }
                }
            }
        }
        k += 1;
    }
    proof {
        assert(sorted@.subrange(0, n as int) =~= sorted@);
    }
    out
}

/// One comma-separated token of a selection.
fn parse_token(tok: &str) -> (r: Result<IndexSpan, SelectionError>)
    ensures
        match r {
            Ok(span) => spec_parse_token(tok@) == Ok::<_, SelectionError>(span),
            Err(e) => spec_parse_token(tok@) == Err::<IndexSpan, _>(e),
        },
{
    let trimmed = trim(tok);
    let t = trimmed.as_str();
    if t.unicode_len() == 0 {
        return Err(SelectionError::EmptySegment);
    }
    if str_eq(t, "-") {
        return Ok(IndexSpan { start: None, end: None });
    }
    match find_char(t, '-') {
        Some(i) => {
            let lhs = t.substring_char(0, i);
            let n = t.unicode_len();
            let rhs = t.substring_char(i + 1, n);
            let start = match parse_optional_index(lhs) {
                Ok(v) => v,
                Err(e) => {
                    return Err(e);
                },
            };
            let end = match parse_optional_index(rhs) {
                Ok(v) => v,
                Err(e) => {
                    return Err(e);
                },
            };
            if let (Some(s), Some(e)) = (start, end) {
                if s > e {
                    return Err(SelectionError::InvertedRange);
                }
            }
            Ok(IndexSpan { start, end })
        },
        None => {
            match parse_u32(t) {
                Some(v) => {
                    if v == 0 {
                        Err(SelectionError::ZeroIndex)
                    } else {
                        Ok(IndexSpan { start: Some(v), end: Some(v) })
                    }
                },
                None => Err(SelectionError::InvalidIndex),
            }
        },
    }
}

/// One optional bound of a range.
fn parse_optional_index(input: &str) -> (r: Result<Option<u32>, SelectionError>)
    ensures
        match r {
            Ok(v) => spec_parse_optional_index(input@) == Ok::<_, SelectionError>(v),
            Err(e) => spec_parse_optional_index(input@) == Err::<Option<u32>, _>(e),
        },
{
    let trimmed = trim(input);
    let t = trimmed.as_str();
    if t.unicode_len() == 0 {
        return Ok(None);
    }
    match parse_u32(t) {
        Some(v) => {
            if v == 0 {
                Err(SelectionError::ZeroIndex)
            } else {
                Ok(Some(v))
            }
        },
        None => Err(SelectionError::InvalidIndex),
    }
}

} // verus!
