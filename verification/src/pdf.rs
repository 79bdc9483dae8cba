//! Document page handling: the rendered-page records, the page numbers the
//! rasterizer hides in its output file names, and the page count read from
//! the document-info listing.

use vstd::prelude::*;
use vstd::string::StrSliceExecFns;
use crate::media::{spec_ext_of_name, spec_file_name, spec_last_dot};
use crate::text::{all_digits, parse_u32, spec_find, spec_num, spec_split_char, spec_trim,
    split_char, trim};

verus! {

/// One rendered page of a document.
#[derive(Debug, Clone)]
pub struct PdfPage {
    pub path: String,
    pub page_number: u32,
}

/// The file stem of a name: the part its extension is cut from.
pub open spec fn spec_stem(name: Seq<char>) -> Seq<char> {
    if spec_ext_of_name(name) is Some {
        name.subrange(0, spec_last_dot(name))
    } else {
        name
    }
}

/// The page number the rasterizer appends to an output file's stem: the
/// digits after the stem's last dash.
pub open spec fn spec_page_number(path: Seq<char>) -> Option<u32> {
    let stem = spec_stem(spec_file_name(path));
    if exists|i: int| 0 <= i < stem.len() && stem[i] == '-' {
        let i = spec_last_dash(stem);
        let digits = stem.subrange(i + 1, stem.len() as int);
        if digits.len() > 0 && all_digits(digits) && spec_num(digits) <= u32::MAX {
            Some(spec_num(digits) as u32)
        } else {
            None
        }
    } else {
        None
    }
}

/// The position of the last dash in the stem.
pub open spec fn spec_last_dash(stem: Seq<char>) -> int {
    choose|i: int|
        0 <= i < stem.len() && stem[i] == '-' && (forall|j: int|
            i < j < stem.len() ==> stem[j] != '-')
}

proof fn lemma_last_dash(stem: Seq<char>, i: int)
    requires
        0 <= i < stem.len(),
        stem[i] == '-',
        forall|j: int| i < j < stem.len() ==> stem[j] != '-',
    ensures
        spec_last_dash(stem) == i,
{
    let w = spec_last_dash(stem);
    assert(0 <= w < stem.len() && stem[w] == '-' && (forall|j: int|
        w < j < stem.len() ==> stem[j] != '-'));
    if w < i {
        assert(stem[i] != '-');
    } else if w > i {
        assert(stem[w] != '-');
    }
}

/// The file stem of a path's final component.
pub fn file_stem(path: &str) -> (r: String)
    ensures
        r@ == spec_stem(spec_file_name(path@)),
{
    let name_owned = crate::media::file_name(path);
    let name = name_owned.as_str();
    let n = name.unicode_len();
    let mut dot: usize = 0;
    let mut found = false;
    let mut i: usize = 0;
    while i < n
        invariant
            0 <= i <= n,
            n == name@.len(),
            found ==> 0 < dot < n && name@[dot as int] == '.',
            found ==> forall|j: int| dot < j < i ==> name@[j] != '.',
            !found ==> forall|j: int| 0 < j < i ==> name@[j] != '.',
            found ==> dot < i,
        decreases n - i,
    {
        if i > 0 && name.get_char(i) == '.' {
            dot = i;
            found = true;
        }
        i += 1;
    }
    if !found {
        proof {
            assert(name@.subrange(0, n as int) =~= name@);
        }
        let whole = name.substring_char(0, n);
        return <String as vstd::string::StringExecFns>::from_str(whole);
    }
    proof {
        crate::media::lemma_last_dot_public(name@, dot as int);
    }
    let piece = name.substring_char(0, dot);
    <String as vstd::string::StringExecFns>::from_str(piece)
}

/// The page number hidden in a rasterizer output file's name, if one is.
pub fn parse_pdftoppm_page_number(path: &str) -> (r: Option<u32>)
    ensures
        r == spec_page_number(path@),
{
    let stem_owned = file_stem(path);
    let stem = stem_owned.as_str();
    let n = stem.unicode_len();
    let mut dash: usize = 0;
    let mut found = false;
    let mut i: usize = 0;
    while i < n
        invariant
            0 <= i <= n,
            n == stem@.len(),
            found ==> 0 <= dash < n && stem@[dash as int] == '-',
            found ==> forall|j: int| dash < j < i ==> stem@[j] != '-',
            !found ==> forall|j: int| 0 <= j < i ==> stem@[j] != '-',
            found ==> dash < i,
        decreases n - i,
    {
        if stem.get_char(i) == '-' {
            dash = i;
            found = true;
        }
        i += 1;
    }
    if !found {
        return None;
    }
    proof {
        lemma_last_dash(stem@, dash as int);
    }
    let digits = stem.substring_char(dash + 1, n);
    match parse_u32(digits) {
        Some(v) => Some(v),
        None => None,
    }
}

/// The page count in a document-info listing: the digits of the first line
/// that opens with the pages label.
pub open spec fn spec_page_count(text: Seq<char>) -> Option<u32> {
    spec_page_count_lines(spec_split_char(text, '\n'))
}

pub open spec fn spec_page_count_lines(lines: Seq<Seq<char>>) -> Option<u32>
    decreases lines.len(),
{
    if lines.len() == 0 {
        None
    } else if lines[0].len() >= 6 && lines[0].subrange(0, 6) == "Pages:"@ {
        let digits = spec_trim(lines[0].subrange(6, lines[0].len() as int));
        if digits.len() > 0 && all_digits(digits) && spec_num(digits) <= u32::MAX {
            Some(spec_num(digits) as u32)
        } else {
            None
        }
    } else {
        spec_page_count_lines(lines.subrange(1, lines.len() as int))
    }
}

/// The page count in a document-info listing.
pub fn page_count(text: &str) -> (r: Option<u32>)
    ensures
        r == spec_page_count(text@),
{
    let lines = split_char(text, '\n');
    let ghost all = spec_split_char(text@, '\n');
    let n = lines.len();
    proof {
        assert(all.subrange(0, n as int) =~= all);
    }
    let mut k: usize = 0;
    while k < n
        invariant
            0 <= k <= n,
            n == lines@.len(),
            all == lines@.map_values(|l: String| l@),
            all == spec_split_char(text@, '\n'),
            spec_page_count_lines(all) == spec_page_count_lines(all.subrange(k as int, n as int)),
        decreases n - k,
    {
        let ghost pending = all.subrange(k as int, n as int);
        proof {
            assert(pending[0] == all[k as int]);
            assert(all[k as int] == lines@[k as int]@);
            assert(pending.subrange(1, pending.len() as int) =~= all.subrange(
                k as int + 1,
                n as int,
            ));
        }
        let line = lines[k].as_str();
        if line.unicode_len() >= 6 {
            let head = line.substring_char(0, 6);
            if crate::text::str_eq(head, "Pages:") {
                let rest = line.substring_char(6, line.unicode_len());
                let trimmed = trim(rest);
                return match parse_u32(trimmed.as_str()) {
                    Some(v) => Some(v),
                    None => None,
                };
            }
        }
        k += 1;
    }
    proof {
        assert(all.subrange(n as int, n as int) =~= Seq::<Seq<char>>::empty());
    }
    None
}

} // verus!
