//! Media classification from file names and MIME types: which pipeline
//! medium a path or a response header denotes.

use vstd::prelude::*;
use vstd::string::StrSliceExecFns;
use vstd::string::StringExecFns;
use crate::text::{eq_ignore_case, matches_keyword, spec_lower, str_eq, to_lower_char};

verus! {

/// The extension of a path under this library's path model: the text after
/// the last dot of the final path component, provided that dot is not the
/// component's first character.
pub open spec fn spec_extension(path: Seq<char>) -> Option<Seq<char>> {
    let name = spec_file_name(path);
    spec_ext_of_name(name)
}

/// The final component of a slash-separated path.
pub open spec fn spec_file_name(path: Seq<char>) -> Seq<char>
    decreases path.len(),
    via spec_file_name_decreases
{
    if path.len() == 0 {
        path
    } else if path[0] == '/' {
        spec_file_name(path.subrange(1, path.len() as int))
    } else {
        match crate::text::spec_find(path, '/') {
            None => path,
            Some(i) => spec_file_name(path.subrange(i + 1, path.len() as int)),
        }
    }
}

#[via_fn]
proof fn spec_file_name_decreases(path: Seq<char>) {
    if path.len() > 0 && path[0] != '/' {
        if crate::text::spec_find(path, '/') is Some {
            crate::text::lemma_find_bounds(path, '/');
        }
    }
}

/// The extension of one file name: after the last dot, unless the dot leads
/// the name or there is none.
pub open spec fn spec_ext_of_name(name: Seq<char>) -> Option<Seq<char>> {
    if exists|i: int| 0 < i < name.len() && name[i] == '.' {
        let i = spec_last_dot(name);
        Some(name.subrange(i + 1, name.len() as int))
    } else {
        None
    }
}

/// The position of the last dot strictly inside the name.
pub open spec fn spec_last_dot(name: Seq<char>) -> int {
    choose|i: int|
        0 < i < name.len() && name[i] == '.' && (forall|j: int|
            i < j < name.len() ==> name[j] != '.')
}

/// The last-dot position is well defined once a dot is known.
pub proof fn lemma_last_dot_public(name: Seq<char>, i: int)
    requires
        0 < i < name.len(),
        name[i] == '.',
        forall|j: int| i < j < name.len() ==> name[j] != '.',
    ensures
        spec_last_dot(name) == i,
{
    lemma_last_dot(name, i);
}

proof fn lemma_last_dot(name: Seq<char>, i: int)
    requires
        0 < i < name.len(),
        name[i] == '.',
        forall|j: int| i < j < name.len() ==> name[j] != '.',
    ensures
        spec_last_dot(name) == i,
{
    let w = spec_last_dot(name);
    assert(0 < w < name.len() && name[w] == '.' && (forall|j: int|
        w < j < name.len() ==> name[j] != '.'));
    if w < i {
        assert(name[i] != '.');
    } else if w > i {
        assert(name[w] != '.');
    }
}

/// The final component of a path.
pub fn file_name(path: &str) -> (r: String)
    ensures
        r@ == spec_file_name(path@),
{
    let n = path.unicode_len();
    let mut cut: usize = 0;
    let mut i: usize = 0;
    while i < n
        invariant
            0 <= cut <= i <= n,
            n == path@.len(),
            cut > 0 ==> path@[cut as int - 1] == '/',
            forall|j: int| cut <= j < i ==> path@[j] != '/',
        decreases n - i,
    {
        if path.get_char(i) == '/' {
            cut = i + 1;
        }
        i += 1;
    }
    let piece = path.substring_char(cut, n);
    proof {
        lemma_file_name_suffix(path@, cut as int);
    }
    String::from_str(piece)
}

proof fn lemma_file_name_suffix(path: Seq<char>, cut: int)
    requires
        0 <= cut <= path.len(),
        cut > 0 ==> path[cut - 1] == '/',
        forall|j: int| cut <= j < path.len() ==> path[j] != '/',
    ensures
        spec_file_name(path) == path.subrange(cut, path.len() as int),
    decreases path.len(),
{
    if cut == 0 {
        if path.len() > 0 {
            crate::text::lemma_find_none(path, '/');
        }
        assert(path.subrange(0, path.len() as int) =~= path);
    } else {
        let tail = path.subrange(1, path.len() as int);
        if path[0] == '/' {
            lemma_file_name_suffix(tail, cut - 1);
            assert(tail.subrange(cut - 1, tail.len() as int) =~= path.subrange(
                cut,
                path.len() as int,
            ));
        } else {
            // a slash exists at cut - 1, so the search finds a first one
            let f = crate::text::spec_find(path, '/');
            if f is None {
                crate::text::lemma_find_none_converse(path, '/');
                assert(path[cut - 1] == '/');
                assert(false);
            }
            crate::text::lemma_find_bounds(path, '/');
            let i = f->0;
            assert(i <= cut - 1);
            let suffix = path.subrange(i + 1, path.len() as int);
            assert(cut - i - 1 > 0 ==> suffix[cut - i - 2] == path[cut - 1]);
            assert forall|j: int| cut - i - 1 <= j < suffix.len() implies suffix[j] != '/' by {
                assert(suffix[j] == path[i + 1 + j]);
            }
            lemma_file_name_suffix(suffix, cut - i - 1);
            assert(suffix.subrange(cut - i - 1, suffix.len() as int) =~= path.subrange(
                cut,
                path.len() as int,
            ));
        }
    }
}

/// The extension of a path, lower-cased, under this library's path model.
pub fn extension_lower(path: &str) -> (r: Option<String>)
    ensures
        match r {
            Some(e) => spec_extension(path@) is Some && e@ == spec_lower(spec_extension(path@)->0),
            None => spec_extension(path@) is None,
        },
{
    let name_owned = file_name(path);
    let name = name_owned.as_str();
    let n = name.unicode_len();
    let mut dot: usize = 0;
    let mut found = false;
    let mut i: usize = 0;
    while i < n
        invariant
            0 <= i <= n,
            n == name@.len(),
            found ==> 0 < dot < n && name@[dot as int] == '.',
            found ==> forall|j: int| dot < j < i ==> name@[j] != '.',
            !found ==> forall|j: int| 0 < j < i ==> name@[j] != '.',
            found ==> dot < i,
        decreases n - i,
    {
        if i > 0 && name.get_char(i) == '.' {
            dot = i;
            found = true;
        }
        i += 1;
    }
    if !found {
        return None;
    }
    proof {
        lemma_last_dot(name@, dot as int);
    }
    let ext = name.substring_char(dot + 1, n);
    let mut out = String::new();
    let m = ext.unicode_len();
    let mut k: usize = 0;
    while k < m
        invariant
            0 <= k <= m,
            m == ext@.len(),
            out@ == spec_lower(ext@).subrange(0, k as int),
        decreases m - k,
    {
        let c = to_lower_char(ext.get_char(k));
        crate::text::append_char(&mut out, c);
        proof {
            assert(out@ =~= spec_lower(ext@).subrange(0, k as int + 1));
        }
        k += 1;
    }
    proof {
        assert(spec_lower(ext@).subrange(0, m as int) =~= spec_lower(ext@));
    }
    Some(out)
}

/// The medium a file extension denotes for local discovery; files with any
/// other extension are not ingested.
pub open spec fn spec_media_for_ext(ext: Seq<char>) -> Option<Seq<char>> {
    if ext == "pdf"@ {
        Some("pdf"@)
    } else if ext == "png"@ || ext == "jpg"@ || ext == "jpeg"@ || ext == "tif"@ || ext == "tiff"@
        || ext == "bmp"@ || ext == "gif"@ {
        Some("image"@)
    } else if ext == "mp4"@ || ext == "mov"@ || ext == "mkv"@ {
        Some("video"@)
    } else if ext == "mp3"@ || ext == "wav"@ || ext == "m4a"@ {
        Some("audio"@)
    } else {
        None
    }
}

/// The medium a lower-cased extension denotes for local discovery.
pub fn media_for_extension(ext: &str) -> (r: Option<&'static str>)
    ensures
        match r {
            Some(m) => spec_media_for_ext(ext@) == Some(m@),
            None => spec_media_for_ext(ext@) is None,
        },
{
    proof {
        reveal_strlit("pdf");
        reveal_strlit("image");
        reveal_strlit("video");
        reveal_strlit("audio");
    }
    if str_eq(ext, "pdf") {
        Some("pdf")
    } else if str_eq(ext, "png") || str_eq(ext, "jpg") || str_eq(ext, "jpeg") || str_eq(ext, "tif")
        || str_eq(ext, "tiff") || str_eq(ext, "bmp") || str_eq(ext, "gif") {
        Some("image")
    } else if str_eq(ext, "mp4") || str_eq(ext, "mov") || str_eq(ext, "mkv") {
        Some("video")
    } else if str_eq(ext, "mp3") || str_eq(ext, "wav") || str_eq(ext, "m4a") {
        Some("audio")
    } else {
        None
    }
}

/// The medium a downloaded file is treated as: by extension, with documents
/// as the fallback.
pub open spec fn spec_infer_media(ext: Option<Seq<char>>) -> Seq<char> {
    if ext is Some {
        let e = ext->0;
        if e == "pdf"@ {
            "pdf"@
        } else if e == "png"@ || e == "jpg"@ || e == "jpeg"@ || e == "gif"@ {
            "image"@
        } else if e == "mp4"@ || e == "mov"@ || e == "mkv"@ {
            "video"@
        } else if e == "mp3"@ || e == "wav"@ || e == "m4a"@ {
            "audio"@
        } else {
            "pdf"@
        }
    } else {
        "pdf"@
    }
}

/// The medium a downloaded file is treated as.
pub fn infer_media(path: &str) -> (r: &'static str)
    ensures
        r@ == spec_infer_media(match spec_extension(path@) {
            Some(e) => Some(spec_lower(e)),
            None => None,
        }),
{
    proof {
        reveal_strlit("pdf");
        reveal_strlit("image");
        reveal_strlit("video");
        reveal_strlit("audio");
    }
    match extension_lower(path) {
        Some(ext_owned) => {
            let e = ext_owned.as_str();
            if str_eq(e, "pdf") {
                "pdf"
            } else if str_eq(e, "png") || str_eq(e, "jpg") || str_eq(e, "jpeg") || str_eq(
                e,
                "gif",
            ) {
                "image"
            } else if str_eq(e, "mp4") || str_eq(e, "mov") || str_eq(e, "mkv") {
                "video"
            } else if str_eq(e, "mp3") || str_eq(e, "wav") || str_eq(e, "m4a") {
                "audio"
            } else {
                "pdf"
            }
        },
        None => "pdf",
    }
}

/// The MIME type a downloaded file is served under, by extension, with the
/// opaque byte type as the fallback.
pub open spec fn spec_guess_mime(ext: Option<Seq<char>>) -> Seq<char> {
    if ext is Some {
        let e = ext->0;
        if e == "pdf"@ {
            "application/pdf"@
        } else if e == "png"@ {
            "image/png"@
        } else if e == "jpg"@ || e == "jpeg"@ {
            "image/jpeg"@
        } else if e == "gif"@ {
            "image/gif"@
        } else if e == "mp4"@ || e == "mov"@ || e == "mkv"@ {
            "video/mp4"@
        } else if e == "mp3"@ || e == "wav"@ || e == "m4a"@ {
            "audio/mpeg"@
        } else {
            "application/octet-stream"@
        }
    } else {
        "application/octet-stream"@
    }
}

/// The MIME type a downloaded file is served under.
pub fn guess_mime(path: &str) -> (r: &'static str)
    ensures
        r@ == spec_guess_mime(match spec_extension(path@) {
            Some(e) => Some(spec_lower(e)),
            None => None,
        }),
{
    proof {
        reveal_strlit("application/pdf");
        reveal_strlit("image/png");
        reveal_strlit("image/jpeg");
        reveal_strlit("image/gif");
        reveal_strlit("video/mp4");
        reveal_strlit("audio/mpeg");
        reveal_strlit("application/octet-stream");
    }
    match extension_lower(path) {
        Some(ext_owned) => {
            let e = ext_owned.as_str();
            if str_eq(e, "pdf") {
                "application/pdf"
            } else if str_eq(e, "png") {
                "image/png"
            } else if str_eq(e, "jpg") || str_eq(e, "jpeg") {
                "image/jpeg"
            } else if str_eq(e, "gif") {
                "image/gif"
            } else if str_eq(e, "mp4") || str_eq(e, "mov") || str_eq(e, "mkv") {
                "video/mp4"
            } else if str_eq(e, "mp3") || str_eq(e, "wav") || str_eq(e, "m4a") {
                "audio/mpeg"
            } else {
                "application/octet-stream"
            }
        },
        None => "application/octet-stream",
    }
}

} // verus!
