//! Small shared helpers: file-name slugs and status-line truncation.

use vstd::prelude::*;
use vstd::string::StrSliceExecFns;
use vstd::string::StringExecFns;

verus! {

/// Whether a character counts as alphanumeric for slug purposes.
pub uninterp spec fn spec_is_alphanumeric(c: char) -> bool;

/// Relies on char::is_alphanumeric: a fixed Unicode property of the
/// character alone.
#[verifier::external_body]
fn is_alphanumeric_char(c: char) -> (r: bool)
    ensures
        r == spec_is_alphanumeric(c),
{
    c.is_alphanumeric()
}

/// Is the character kept as-is by the slug mapping?
pub open spec fn spec_slug_keeps(c: char) -> bool {
    spec_is_alphanumeric(c) || c == '-' || c == '_' || c == '.'
}

/// The slug mapping of one character: kept, or flattened to a dash.
pub open spec fn spec_slug_char(c: char) -> char {
    if spec_slug_keeps(c) {
        c
    } else {
        '-'
    }
}

/// Leading dashes removed.
pub open spec fn spec_trim_dash_front(s: Seq<char>) -> Seq<char>
    decreases s.len(),
{
    if s.len() > 0 && s[0] == '-' {
        spec_trim_dash_front(s.subrange(1, s.len() as int))
    } else {
        s
    }
}

/// Trailing dashes removed.
pub open spec fn spec_trim_dash_back(s: Seq<char>) -> Seq<char>
    decreases s.len(),
{
    if s.len() > 0 && s[s.len() - 1] == '-' {
        spec_trim_dash_back(s.subrange(0, s.len() - 1))
    } else {
        s
    }
}

/// What `slugify` produces: every character flattened through the slug
/// mapping, then dashes trimmed from both ends.
pub open spec fn spec_slug(s: Seq<char>) -> Seq<char> {
    spec_trim_dash_back(spec_trim_dash_front(s.map_values(|c: char| spec_slug_char(c))))
}

proof fn lemma_trim_dash_front_at(s: Seq<char>, k: int)
    requires
        0 <= k <= s.len(),
        forall|j: int| 0 <= j < k ==> #[trigger] s[j] == '-',
        k < s.len() ==> s[k] != '-',
    ensures
        spec_trim_dash_front(s) == s.subrange(k, s.len() as int),
    decreases k,
{
    if k == 0 {
        assert(s.subrange(0, s.len() as int) =~= s);
    } else {
        let tail = s.subrange(1, s.len() as int);
        lemma_trim_dash_front_at(tail, k - 1);
        assert(tail.subrange(k - 1, tail.len() as int) =~= s.subrange(k, s.len() as int));
    }
}

proof fn lemma_trim_dash_back_at(s: Seq<char>, k: int)
    requires
        0 <= k <= s.len(),
        forall|j: int| k <= j < s.len() ==> #[trigger] s[j] == '-',
        k > 0 ==> s[k - 1] != '-',
    ensures
        spec_trim_dash_back(s) == s.subrange(0, k),
    decreases s.len() - k,
{
    if k == s.len() {
        if s.len() > 0 && s[s.len() - 1] == '-' {
            let head = s.subrange(0, s.len() - 1);
            lemma_trim_dash_back_at(head, k - 1);
            assert(head.subrange(0, k - 1) =~= s.subrange(0, k - 1));
            assert(head.subrange(0, head.len() as int) =~= head);
        } else {
            assert(s.subrange(0, s.len() as int) =~= s);
        }
    } else {
        let head = s.subrange(0, s.len() - 1);
        lemma_trim_dash_back_at(head, k);
        assert(head.subrange(0, k) =~= s.subrange(0, k));
    }
}

/// A string safe for file names: alphanumerics, dashes, underscores and
/// dots are kept, anything else becomes a dash, and dangling dashes are
/// trimmed from both ends.
pub fn slugify(input: &str) -> (r: String)
    ensures
        r@ == spec_slug(input@),
{
    let n = input.unicode_len();
    let ghost mapped = input@.map_values(|c: char| spec_slug_char(c));
    // build the flattened text out of kept slices of the input and dashes
    let mut flat = String::new();
    let mut i: usize = 0;
    while i < n
        invariant
            0 <= i <= n,
            n == input@.len(),
            mapped == input@.map_values(|c: char| spec_slug_char(c)),
            flat@ == mapped.subrange(0, i as int),
        decreases n - i,
    {
        let c = input.get_char(i);
        proof {
            reveal_strlit("-");
        }
        if is_alphanumeric_char(c) || c == '-' || c == '_' || c == '.' {
            let piece = input.substring_char(i, i + 1);
            flat.append(piece);
        } else {
            flat.append("-");
        }
        proof {
            assert(flat@ =~= mapped.subrange(0, i as int + 1));
        }
        i += 1;
    }
    proof {
        assert(mapped.subrange(0, n as int) =~= mapped);
    }
    // trim dashes from both ends
    let m = flat.as_str().unicode_len();
    let mut a: usize = 0;
    while a < m && flat.as_str().get_char(a) == '-'
        invariant
            0 <= a <= m,
            m == flat@.len(),
            flat@ == mapped,
            forall|j: int| 0 <= j < a ==> #[trigger] flat@[j] == '-',
        decreases m - a,
    {
        a += 1;
    }
    proof {
        lemma_trim_dash_front_at(flat@, a as int);
    }
    let mut b: usize = m;
    while b > a && flat.as_str().get_char(b - 1) == '-'
        invariant
            a <= b <= m,
            m == flat@.len(),
            flat@ == mapped,
            forall|j: int| 0 <= j < a ==> #[trigger] flat@[j] == '-',
            forall|j: int| b <= j < m ==> #[trigger] flat@[j] == '-',
        decreases b,
    {
        b -= 1;
    }
    let piece = flat.as_str().substring_char(a, b);
    proof {
        let front = flat@.subrange(a as int, m as int);
        let k = b - a;
        lemma_trim_dash_back_at(front, k as int);
        assert(front.subrange(0, k as int) =~= flat@.subrange(a as int, b as int));
    }
    String::from_str(piece)
}

/// What `truncate_status` produces, written over the byte length and the
/// character view: a status short enough in bytes is kept whole; a tiny
/// budget keeps the first characters; otherwise the text is cut and an
/// ellipsis appended.
pub open spec fn spec_truncated(s: Seq<char>, byte_len: int, max_len: int) -> Seq<char> {
    if byte_len <= max_len {
        s
    } else if max_len <= 3 {
        s.take(if max_len <= s.len() {
            max_len
        } else {
            s.len() as int
        })
    } else {
        s.take(if max_len - 3 <= s.len() {
            max_len - 3
        } else {
            s.len() as int
        }) + "..."@
    }
}

/// A status line cut down to a display budget, with an ellipsis when
/// anything was dropped.
pub fn truncate_status(status: &str, max_len: usize) -> (r: String)
    ensures
        r@ == spec_truncated(status@, status.len() as int, max_len as int),
{
    if status.len() <= max_len {
        return String::from_str(status);
    }
    let n = status.unicode_len();
    if max_len <= 3 {
        let k = if max_len <= n {
            max_len
        } else {
            n
        };
        let piece = status.substring_char(0, k);
        proof {
            assert(status@.subrange(0, k as int) =~= status@.take(k as int));
        }
        return String::from_str(piece);
    }
    let keep = max_len - 3;
    let k = if keep <= n {
        keep
    } else {
        n
    };
    let piece = status.substring_char(0, k);
    let mut out = String::from_str(piece);
    out.append("...");
    proof {
        assert(status@.subrange(0, k as int) =~= status@.take(k as int));
    }
    out
}

} // verus!
