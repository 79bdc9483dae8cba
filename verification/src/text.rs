//! Character and string groundwork: ASCII case folding, whitespace
//! trimming, decimal rendering and parsing. Everything is specified over
//! `Seq<char>` views so the higher modules can state their contracts
//! exactly.

use vstd::prelude::*;
use vstd::string::StrSliceExecFns;
use vstd::string::StringExecFns;

verus! {

/// ASCII lower-casing of one character; anything outside 'A'..'Z' is kept.
pub open spec fn spec_lower_char(c: char) -> char {
    if 'A' <= c && c <= 'Z' {
        ((c as u32) + 32) as char
    } else {
        c
    }
}

/// ASCII lower-casing of a whole string view.
pub open spec fn spec_lower(s: Seq<char>) -> Seq<char> {
    s.map_values(|c: char| spec_lower_char(c))
}

/// The whitespace the trimming functions remove: the ASCII blank set.
pub open spec fn is_space(c: char) -> bool {
    c == ' ' || c == '\t' || c == '\n' || c == '\r'
}

/// A string with its leading blanks removed.
pub open spec fn spec_trim_front(s: Seq<char>) -> Seq<char>
    decreases s.len(),
{
    if s.len() > 0 && is_space(s[0]) {
        spec_trim_front(s.subrange(1, s.len() as int))
    } else {
        s
    }
}

/// A string with its trailing blanks removed.
pub open spec fn spec_trim_back(s: Seq<char>) -> Seq<char>
    decreases s.len(),
{
    if s.len() > 0 && is_space(s[s.len() - 1]) {
        spec_trim_back(s.subrange(0, s.len() - 1))
    } else {
        s
    }
}

/// A string with blanks removed at both ends.
pub open spec fn spec_trim(s: Seq<char>) -> Seq<char> {
    spec_trim_back(spec_trim_front(s))
}

/// Is the character a decimal digit?
pub open spec fn is_digit(c: char) -> bool {
    '0' <= c && c <= '9'
}

/// The numeric value of a digit character.
pub open spec fn digit_val(c: char) -> int {
    c as int - '0' as int
}

/// Every character is a decimal digit.
pub open spec fn all_digits(s: Seq<char>) -> bool {
    forall|i: int| 0 <= i < s.len() ==> is_digit(#[trigger] s[i])
}

/// The number a digit string denotes, most significant digit first.
pub open spec fn spec_num(s: Seq<char>) -> int
    decreases s.len(),
{
    if s.len() == 0 {
        0
    } else {
        spec_num(s.subrange(0, s.len() - 1)) * 10 + digit_val(s[s.len() - 1])
    }
}

/// The digit character of one value below ten.
pub open spec fn spec_digit_char(d: int) -> char {
    if d == 0 {
        '0'
    } else if d == 1 {
        '1'
    } else if d == 2 {
        '2'
    } else if d == 3 {
        '3'
    } else if d == 4 {
        '4'
    } else if d == 5 {
        '5'
    } else if d == 6 {
        '6'
    } else if d == 7 {
        '7'
    } else if d == 8 {
        '8'
    } else {
        '9'
    }
}

/// The decimal rendering of a number, no sign, no leading zeros (except for
/// zero itself).
pub open spec fn spec_dec(n: int) -> Seq<char>
    decreases n,
{
    if n < 10 {
        seq![spec_digit_char(n)]
    } else {
        spec_dec(n / 10).push(spec_digit_char(n % 10))
    }
}

/// The decimal rendering padded to at least two digits with a leading zero.
pub open spec fn spec_dec2(n: int) -> Seq<char> {
    if 0 <= n < 10 {
        seq!['0', spec_digit_char(n)]
    } else {
        spec_dec(n)
    }
}

/// ASCII lower-casing of one character.
pub fn to_lower_char(c: char) -> (r: char)
    ensures
        r == spec_lower_char(c),
{
    match c {
        'A' => 'a',
        'B' => 'b',
        'C' => 'c',
        'D' => 'd',
        'E' => 'e',
        'F' => 'f',
        'G' => 'g',
        'H' => 'h',
        'I' => 'i',
        'J' => 'j',
        'K' => 'k',
        'L' => 'l',
        'M' => 'm',
        'N' => 'n',
        'O' => 'o',
        'P' => 'p',
        'Q' => 'q',
        'R' => 'r',
        'S' => 's',
        'T' => 't',
        'U' => 'u',
        'V' => 'v',
        'W' => 'w',
        'X' => 'x',
        'Y' => 'y',
        'Z' => 'z',
        other => other,
    }
}

/// Character-for-character string equality.
pub fn str_eq(s: &str, t: &str) -> (r: bool)
    ensures
        r == (s@ == t@),
{
    let n = s.unicode_len();
    let m = t.unicode_len();
    if n != m {
        return false;
    }
    let mut i: usize = 0;
    while i < n
        invariant
            0 <= i <= n,
            n == s@.len(),
            n == t@.len(),
            forall|j: int| 0 <= j < i ==> s@[j] == #[trigger] t@[j],
        decreases n - i,
    {
        if s.get_char(i) != t.get_char(i) {
            return false;
        }
        i += 1;
    }
    proof {
        assert(s@ =~= t@);
    }
    true
}

/// Does a string spell a keyword, ignoring ASCII case?
pub open spec fn matches_keyword(s: Seq<char>, k: Seq<char>) -> bool {
    spec_lower(s) == spec_lower(k)
}

/// Case-insensitive comparison under ASCII folding.
pub fn eq_ignore_case(s: &str, t: &str) -> (r: bool)
    ensures
        r == (spec_lower(s@) == spec_lower(t@)),
{
    let n = s.unicode_len();
    let m = t.unicode_len();
    if n != m {
        proof {
            assert(spec_lower(s@).len() == s@.len());
            assert(spec_lower(t@).len() == t@.len());
        }
        return false;
    }
    let mut i: usize = 0;
    while i < n
        invariant
            0 <= i <= n,
            n == s@.len(),
            n == t@.len(),
            forall|j: int| 0 <= j < i ==> spec_lower_char(s@[j]) == spec_lower_char(#[trigger] t@[j]),
        decreases n - i,
    {
        let a = to_lower_char(s.get_char(i));
        let b = to_lower_char(t.get_char(i));
        if a != b {
            proof {
                assert(spec_lower(s@)[i as int] != spec_lower(t@)[i as int]);
            }
            return false;
        }
        i += 1;
    }
    proof {
        assert(spec_lower(s@) =~= spec_lower(t@));
    }
    true
}

proof fn lemma_trim_front_at(s: Seq<char>, k: int)
    requires
        0 <= k <= s.len(),
        forall|j: int| 0 <= j < k ==> is_space(#[trigger] s[j]),
        k < s.len() ==> !is_space(s[k]),
    ensures
        spec_trim_front(s) == s.subrange(k, s.len() as int),
    decreases k,
{
    if k == 0 {
        assert(s.subrange(0, s.len() as int) =~= s);
    } else {
        let tail = s.subrange(1, s.len() as int);
        lemma_trim_front_at(tail, k - 1);
        assert(tail.subrange(k - 1, tail.len() as int) =~= s.subrange(k, s.len() as int));
    }
}

proof fn lemma_trim_back_at(s: Seq<char>, k: int)
    requires
        0 <= k <= s.len(),
        forall|j: int| k <= j < s.len() ==> is_space(#[trigger] s[j]),
        k > 0 ==> !is_space(s[k - 1]),
    ensures
        spec_trim_back(s) == s.subrange(0, k),
    decreases s.len() - k,
{
    if k == s.len() {
        if s.len() > 0 && is_space(s[s.len() - 1]) {
            let head = s.subrange(0, s.len() - 1);
            lemma_trim_back_at(head, k - 1);
            assert(head.subrange(0, k - 1) =~= s.subrange(0, k - 1));
            assert(k - 1 == head.len());
            assert(head.subrange(0, head.len() as int) =~= head);
        } else {
            assert(s.subrange(0, s.len() as int) =~= s);
        }
    } else {
        let head = s.subrange(0, s.len() - 1);
        lemma_trim_back_at(head, k);
        assert(head.subrange(0, k) =~= s.subrange(0, k));
    }
}

/// Both ends trimmed of ASCII blanks, as an owned string.
pub fn trim(s: &str) -> (r: String)
    ensures
        r@ == spec_trim(s@),
{
    let n = s.unicode_len();
    let mut a: usize = 0;
    while a < n && is_space_char(s.get_char(a))
        invariant
            0 <= a <= n,
            n == s@.len(),
            forall|j: int| 0 <= j < a ==> is_space(#[trigger] s@[j]),
        decreases n - a,
    {
        a += 1;
    }
    proof {
        lemma_trim_front_at(s@, a as int);
    }
    let mut b: usize = n;
    while b > a && is_space_char(s.get_char(b - 1))
        invariant
            a <= b <= n,
            n == s@.len(),
            forall|j: int| 0 <= j < a ==> is_space(#[trigger] s@[j]),
            forall|j: int| b <= j < n ==> is_space(#[trigger] s@[j]),
        decreases b,
    {
        b -= 1;
    }
    let piece = s.substring_char(a, b);
    proof {
        let front = s@.subrange(a as int, n as int);
        let k = b - a;
        assert(forall|j: int|
            k <= j < front.len() ==> is_space(#[trigger] front[j]));
        lemma_trim_back_at(front, k as int);
        assert(front.subrange(0, k as int) =~= s@.subrange(a as int, b as int));
    }
    String::from_str(piece)
}

/// Is the character one of the ASCII blanks?
pub fn is_space_char(c: char) -> (r: bool)
    ensures
        r == is_space(c),
{
    c == ' ' || c == '\t' || c == '\n' || c == '\r'
}

/// One digit as a string slice.
fn digit_str(d: u64) -> (r: &'static str)
    requires
        d < 10,
    ensures
        r@ =~= seq![spec_digit_char(d as int)],
{
    proof {
        reveal_strlit("0");
        reveal_strlit("1");
        reveal_strlit("2");
        reveal_strlit("3");
        reveal_strlit("4");
        reveal_strlit("5");
        reveal_strlit("6");
        reveal_strlit("7");
        reveal_strlit("8");
        reveal_strlit("9");
    }
    match d {
        0 => "0",
        1 => "1",
        2 => "2",
        3 => "3",
        4 => "4",
        5 => "5",
        6 => "6",
        7 => "7",
        8 => "8",
        _ => "9",
    }
}

/// The decimal rendering of a number.
pub fn u64_to_string(n: u64) -> (r: String)
    ensures
        r@ == spec_dec(n as int),
    decreases n,
{
    if n < 10 {
        String::from_str(digit_str(n))
    } else {
        let mut s = u64_to_string(n / 10);
        s.append(digit_str(n % 10));
        proof {
            assert(s@ =~= spec_dec(n as int));
        }
        s
    }
}

/// The decimal rendering padded to at least two digits.
pub fn u64_to_string2(n: u64) -> (r: String)
    ensures
        r@ == spec_dec2(n as int),
{
    if n < 10 {
        let mut s = String::from_str("0");
        proof {
            reveal_strlit("0");
            assert(s@ =~= seq!['0']);
        }
        s.append(digit_str(n));
        proof {
            assert(s@ =~= spec_dec2(n as int));
        }
        s
    } else {
        u64_to_string(n)
    }
}

/// Parse an unsigned decimal string: the number it denotes, or nothing when
/// the string is empty, holds a non-digit, or overflows the type.
pub fn parse_u32(s: &str) -> (r: Option<u32>)
    ensures
        match r {
            Some(v) => {
                &&& s@.len() > 0
                &&& all_digits(s@)
                &&& v as int == spec_num(s@)
            },
            None => s@.len() == 0 || !all_digits(s@) || spec_num(s@) > u32::MAX,
        },
{
    let n = s.unicode_len();
    if n == 0 {
        return None;
    }
    let mut acc: u32 = 0;
    let mut i: usize = 0;
    while i < n
        invariant
            0 <= i <= n,
            n == s@.len(),
            all_digits(s@.subrange(0, i as int)),
            acc as int == spec_num(s@.subrange(0, i as int)),
        decreases n - i,
    {
        let c = s.get_char(i);
        let d: u32 = match c {
            '0' => 0,
            '1' => 1,
            '2' => 2,
            '3' => 3,
            '4' => 4,
            '5' => 5,
            '6' => 6,
            '7' => 7,
            '8' => 8,
            '9' => 9,
            _ => {
                proof {
                    assert(!is_digit(s@[i as int]));
                }
                return None;
            },
        };
        proof {
            assert(is_digit(s@[i as int]) && digit_val(s@[i as int]) == d as int);
        }
        if acc > (u32::MAX - d) / 10 {
            proof {
                lemma_num_monotonic(s@, i as int + 1);
                assert(spec_num(s@.subrange(0, i as int + 1)) == acc as int * 10 + d) by {
                    assert(s@.subrange(0, i as int + 1).subrange(0, i as int) =~= s@.subrange(
                        0,
                        i as int,
                    ));
                }
                assert(acc as int * 10 + d > u32::MAX) by (nonlinear_arith)
                    requires
                        acc as int > (u32::MAX as int - d as int) / 10,
                        0 <= d < 10,
                ;
                if all_digits(s@) {
                    lemma_num_prefix_le(s@, i as int + 1);
                }
            }
            return None;
        }
        let ghost pre = s@.subrange(0, i as int);
        acc = acc * 10 + d;
        proof {
            assert(s@.subrange(0, i as int + 1).subrange(0, i as int) =~= pre);
            assert(s@.subrange(0, i as int + 1)[i as int] == s@[i as int]);
        }
        i += 1;
    }
    proof {
        assert(s@.subrange(0, n as int) =~= s@);
    }
    Some(acc)
}

/// A longer digit prefix never denotes a smaller number.
proof fn lemma_num_monotonic(s: Seq<char>, k: int)
    requires
        0 < k <= s.len(),
        all_digits(s.subrange(0, k)),
    ensures
        spec_num(s.subrange(0, k)) >= spec_num(s.subrange(0, k - 1)),
{
    let p = s.subrange(0, k);
    assert(p.subrange(0, k - 1) =~= s.subrange(0, k - 1));
    assert(spec_num(p) == spec_num(p.subrange(0, p.len() - 1)) * 10 + digit_val(p[p.len() - 1]));
    assert(spec_num(s.subrange(0, k - 1)) >= 0) by {
        lemma_num_nonnegative(s.subrange(0, k - 1));
    }
    assert(spec_num(s.subrange(0, k - 1)) * 10 >= spec_num(s.subrange(0, k - 1))) by (nonlinear_arith)
        requires
            spec_num(s.subrange(0, k - 1)) >= 0,
    ;
}

/// A digit prefix never denotes more than the whole digit string.
proof fn lemma_num_prefix_le(s: Seq<char>, k: int)
    requires
        0 <= k <= s.len(),
        all_digits(s),
    ensures
        spec_num(s.subrange(0, k)) <= spec_num(s),
    decreases s.len() - k,
{
    if k == s.len() {
        assert(s.subrange(0, k) =~= s);
    } else {
        assert(all_digits(s.subrange(0, k + 1)));
        lemma_num_monotonic(s, k + 1);
        lemma_num_prefix_le(s, k + 1);
    }
}

/// A digit string denotes a number, never a negative value.
pub proof fn lemma_num_nonnegative(s: Seq<char>)
    requires
        all_digits(s),
    ensures
        spec_num(s) >= 0,
    decreases s.len(),
{
    if s.len() > 0 {
        let head = s.subrange(0, s.len() - 1);
        assert(all_digits(head));
        lemma_num_nonnegative(head);
        assert(spec_num(head) * 10 >= 0) by (nonlinear_arith)
            requires
                spec_num(head) >= 0,
        ;
    }
}


/// The first position of a character, if any.
pub open spec fn spec_find(s: Seq<char>, c: char) -> Option<int>
    decreases s.len(),
{
    if s.len() == 0 {
        None
    } else if s[0] == c {
        Some(0)
    } else {
        match spec_find(s.subrange(1, s.len() as int), c) {
            Some(i) => Some(i + 1),
            None => None,
        }
    }
}

/// A found position is a real, first occurrence.
pub proof fn lemma_find_bounds(s: Seq<char>, c: char)
    requires
        spec_find(s, c) is Some,
    ensures
        0 <= spec_find(s, c)->0 < s.len(),
        s[spec_find(s, c)->0] == c,
        forall|j: int| 0 <= j < spec_find(s, c)->0 ==> s[j] != c,
    decreases s.len(),
{
    if s.len() > 0 && s[0] != c {
        let tail = s.subrange(1, s.len() as int);
        if spec_find(tail, c) is Some {
            lemma_find_bounds(tail, c);
            let i = spec_find(s, c)->0;
            assert forall|j: int| 0 <= j < i implies s[j] != c by {
                if j > 0 {
                    assert(tail[j - 1] == s[j]);
                }
            }
        }
    }
}

/// The pieces of a string between occurrences of a separator, separators
/// removed; a string without the separator is one piece.
pub open spec fn spec_split_char(s: Seq<char>, c: char) -> Seq<Seq<char>>
    decreases s.len(),
    via spec_split_char_decreases
{
    match spec_find(s, c) {
        None => seq![s],
        Some(i) => seq![s.subrange(0, i)] + spec_split_char(s.subrange(i + 1, s.len() as int), c),
    }
}

#[via_fn]
proof fn spec_split_char_decreases(s: Seq<char>, c: char) {
    if spec_find(s, c) is Some {
        lemma_find_bounds(s, c);
    }
}

/// The first position of a character in a string, if any.
pub fn find_char(s: &str, c: char) -> (r: Option<usize>)
    ensures
        match r {
            Some(i) => {
                &&& spec_find(s@, c) == Some(i as int)
                &&& i < s@.len()
                &&& s@[i as int] == c
                &&& forall|j: int| 0 <= j < i ==> s@[j] != c
            },
            None => spec_find(s@, c) is None,
        },
{
    let n = s.unicode_len();
    let mut i: usize = 0;
    while i < n
        invariant
            0 <= i <= n,
            n == s@.len(),
            forall|j: int| 0 <= j < i ==> s@[j] != c,
        decreases n - i,
    {
        if s.get_char(i) == c {
            proof {
                lemma_find_at(s@, c, i as int);
            }
            return Some(i);
        }
        i += 1;
    }
    proof {
        lemma_find_none(s@, c);
    }
    None
}

proof fn lemma_find_at(s: Seq<char>, c: char, i: int)
    requires
        0 <= i < s.len(),
        s[i] == c,
        forall|j: int| 0 <= j < i ==> s[j] != c,
    ensures
        spec_find(s, c) == Some(i),
    decreases i,
{
    if i == 0 {
    } else {
        let tail = s.subrange(1, s.len() as int);
        lemma_find_at(tail, c, i - 1);
    }
}

pub proof fn lemma_find_none(s: Seq<char>, c: char)
    requires
        forall|j: int| 0 <= j < s.len() ==> s[j] != c,
    ensures
        spec_find(s, c) is None,
    decreases s.len(),
{
    if s.len() > 0 {
        lemma_find_none(s.subrange(1, s.len() as int), c);
    }
}

/// When nothing is found, nothing is there.
pub proof fn lemma_find_none_converse(s: Seq<char>, c: char)
    requires
        spec_find(s, c) is None,
    ensures
        forall|j: int| 0 <= j < s.len() ==> s[j] != c,
    decreases s.len(),
{
    if s.len() > 0 {
        let tail = s.subrange(1, s.len() as int);
        lemma_find_none_converse(tail, c);
        assert forall|j: int| 0 <= j < s.len() implies s[j] != c by {
            if j > 0 {
                assert(tail[j - 1] == s[j]);
            }
        }
    }
}

/// Relies on char::encode_utf8: the returned slice spells exactly the one
/// character given.
#[verifier::external_body]
pub fn char_encode<'a>(c: char, buf: &'a mut [u8; 4]) -> (r: &'a str)
    ensures
        r@ =~= seq![c],
{
    c.encode_utf8(buf)
}

/// Append one character to a string.
pub fn append_char(out: &mut String, c: char)
    ensures
        final(out)@ == old(out)@.push(c),
{
    let mut buf = [0u8; 4];
    let piece: &str = char_encode(c, &mut buf);
    out.append(piece);
}

/// The pieces of a string between occurrences of a separator, in order.
pub fn split_char(s: &str, c: char) -> (toks: Vec<String>)
    ensures
        toks@.map_values(|t: String| t@) == spec_split_char(s@, c),
{
    let ghost target = spec_split_char(s@, c);
    let mut toks: Vec<String> = Vec::new();
    let mut rest: String = String::from_str(s);
    let mut fuel: usize = s.unicode_len();
    proof {
        assert(toks@.map_values(|t: String| t@) + spec_split_char(rest@, c) =~= spec_split_char(
            s@,
            c,
        ));
    }
    loop
        invariant
            rest@.len() <= fuel,
            target == spec_split_char(s@, c),
            target == toks@.map_values(|t: String| t@) + spec_split_char(rest@, c),
        decreases fuel,
    {
        let ghost pre = toks@.map_values(|t: String| t@);
        match find_char(rest.as_str(), c) {
            None => {
                let ghost last = rest@;
                toks.push(rest);
                proof {
                    assert(spec_split_char(last, c) == seq![last]);
                    assert(target == pre + seq![last]);
                    assert(toks@.map_values(|t: String| t@) =~= pre.push(last));
                    assert(pre + seq![last] =~= pre.push(last));
                    assert(toks@.map_values(|t: String| t@) == target);
                }
                return toks;
            },
            Some(i) => {
                let piece = rest.as_str().substring_char(0, i);
                let tail_len = rest.as_str().unicode_len();
                let tail = rest.as_str().substring_char(i + 1, tail_len);
                let piece_owned = String::from_str(piece);
                let tail_owned = String::from_str(tail);
                toks.push(piece_owned);
                proof {
                    assert(toks@.map_values(|t: String| t@) =~= pre.push(
                        rest@.subrange(0, i as int),
                    ));
                    assert(pre + seq![rest@.subrange(0, i as int)] =~= pre.push(
                        rest@.subrange(0, i as int),
                    ));
                    assert((pre + seq![rest@.subrange(0, i as int)]) + spec_split_char(
                        rest@.subrange(i as int + 1, rest@.len() as int),
                        c,
                    ) =~= pre + (seq![rest@.subrange(0, i as int)] + spec_split_char(
                        rest@.subrange(i as int + 1, rest@.len() as int),
                        c,
                    )));
                }
                rest = tail_owned;
                fuel = fuel - (i + 1);
            },
        }
    }
}


/// Every occurrence of a pattern replaced, scanning left to right; an empty
/// pattern leaves the text unchanged.
pub open spec fn spec_replace(s: Seq<char>, pat: Seq<char>, sub: Seq<char>) -> Seq<char>
    decreases s.len(),
{
    if pat.len() == 0 || s.len() < pat.len() {
        s
    } else if s.subrange(0, pat.len() as int) == pat {
        sub + spec_replace(s.subrange(pat.len() as int, s.len() as int), pat, sub)
    } else {
        seq![s[0]] + spec_replace(s.subrange(1, s.len() as int), pat, sub)
    }
}

/// Every occurrence of a pattern replaced, scanning left to right.
pub fn replace_all(s: &str, pat: &str, sub: &str) -> (r: String)
    ensures
        r@ == spec_replace(s@, pat@, sub@),
{
    let n = s.unicode_len();
    let plen = pat.unicode_len();
    let mut out = String::new();
    if plen == 0 {
        out.append(s);
        return out;
    }
    proof {
        assert(s@.subrange(0, n as int) =~= s@);
        assert(out@ + spec_replace(s@, pat@, sub@) =~= spec_replace(s@, pat@, sub@));
    }
    let mut i: usize = 0;
    while i < n
        invariant
            0 <= i <= n,
            n == s@.len(),
            plen == pat@.len(),
            plen > 0,
            out@ + spec_replace(s@.subrange(i as int, n as int), pat@, sub@) == spec_replace(
                s@,
                pat@,
                sub@,
            ),
        decreases n - i,
    {
        let ghost rest = s@.subrange(i as int, n as int);
        if plen <= n - i {
            let window = s.substring_char(i, i + plen);
            if str_eq(window, pat) {
                out.append(sub);
                proof {
                    assert(rest.subrange(0, plen as int) =~= s@.subrange(
                        i as int,
                        i as int + plen,
                    ));
                    assert(rest.subrange(plen as int, rest.len() as int) =~= s@.subrange(
                        i as int + plen,
                        n as int,
                    ));
                    vstd::seq_lib::lemma_concat_associative(
                        out@.subrange(0, out@.len() - sub@.len()),
                        sub@,
                        spec_replace(s@.subrange(i as int + plen, n as int), pat@, sub@),
                    );
                    assert(out@ =~= out@.subrange(0, out@.len() - sub@.len()) + sub@);
                }
                i += plen;
                continue ;
            }
        }
        let one = s.substring_char(i, i + 1);
        out.append(one);
        proof {
            if rest.len() >= plen {
                assert(rest.subrange(0, plen as int) =~= s@.subrange(i as int, i as int + plen));
            }
            assert(rest.subrange(1, rest.len() as int) =~= s@.subrange(i as int + 1, n as int));
            assert(seq![rest[0]] =~= s@.subrange(i as int, i as int + 1));
            vstd::seq_lib::lemma_concat_associative(
                out@.subrange(0, out@.len() - 1),
                seq![rest[0]],
                spec_replace(s@.subrange(i as int + 1, n as int), pat@, sub@),
            );
            assert(out@ =~= out@.subrange(0, out@.len() - 1) + seq![rest[0]]);
        }
        i += 1;
    }
    proof {
        assert(s@.subrange(n as int, n as int) =~= Seq::<char>::empty());
        assert(spec_replace(Seq::<char>::empty(), pat@, sub@) =~= Seq::<char>::empty());
        assert(out@ + Seq::<char>::empty() =~= out@);
    }
    out
}


/// Parse an unsigned decimal string into a wide machine word: the number it
/// denotes, or nothing when the string is empty, holds a non-digit, or
/// overflows the type.
pub fn parse_u64(s: &str) -> (r: Option<u64>)
    ensures
        match r {
            Some(v) => {
                &&& s@.len() > 0
                &&& all_digits(s@)
                &&& v as int == spec_num(s@)
            },
            None => s@.len() == 0 || !all_digits(s@) || spec_num(s@) > u64::MAX,
        },
{
    let n = s.unicode_len();
    if n == 0 {
        return None;
    }
    let mut acc: u64 = 0;
    let mut i: usize = 0;
    while i < n
        invariant
            0 <= i <= n,
            n == s@.len(),
            all_digits(s@.subrange(0, i as int)),
            acc as int == spec_num(s@.subrange(0, i as int)),
        decreases n - i,
    {
        let c = s.get_char(i);
        let d: u64 = match c {
            '0' => 0,
            '1' => 1,
            '2' => 2,
            '3' => 3,
            '4' => 4,
            '5' => 5,
            '6' => 6,
            '7' => 7,
            '8' => 8,
            '9' => 9,
            _ => {
                proof {
                    assert(!is_digit(s@[i as int]));
                }
                return None;
            },
        };
        proof {
            assert(is_digit(s@[i as int]) && digit_val(s@[i as int]) == d as int);
        }
        if acc > (u64::MAX - d) / 10 {
            proof {
                lemma_num_monotonic(s@, i as int + 1);
                assert(spec_num(s@.subrange(0, i as int + 1)) == acc as int * 10 + d) by {
                    assert(s@.subrange(0, i as int + 1).subrange(0, i as int) =~= s@.subrange(
                        0,
                        i as int,
                    ));
                }
                assert(acc as int * 10 + d > u64::MAX) by (nonlinear_arith)
                    requires
                        acc as int > (u64::MAX as int - d as int) / 10,
                        0 <= d < 10,
                ;
                if all_digits(s@) {
                    lemma_num_prefix_le(s@, i as int + 1);
                }
            }
            return None;
        }
        let ghost pre = s@.subrange(0, i as int);
        acc = acc * 10 + d;
        proof {
            assert(s@.subrange(0, i as int + 1).subrange(0, i as int) =~= pre);
            assert(s@.subrange(0, i as int + 1)[i as int] == s@[i as int]);
        }
        i += 1;
    }
    proof {
        assert(s@.subrange(0, n as int) =~= s@);
    }
    Some(acc)
}


/// Trailing blanks removed, as an owned string.
pub fn trim_end(s: &str) -> (r: String)
    ensures
        r@ == spec_trim_back(s@),
{
    let n = s.unicode_len();
    let mut b: usize = n;
    while b > 0 && is_space_char(s.get_char(b - 1))
        invariant
            0 <= b <= n,
            n == s@.len(),
            forall|j: int| b <= j < n ==> is_space(#[trigger] s@[j]),
        decreases b,
    {
        b -= 1;
    }
    proof {
        lemma_trim_back_at(s@, b as int);
    }
    let piece = s.substring_char(0, b);
    String::from_str(piece)
}

/// Does the text contain the pattern anywhere?
pub open spec fn spec_contains_sub(s: Seq<char>, pat: Seq<char>) -> bool {
    exists|i: int| 0 <= i <= s.len() - pat.len() && #[trigger] s.subrange(i, i + pat.len()) == pat
}

/// Does the text contain the pattern anywhere?
pub fn contains_sub(s: &str, pat: &str) -> (r: bool)
    ensures
        r == spec_contains_sub(s@, pat@),
{
    let n = s.unicode_len();
    let plen = pat.unicode_len();
    if plen > n {
        return false;
    }
    if plen == 0 {
        proof {
            assert(s@.subrange(0, 0 + pat@.len() as int) =~= pat@);
            assert(spec_contains_sub(s@, pat@)) by {
                assert(0 <= 0 <= s@.len() - pat@.len() && s@.subrange(0, 0 + pat@.len() as int) == pat@);
            }
        }
        return true;
    }
    let mut i: usize = 0;
    while i <= n - plen
        invariant
            0 < plen <= n,
            0 <= i <= n - plen + 1,
            n == s@.len(),
            plen == pat@.len(),
            forall|j: int| 0 <= j < i ==> #[trigger] s@.subrange(j, j + pat@.len()) != pat@,
        decreases n - i,
    {
        let window = s.substring_char(i, i + plen);
        if str_eq(window, pat) {
            proof {
                assert(s@.subrange(i as int, i as int + pat@.len()) == pat@);
            }
            return true;
        }
        i += 1;
    }
    false
}

/// Does the text end with the suffix?
pub open spec fn spec_ends_with(s: Seq<char>, suffix: Seq<char>) -> bool {
    s.len() >= suffix.len() && s.subrange(s.len() - suffix.len(), s.len() as int) == suffix
}

/// Does the text end with the suffix?
pub fn ends_with(s: &str, suffix: &str) -> (r: bool)
    ensures
        r == spec_ends_with(s@, suffix@),
{
    let n = s.unicode_len();
    let m = suffix.unicode_len();
    if m > n {
        return false;
    }
    let tail = s.substring_char(n - m, n);
    str_eq(tail, suffix)
}


/// The decimal rendering padded to at least three digits.
pub open spec fn spec_dec3(n: int) -> Seq<char> {
    if 0 <= n < 10 {
        seq!['0', '0', spec_digit_char(n)]
    } else if 10 <= n < 100 {
        seq!['0'] + spec_dec(n)
    } else {
        spec_dec(n)
    }
}

/// The decimal rendering padded to at least three digits.
pub fn u64_to_string3(n: u64) -> (r: String)
    ensures
        r@ == spec_dec3(n as int),
{
    if n < 10 {
        let mut s = String::from_str("00");
        proof {
            reveal_strlit("00");
            assert(s@ =~= seq!['0', '0']);
        }
        s.append(digit_str(n));
        proof {
            assert(s@ =~= spec_dec3(n as int));
        }
        s
    } else if n < 100 {
        let mut s = String::from_str("0");
        proof {
            reveal_strlit("0");
            assert(s@ =~= seq!['0']);
        }
        let digits = u64_to_string(n);
        s.append(digits.as_str());
        s
    } else {
        u64_to_string(n)
    }
}

} // verus!
