//! Configuration resolution: the pure merging rules that turn raw setting
//! strings (from the environment, the configuration file and presets) into
//! validated values. Reading the environment and the file is the shell's
//! work.

use vstd::prelude::*;
use vstd::string::StringExecFns;
use crate::text::{matches_keyword, spec_lower, spec_num, spec_trim, str_eq};

verus! {

/// The media resolutions a job may ask of the provider.
pub open spec fn spec_allowed_resolution(l: Seq<char>) -> bool {
    l == "default"@ || l == "low"@ || l == "medium"@ || l == "high"@ || l == "unspecified"@ || l
        == ""@
}

/// What a media-resolution request resolves to: absent or empty means the
/// default; a known name is taken lower-cased; anything else is rejected.
pub open spec fn spec_resolved_resolution(value: Option<Seq<char>>) -> Option<Seq<char>> {
    if value is None {
        Some("default"@)
    } else {
        let l = spec_lower(value->0);
        if !spec_allowed_resolution(l) {
            None
        } else if l.len() == 0 {
            Some("default"@)
        } else {
            Some(l)
        }
    }
}

/// Validate and normalize a media-resolution request. An unknown name is a
/// configuration error, never silently accepted.
pub fn resolve_media_resolution(value: Option<&str>) -> (r: Option<String>)
    ensures
        match r {
            Some(s) => spec_resolved_resolution(match value {
                Some(v) => Some(v@),
                None => None,
            }) == Some(s@),
            None => spec_resolved_resolution(match value {
                Some(v) => Some(v@),
                None => None,
            }) is None,
        },
{
    let raw = match value {
        Some(v) => v,
        None => {
            return Some(String::from_str("default"));
        },
    };
    proof {
        reveal_strlit("default");
        reveal_strlit("low");
        reveal_strlit("medium");
        reveal_strlit("high");
        reveal_strlit("unspecified");
        reveal_strlit("");
        assert(spec_lower("default"@) =~= "default"@);
        assert(spec_lower("low"@) =~= "low"@);
        assert(spec_lower("medium"@) =~= "medium"@);
        assert(spec_lower("high"@) =~= "high"@);
        assert(spec_lower("unspecified"@) =~= "unspecified"@);
    }
    if crate::text::eq_ignore_case(raw, "default") {
        Some(String::from_str("default"))
    } else if crate::text::eq_ignore_case(raw, "low") {
        Some(String::from_str("low"))
    } else if crate::text::eq_ignore_case(raw, "medium") {
        Some(String::from_str("medium"))
    } else if crate::text::eq_ignore_case(raw, "high") {
        Some(String::from_str("high"))
    } else if crate::text::eq_ignore_case(raw, "unspecified") {
        Some(String::from_str("unspecified"))
    } else if raw.unicode_len() == 0 {
        proof {
            reveal_strlit("");
            assert(spec_lower(raw@).len() == raw@.len());
            assert(spec_lower(raw@) =~= ""@);
        }
        Some(String::from_str("default"))
    } else {
        proof {
            reveal_strlit("");
            assert(spec_lower(raw@).len() == raw@.len());
            assert(spec_lower(raw@) != ""@);
        }
        None
    }
}

/// The first usable worker-count setting: the first value that parses as a
/// positive number wins; otherwise the default stands.
pub open spec fn spec_workers_from(values: Seq<Seq<char>>, default: usize) -> int
    decreases values.len(),
{
    if values.len() == 0 {
        default as int
    } else {
        let t = values[0];
        if t.len() > 0 && crate::text::all_digits(t) && spec_num(t) <= usize::MAX && spec_num(t)
            > 0 {
            spec_num(t)
        } else {
            spec_workers_from(values.subrange(1, values.len() as int), default)
        }
    }
}

/// The first usable worker-count setting among the raw values the shell
/// collected, or the default.
pub fn parse_workers(values: &Vec<String>, default: usize) -> (r: usize)
    ensures
        r as int == spec_workers_from(values@.map_values(|v: String| v@), default),
{
    let ghost all = values@.map_values(|v: String| v@);
    let n = values.len();
    proof {
        assert(all.subrange(0, n as int) =~= all);
    }
    let mut k: usize = 0;
    while k < n
        invariant
            0 <= k <= n,
            n == values@.len(),
            all == values@.map_values(|v: String| v@),
            spec_workers_from(all, default) == spec_workers_from(
                all.subrange(k as int, n as int),
                default,
            ),
        decreases n - k,
    {
        let ghost pending = all.subrange(k as int, n as int);
        proof {
            assert(pending[0] == all[k as int]);
            assert(all[k as int] == values@[k as int]@);
            assert(pending.subrange(1, pending.len() as int) =~= all.subrange(
                k as int + 1,
                n as int,
            ));
        }
        match parse_usize(values[k].as_str()) {
            Some(v) => {
                if v > 0 {
                    return v;
                }
            },
            None => {},
        }
        k += 1;
    }
    proof {
        assert(all.subrange(n as int, n as int) =~= Seq::<Seq<char>>::empty());
    }
    default
}

/// Parse an unsigned decimal setting that must fit the machine's word.
pub fn parse_usize(s: &str) -> (r: Option<usize>)
    ensures
        match r {
            Some(v) => {
                &&& s@.len() > 0
                &&& crate::text::all_digits(s@)
                &&& v as int == spec_num(s@)
            },
            None => s@.len() == 0 || !crate::text::all_digits(s@) || spec_num(s@) > usize::MAX,
        },
{
    match crate::text::parse_u64(s) {
        Some(v) => {
            if v <= usize::MAX as u64 {
                Some(v as usize)
            } else {
                None
            }
        },
        None => None,
    }
}

/// A preset setting value: the few shapes the preset table holds.
#[derive(Debug, Clone)]
pub enum PresetValue {
    Text(String),
    Flag(bool),
    Count(u64),
}

/// One named preset: its settings in order.
#[derive(Debug, Clone)]
pub struct Preset {
    pub name: String,
    pub settings: Vec<(String, PresetValue)>,
}

/// The built-in presets: plain transcription, a speed profile that
/// rasterizes documents, and a quality profile that sends them whole.
pub fn builtin_presets() -> (r: Vec<Preset>)
    ensures
        r@.len() == 3,
        r@[0].name@ == "basic"@ && r@[0].settings@.len() == 0,
        r@[1].name@ == "speed"@ && r@[1].settings@.len() == 1,
        r@[2].name@ == "quality"@ && r@[2].settings@.len() == 1,
        r@[1].settings@[0].0@ == "pdf_mode"@,
        r@[2].settings@[0].0@ == "pdf_mode"@,
        r@[1].settings@[0].1 matches PresetValue::Text(t) && t@ == "images"@,
        r@[2].settings@[0].1 matches PresetValue::Text(t) && t@ == "pdf"@,
{
    let mut presets: Vec<Preset> = Vec::new();
    presets.push(Preset { name: String::from_str("basic"), settings: Vec::new() });
    let mut speed: Vec<(String, PresetValue)> = Vec::new();
    speed.push((String::from_str("pdf_mode"), PresetValue::Text(String::from_str("images"))));
    presets.push(Preset { name: String::from_str("speed"), settings: speed });
    let mut quality: Vec<(String, PresetValue)> = Vec::new();
    quality.push((String::from_str("pdf_mode"), PresetValue::Text(String::from_str("pdf"))));
    presets.push(Preset { name: String::from_str("quality"), settings: quality });
    presets
}

} // verus!
