//! Encoder selection: the static table of known encoders, the per-platform
//! preference order, and the fallback chain assembled against the set of
//! encoder names the local toolchain actually offers. The probe of that set
//! is the shell's job; a line of its output is parsed here.

use vstd::prelude::*;
use vstd::string::StrSliceExecFns;
use vstd::string::StringExecFns;
use crate::text::{eq_ignore_case, is_space, matches_keyword, spec_trim, str_eq, trim};

verus! {

/// Which hardware (or software) encoder family the user asked for.
#[derive(Debug, Clone, Copy, PartialEq, Eq, Structural)]
pub enum VideoEncoderPreference {
    Auto,
    Cpu,
    Nvenc,
    Videotoolbox,
    Qsv,
    Vaapi,
    Amf,
}

/// The platform the preference order is tuned for.
#[derive(Debug, Clone, Copy, PartialEq, Eq, Structural)]
pub enum Platform {
    MacOs,
    Windows,
    Other,
}

/// One entry of the encoder table: the transcoder arguments that select it
/// and whether it is hardware accelerated.
#[derive(Debug, Clone)]
pub struct EncoderSpec {
    pub preference: VideoEncoderPreference,
    pub codec: &'static str,
    pub args: Vec<&'static str>,
    pub accelerated: bool,
}

/// The preference a name denotes, after trimming and case folding; an empty
/// or absent value means automatic.
pub open spec fn spec_parse_preference(v: Option<Seq<char>>) -> Option<VideoEncoderPreference> {
    let t = if v is Some {
        spec_trim(v->0)
    } else {
        "auto"@
    };
    if matches_keyword(t, "auto"@) || t.len() == 0 {
        Some(VideoEncoderPreference::Auto)
    } else if matches_keyword(t, "cpu"@) {
        Some(VideoEncoderPreference::Cpu)
    } else if matches_keyword(t, "nvenc"@) {
        Some(VideoEncoderPreference::Nvenc)
    } else if matches_keyword(t, "videotoolbox"@) {
        Some(VideoEncoderPreference::Videotoolbox)
    } else if matches_keyword(t, "qsv"@) {
        Some(VideoEncoderPreference::Qsv)
    } else if matches_keyword(t, "vaapi"@) {
        Some(VideoEncoderPreference::Vaapi)
    } else if matches_keyword(t, "amf"@) {
        Some(VideoEncoderPreference::Amf)
    } else {
        None
    }
}

impl VideoEncoderPreference {
    /// Parse an encoder preference; anything unknown is an error for the
    /// caller to surface.
    pub fn parse(value: Option<&str>) -> (r: Option<VideoEncoderPreference>)
        ensures
            r == spec_parse_preference(match value {
                Some(v) => Some(v@),
                None => None,
            }),
    {
        let trimmed: String = match value {
            Some(v) => trim(v),
            None => {
                proof {
                    reveal_strlit("auto");
                }
                let auto = String::from_str("auto");
                proof {
                    assert(spec_trim("auto"@) =~= "auto"@) by {
                        assert(!is_space("auto"@[0]));
                        assert(!is_space("auto"@[3]));
                    }
                }
                trim(auto.as_str())
            },
        };
        let t = trimmed.as_str();
        if eq_ignore_case(t, "auto") || t.unicode_len() == 0 {
            Some(VideoEncoderPreference::Auto)
        } else if eq_ignore_case(t, "cpu") {
            Some(VideoEncoderPreference::Cpu)
        } else if eq_ignore_case(t, "nvenc") {
            Some(VideoEncoderPreference::Nvenc)
        } else if eq_ignore_case(t, "videotoolbox") {
            Some(VideoEncoderPreference::Videotoolbox)
        } else if eq_ignore_case(t, "qsv") {
            Some(VideoEncoderPreference::Qsv)
        } else if eq_ignore_case(t, "vaapi") {
            Some(VideoEncoderPreference::Vaapi)
        } else if eq_ignore_case(t, "amf") {
            Some(VideoEncoderPreference::Amf)
        } else {
            None
        }
    }
}

/// The codec name each preference drives.
pub open spec fn spec_codec_of(p: VideoEncoderPreference) -> Seq<char> {
    match p {
        VideoEncoderPreference::Auto => ""@,
        VideoEncoderPreference::Cpu => "libx264"@,
        VideoEncoderPreference::Nvenc => "h264_nvenc"@,
        VideoEncoderPreference::Videotoolbox => "h264_videotoolbox"@,
        VideoEncoderPreference::Qsv => "h264_qsv"@,
        VideoEncoderPreference::Vaapi => "h264_vaapi"@,
        VideoEncoderPreference::Amf => "h264_amf"@,
    }
}

/// The table entry of one concrete preference; automatic has none.
pub fn encoder_spec(preference: VideoEncoderPreference) -> (r: Option<EncoderSpec>)
    ensures
        (r is Some) == (preference != VideoEncoderPreference::Auto),
        r is Some ==> {
            &&& r->0.preference == preference
            &&& r->0.codec@ == spec_codec_of(preference)
            &&& r->0.accelerated == (preference != VideoEncoderPreference::Cpu)
        },
{
    proof {
        reveal_strlit("libx264");
        reveal_strlit("h264_nvenc");
        reveal_strlit("h264_videotoolbox");
        reveal_strlit("h264_qsv");
        reveal_strlit("h264_vaapi");
        reveal_strlit("h264_amf");
    }
    match preference {
        VideoEncoderPreference::Auto => None,
        VideoEncoderPreference::Cpu => {
            let mut args: Vec<&'static str> = Vec::new();
            args.push("-c:v");
            args.push("libx264");
            args.push("-preset");
            args.push("medium");
            args.push("-profile:v");
            args.push("high");
            args.push("-bf");
            args.push("2");
            Some(
                EncoderSpec {
                    preference: VideoEncoderPreference::Cpu,
                    codec: "libx264",
                    args,
                    accelerated: false,
                },
            )
        },
        VideoEncoderPreference::Nvenc => {
            let mut args: Vec<&'static str> = Vec::new();
            args.push("-c:v");
            args.push("h264_nvenc");
            args.push("-preset");
            args.push("p4");
            args.push("-tune");
            args.push("hq");
            Some(
                EncoderSpec {
                    preference: VideoEncoderPreference::Nvenc,
                    codec: "h264_nvenc",
                    args,
                    accelerated: true,
                },
            )
        },
        VideoEncoderPreference::Videotoolbox => {
            let mut args: Vec<&'static str> = Vec::new();
            args.push("-c:v");
            args.push("h264_videotoolbox");
            Some(
                EncoderSpec {
                    preference: VideoEncoderPreference::Videotoolbox,
                    codec: "h264_videotoolbox",
                    args,
                    accelerated: true,
                },
            )
        },
        VideoEncoderPreference::Qsv => {
            let mut args: Vec<&'static str> = Vec::new();
            args.push("-c:v");
            args.push("h264_qsv");
            Some(
                EncoderSpec {
                    preference: VideoEncoderPreference::Qsv,
                    codec: "h264_qsv",
                    args,
                    accelerated: true,
                },
            )
        },
        VideoEncoderPreference::Vaapi => {
            let mut args: Vec<&'static str> = Vec::new();
            args.push("-vf");
            args.push("format=nv12,hwupload");
            args.push("-c:v");
            args.push("h264_vaapi");
            Some(
                EncoderSpec {
                    preference: VideoEncoderPreference::Vaapi,
                    codec: "h264_vaapi",
                    args,
                    accelerated: true,
                },
            )
        },
        VideoEncoderPreference::Amf => {
            let mut args: Vec<&'static str> = Vec::new();
            args.push("-c:v");
            args.push("h264_amf");
            Some(
                EncoderSpec {
                    preference: VideoEncoderPreference::Amf,
                    codec: "h264_amf",
                    args,
                    accelerated: true,
                },
            )
        },
    }
}

/// The hardware preferences tried for "auto", most attractive first, per
/// platform.
pub open spec fn spec_auto_order(platform: Platform) -> Seq<VideoEncoderPreference> {
    match platform {
        Platform::MacOs => seq![
            VideoEncoderPreference::Videotoolbox,
            VideoEncoderPreference::Nvenc,
            VideoEncoderPreference::Qsv,
            VideoEncoderPreference::Amf,
        ],
        Platform::Windows => seq![
            VideoEncoderPreference::Nvenc,
            VideoEncoderPreference::Amf,
            VideoEncoderPreference::Qsv,
            VideoEncoderPreference::Videotoolbox,
        ],
        Platform::Other => seq![
            VideoEncoderPreference::Nvenc,
            VideoEncoderPreference::Qsv,
            VideoEncoderPreference::Vaapi,
            VideoEncoderPreference::Videotoolbox,
        ],
    }
}

/// The hardware preferences tried for "auto" on one platform.
pub fn auto_preference_order(platform: Platform) -> (r: Vec<VideoEncoderPreference>)
    ensures
        r@ == spec_auto_order(platform),
{
    let mut order: Vec<VideoEncoderPreference> = Vec::new();
    match platform {
        Platform::MacOs => {
            order.push(VideoEncoderPreference::Videotoolbox);
            order.push(VideoEncoderPreference::Nvenc);
            order.push(VideoEncoderPreference::Qsv);
            order.push(VideoEncoderPreference::Amf);
        },
        Platform::Windows => {
            order.push(VideoEncoderPreference::Nvenc);
            order.push(VideoEncoderPreference::Amf);
            order.push(VideoEncoderPreference::Qsv);
            order.push(VideoEncoderPreference::Videotoolbox);
        },
        Platform::Other => {
            order.push(VideoEncoderPreference::Nvenc);
            order.push(VideoEncoderPreference::Qsv);
            order.push(VideoEncoderPreference::Vaapi);
            order.push(VideoEncoderPreference::Videotoolbox);
        },
    }
    proof {
        assert(order@ =~= spec_auto_order(platform));
    }
    order
}

/// Does the probed encoder set hold a codec name?
pub open spec fn spec_supports(supported: Seq<String>, codec: Seq<char>) -> bool {
    exists|i: int| 0 <= i < supported.len() && #[trigger] supported[i]@ == codec
}

fn supports(supported: &Vec<String>, codec: &str) -> (r: bool)
    ensures
        r == spec_supports(supported@, codec@),
{
    let n = supported.len();
    let mut i: usize = 0;
    while i < n
        invariant
            0 <= i <= n,
            n == supported@.len(),
            forall|j: int| 0 <= j < i ==> #[trigger] supported@[j]@ != codec@,
        decreases n - i,
    {
        if str_eq(supported[i].as_str(), codec) {
            return true;
        }
        i += 1;
    }
    false
}

/// The candidate preferences a selection walks: the platform's automatic
/// order, or just the one the user asked for.
pub open spec fn spec_candidates(preference: VideoEncoderPreference, platform: Platform) -> Seq<
    VideoEncoderPreference,
> {
    if preference == VideoEncoderPreference::Auto {
        spec_auto_order(platform)
    } else {
        seq![preference]
    }
}

/// The supported candidates, kept in candidate order.
pub open spec fn spec_filtered_prefs(
    cands: Seq<VideoEncoderPreference>,
    supported: Seq<String>,
) -> Seq<VideoEncoderPreference>
    decreases cands.len(),
{
    if cands.len() == 0 {
        Seq::empty()
    } else {
        let head = spec_filtered_prefs(cands.subrange(0, cands.len() - 1), supported);
        if spec_supports(supported, spec_codec_of(cands[cands.len() - 1])) {
            head.push(cands[cands.len() - 1])
        } else {
            head
        }
    }
}

/// The preferences a selection must produce, in order: the supported
/// candidates, with the CPU fallback appended unless it is already among
/// them.
pub open spec fn spec_chain_prefs(
    preference: VideoEncoderPreference,
    platform: Platform,
    supported: Seq<String>,
) -> Seq<VideoEncoderPreference> {
    let f = spec_filtered_prefs(spec_candidates(preference, platform), supported);
    if f.contains(VideoEncoderPreference::Cpu) {
        f
    } else {
        f.push(VideoEncoderPreference::Cpu)
    }
}

/// The fallback chain: every supported candidate in preference order, with
/// the CPU encoder appended as the guaranteed fallback unless it is already
/// in the chain.
pub fn select_encoder_chain(
    preference: VideoEncoderPreference,
    platform: Platform,
    supported: &Vec<String>,
) -> (chain: Vec<EncoderSpec>)
    ensures
        // the entries' preferences are exactly the supported candidates in
        // order, with the CPU fallback appended unless already among them
        chain@.map_values(|e: EncoderSpec| e.preference) == spec_chain_prefs(
            preference,
            platform,
            supported@,
        ),
        // each entry is that preference's own table row
        forall|i: int|
            0 <= i < chain@.len() ==> {
                &&& (#[trigger] chain@[i]).preference != VideoEncoderPreference::Auto
                &&& chain@[i].codec@ == spec_codec_of(chain@[i].preference)
                &&& chain@[i].accelerated == (chain@[i].preference != VideoEncoderPreference::Cpu)
            },
        chain@.len() > 0,
        // the chain always ends in the guaranteed software fallback
        chain@.last().preference == VideoEncoderPreference::Cpu,
{
    let candidates: Vec<VideoEncoderPreference> = if matches!(
        preference,
        VideoEncoderPreference::Auto,
    ) {
        auto_preference_order(platform)
    } else {
        let mut one: Vec<VideoEncoderPreference> = Vec::new();
        one.push(preference);
        one
    };
    proof {
        assert(candidates@ =~= spec_candidates(preference, platform));
        assert forall|k: int| 0 <= k < candidates@.len() implies #[trigger] candidates@[k]
            != VideoEncoderPreference::Auto by {
            if preference == VideoEncoderPreference::Auto {
                assert(spec_auto_order(platform)[k] != VideoEncoderPreference::Auto);
            }
        }
        assert(candidates@.subrange(0, 0) =~= Seq::<VideoEncoderPreference>::empty());
    }
    let mut chain: Vec<EncoderSpec> = Vec::new();
    let n = candidates.len();
    let mut i: usize = 0;
    while i < n
        invariant
            0 <= i <= n,
            n == candidates@.len(),
            candidates@ == spec_candidates(preference, platform),
            forall|k: int|
                0 <= k < candidates@.len() ==> #[trigger] candidates@[k]
                    != VideoEncoderPreference::Auto,
            chain@.map_values(|e: EncoderSpec| e.preference) == spec_filtered_prefs(
                candidates@.subrange(0, i as int),
                supported@,
            ),
            forall|j: int|
                0 <= j < chain@.len() ==> {
                    &&& (#[trigger] chain@[j]).preference != VideoEncoderPreference::Auto
                    &&& chain@[j].codec@ == spec_codec_of(chain@[j].preference)
                    &&& chain@[j].accelerated == (chain@[j].preference
                        != VideoEncoderPreference::Cpu)
                },
        decreases n - i,
    {
        let ghost pre_prefs = chain@.map_values(|e: EncoderSpec| e.preference);
        proof {
            assert(candidates@.subrange(0, i as int + 1).subrange(0, i as int)
                =~= candidates@.subrange(0, i as int));
            assert(candidates@.subrange(0, i as int + 1)[i as int] == candidates@[i as int]);
        }
        match encoder_spec(candidates[i]) {
            Some(spec) => {
                if supports(supported, spec.codec) {
                    chain.push(spec);
                    proof {
                        assert(chain@.map_values(|e: EncoderSpec| e.preference)
                            =~= pre_prefs.push(candidates@[i as int]));
                    }
                } else {
                    proof {
                        assert(!spec_supports(
                            supported@,
                            spec_codec_of(candidates@[i as int]),
                        ));
                    }
                }
            },
            None => {
                proof {
                    assert(candidates@[i as int] == VideoEncoderPreference::Auto);
                }
            },
        }
        i += 1;
    }
    proof {
        assert(candidates@.subrange(0, n as int) =~= candidates@);
    }
    // guarantee the CPU fallback
    let ghost f = spec_filtered_prefs(candidates@, supported@);
    let mut has_cpu = false;
    let m = chain.len();
    let mut j: usize = 0;
    while j < m
        invariant
            0 <= j <= m,
            m == chain@.len(),
            f == spec_filtered_prefs(candidates@, supported@),
            chain@.map_values(|e: EncoderSpec| e.preference) == f,
            has_cpu == exists|t: int|
                0 <= t < j && (#[trigger] chain@[t]).preference == VideoEncoderPreference::Cpu,
        decreases m - j,
    {
        if matches!(chain[j].preference, VideoEncoderPreference::Cpu) {
            proof {
                assert(chain@[j as int].preference == VideoEncoderPreference::Cpu);
            }
            has_cpu = true;
        }
        j += 1;
    }
    proof {
        // the scan's verdict coincides with membership in the filtered spec
        if has_cpu {
            let t = choose|t: int|
                0 <= t < chain@.len() && (#[trigger] chain@[t]).preference
                    == VideoEncoderPreference::Cpu;
            assert(f[t] == VideoEncoderPreference::Cpu);
            assert(f.contains(VideoEncoderPreference::Cpu));
        } else {
            if f.contains(VideoEncoderPreference::Cpu) {
                let t = choose|t: int|
                    0 <= t < f.len() && f[t] == VideoEncoderPreference::Cpu;
                assert(chain@[t].preference == VideoEncoderPreference::Cpu);
            }
        }
    }
    if !has_cpu {
        let ghost pre_prefs = chain@.map_values(|e: EncoderSpec| e.preference);
        match encoder_spec(VideoEncoderPreference::Cpu) {
            Some(cpu) => {
                chain.push(cpu);
                proof {
                    assert(chain@.map_values(|e: EncoderSpec| e.preference) =~= pre_prefs.push(
                        VideoEncoderPreference::Cpu,
                    ));
                }
            },
            None => {},
        }
    } else {
        proof {
            // the only candidate list that can carry the CPU encoder is the
            // single explicit CPU preference, so the whole chain is it
            let t = choose|t: int|
                0 <= t < chain@.len() && (#[trigger] chain@[t]).preference
                    == VideoEncoderPreference::Cpu;
            lemma_filtered_from(candidates@, supported@, f);
            if preference == VideoEncoderPreference::Auto {
                let k = choose|k: int|
                    0 <= k < candidates@.len() && candidates@[k] == VideoEncoderPreference::Cpu;
                assert(spec_auto_order(platform)[k] != VideoEncoderPreference::Cpu);
            }
            assert(preference == VideoEncoderPreference::Cpu);
            assert forall|j: int| 0 <= j < chain@.len() implies (#[trigger] chain@[j]).preference
                == VideoEncoderPreference::Cpu by {
                assert(f[j] == chain@[j].preference);
                let k = choose|k: int|
                    0 <= k < candidates@.len() && candidates@[k] == f[j];
            }
        }
    }
    chain
}

/// Every filtered preference comes from the candidate list.
proof fn lemma_filtered_from(
    cands: Seq<VideoEncoderPreference>,
    supported: Seq<String>,
    f: Seq<VideoEncoderPreference>,
)
    requires
        f == spec_filtered_prefs(cands, supported),
    ensures
        forall|j: int|
            0 <= j < f.len() ==> exists|k: int|
                0 <= k < cands.len() && #[trigger] cands[k] == #[trigger] f[j],
    decreases cands.len(),
{
    if cands.len() > 0 {
        let head_cands = cands.subrange(0, cands.len() - 1);
        let head = spec_filtered_prefs(head_cands, supported);
        lemma_filtered_from(head_cands, supported, head);
        assert forall|j: int| 0 <= j < f.len() implies exists|k: int|
            0 <= k < cands.len() && #[trigger] cands[k] == #[trigger] f[j] by {
            if j < head.len() {
                let k = choose|k: int|
                    0 <= k < head_cands.len() && #[trigger] head_cands[k] == head[j];
                assert(cands[k] == f[j]);
            } else {
                assert(f[j] == cands[cands.len() - 1]);
            }
        }
    }
}

/// The first non-blank position at or after `from`.
fn nonspace_from(s: &str, from: usize) -> (r: usize)
    requires
        from <= s@.len(),
    ensures
        r as int == spec_nonspace_from(s@, from as int),
        from <= r <= s@.len(),
        r < s@.len() ==> !is_space(s@[r as int]),
        forall|k: int| from <= k < r ==> is_space(#[trigger] s@[k]),
{
    let n = s.unicode_len();
    let mut i: usize = from;
    while i < n && crate::text::is_space_char(s.get_char(i))
        invariant
            from <= i <= n,
            n == s@.len(),
            spec_nonspace_from(s@, from as int) == spec_nonspace_from(s@, i as int),
            forall|k: int| from <= k < i ==> is_space(#[trigger] s@[k]),
        decreases n - i,
    {
        i += 1;
    }
    i
}

/// The first blank position at or after `from`.
fn space_from(s: &str, from: usize) -> (r: usize)
    requires
        from <= s@.len(),
    ensures
        r as int == spec_space_from(s@, from as int),
        from <= r <= s@.len(),
{
    let n = s.unicode_len();
    let mut i: usize = from;
    while i < n && !crate::text::is_space_char(s.get_char(i))
        invariant
            from <= i <= n,
            n == s@.len(),
            spec_space_from(s@, from as int) == spec_space_from(s@, i as int),
        decreases n - i,
    {
        i += 1;
    }
    i
}

/// Is the character a capability-field character?
fn is_cap_or_dot_char(c: char) -> (r: bool)
    ensures
        r == is_cap_or_dot(c),
{
    ('A' <= c && c <= 'Z') || c == '.'
}

/// Extract the encoder name from one line of the toolchain's encoder
/// listing, if the line is one.
pub fn parse_encoder_line(line: &str) -> (r: Option<String>)
    ensures
        match r {
            Some(name) => spec_encoder_line_name(line@) == Some(name@),
            None => spec_encoder_line_name(line@) is None,
        },
{
    let n = line.unicode_len();
    let i = nonspace_from(line, 0);
    if n < 6 || i > n - 6 {
        return None;
    }
    let mut k: usize = i;
    while k < i + 6
        invariant
            i <= k <= i + 6,
            i + 6 <= n,
            n == line@.len(),
            i as int == spec_nonspace_from(line@, 0),
            forall|t: int| i <= t < k ==> is_cap_or_dot(#[trigger] line@[t]),
        decreases i + 6 - k,
    {
        if !is_cap_or_dot_char(line.get_char(k)) {
            proof {
                assert(!is_cap_or_dot(line@[k as int]));
            }
            return None;
        }
        k += 1;
    }
    if !(i + 6 < n) {
        return None;
    }
    if !crate::text::is_space_char(line.get_char(i + 6)) {
        return None;
    }
    let j = nonspace_from(line, i + 6);
    let e = space_from(line, j);
    if j < n {
        let piece = line.substring_char(j, e);
        proof {
            assert(spec_space_from(line@, j as int) <= line@.len()) by {
                lemma_space_from_bounds(line@, j as int);
            }
        }
        Some(String::from_str(piece))
    } else {
        None
    }
}

proof fn lemma_space_from_bounds(s: Seq<char>, from: int)
    requires
        0 <= from <= s.len(),
    ensures
        from <= spec_space_from(s, from) <= s.len(),
    decreases s.len() - from,
{
    if from < s.len() && !is_space(s[from]) {
        lemma_space_from_bounds(s, from + 1);
    }
}

/// What one line of the toolchain's encoder listing names: optional blanks,
/// a six-character capability field of capitals and dots, at least one
/// blank, then the encoder's name up to the next blank.
pub open spec fn spec_encoder_line_name(line: Seq<char>) -> Option<Seq<char>> {
    let i = spec_nonspace_from(line, 0);
    if i + 6 <= line.len() && (forall|k: int| i <= k < i + 6 ==> is_cap_or_dot(#[trigger] line[k]))
        && i + 6 < line.len() && is_space(line[i + 6]) {
        let j = spec_nonspace_from(line, i + 6);
        let e = spec_space_from(line, j);
        if j < line.len() {
            Some(line.subrange(j, e))
        } else {
            None
        }
    } else {
        None
    }
}

/// A capability-field character: a capital letter or a dot.
pub open spec fn is_cap_or_dot(c: char) -> bool {
    ('A' <= c && c <= 'Z') || c == '.'
}

/// The first non-blank position at or after `from`.
pub open spec fn spec_nonspace_from(s: Seq<char>, from: int) -> int
    decreases s.len() - from,
{
    if from < 0 {
        from
    } else if from < s.len() && is_space(s[from]) {
        spec_nonspace_from(s, from + 1)
    } else {
        from
    }
}

/// The first blank position at or after `from`.
pub open spec fn spec_space_from(s: Seq<char>, from: int) -> int
    decreases s.len() - from,
{
    if from < 0 {
        from
    } else if from < s.len() && !is_space(s[from]) {
        spec_space_from(s, from + 1)
    } else {
        from
    }
}

} // verus!
