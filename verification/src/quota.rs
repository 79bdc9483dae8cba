//! Process-wide quota governor: per-model sliding windows of request
//! timestamps and token counts, plus cumulative upload accounting.
//!
//! The monitor is a deterministic state machine over caller-supplied clock
//! readings (integer milliseconds): every decision is a pure function of the
//! stored windows, the configuration, and `now_ms`. The I/O shell wraps one
//! monitor in a reference-counted lock and performs the sleeps this module
//! only recommends.

use vstd::prelude::*;
use vstd::string::StringExecFns;

verus! {

/// Immutable quota configuration. Thresholds are percentages, durations are
/// milliseconds, limits of zero mean "unlimited". The warn thresholds and
/// the warn cooldown only govern the shell's rate-limited log lines; the
/// monitor itself never blocks on them.
#[derive(Debug, Clone)]
pub struct QuotaConfig {
    pub request_limits: Vec<(String, u32)>,
    pub token_limits: Vec<(String, u32)>,
    pub rpm_warn_percent: u32,
    pub rpm_sleep_percent: u32,
    pub token_warn_percent: u32,
    pub storage_limit_bytes: u64,
    pub upload_limit_bytes: u64,
    pub concurrency_limit: u32,
    pub warn_cooldown_ms: u64,
    pub max_preemptive_sleep_ms: u64,
    pub request_window_ms: u64,
}

impl QuotaConfig {
    /// The stock configuration: warn at 80% utilization, sleep at 90%, a
    /// 60-second rolling window, a 500 ms preemptive-sleep cap, a 20 GiB
    /// storage window and a 2 GiB per-file upload ceiling.
    pub fn new(request_limits: Vec<(String, u32)>, token_limits: Vec<(String, u32)>) -> (c:
        QuotaConfig)
        ensures
            c.request_limits == request_limits,
            c.token_limits == token_limits,
            c.rpm_warn_percent == 80,
            c.rpm_sleep_percent == 90,
            c.token_warn_percent == 80,
            c.storage_limit_bytes == 20 * 1024 * 1024 * 1024,
            c.upload_limit_bytes == 2 * 1024 * 1024 * 1024,
            c.concurrency_limit == 100,
            c.warn_cooldown_ms == 10_000,
            c.max_preemptive_sleep_ms == 500,
            c.request_window_ms == 60_000,
    {
        QuotaConfig {
            request_limits,
            token_limits,
            rpm_warn_percent: 80,
            rpm_sleep_percent: 90,
            token_warn_percent: 80,
            storage_limit_bytes: 20 * 1024 * 1024 * 1024,
            upload_limit_bytes: 2 * 1024 * 1024 * 1024,
            concurrency_limit: 100,
            warn_cooldown_ms: 10_000,
            max_preemptive_sleep_ms: 500,
            request_window_ms: 60_000,
        }
    }
}

/// The sliding request window of one quota bucket (usually a model name).
#[derive(Debug, Clone)]
pub struct RequestWindow {
    pub model: String,
    pub stamps: Vec<u64>,
}

/// One token reading: a timestamp and the tokens the response reported.
#[derive(Debug, Clone, Copy, PartialEq, Eq, Structural)]
pub struct TokenStamp {
    pub at_ms: u64,
    pub tokens: u32,
}

/// The sliding token window of one quota bucket.
#[derive(Debug, Clone)]
pub struct TokenWindow {
    pub model: String,
    pub entries: Vec<TokenStamp>,
}

/// The last clock reading at which a bucket's warning fired, for the
/// cooldown that rate-limits warning lines.
#[derive(Debug, Clone)]
pub struct WarnStamp {
    pub model: String,
    pub at_ms: u64,
}

/// What one request registration advises the caller: a preemptive sleep to
/// take before sending, and whether the utilization warning should be
/// emitted now (at most once per cooldown per bucket).
#[derive(Debug, Clone, Copy, PartialEq, Eq, Structural)]
pub struct ThrottleAdvice {
    pub sleep_ms: Option<u64>,
    pub warn: bool,
}

/// What an admitted upload advises the caller to warn about: the
/// cumulative storage window and the concurrent-upload count crossing the
/// warning threshold. Neither ever blocks.
#[derive(Debug, Clone, Copy, PartialEq, Eq, Structural)]
pub struct UploadAdmission {
    pub storage_warn: bool,
    pub concurrency_warn: bool,
}

/// The error `track_upload` returns when one file exceeds the hard
/// per-file ceiling. This is a configuration violation, never retried.
#[derive(Debug, Clone, PartialEq, Eq, Structural)]
pub struct UploadTooLarge {
    pub size_bytes: u64,
    pub limit_bytes: u64,
}

/// Milliseconds elapsed from `t` to `now`, saturating at zero when the
/// reading `t` lies in the future.
pub open spec fn spec_elapsed(now: u64, t: u64) -> int {
    if t <= now {
        now - t
    } else {
        0
    }
}

/// Front-eviction of a timestamp window: drop leading entries older than
/// the window span, exactly as the monitor trims before measuring
/// utilization.
pub open spec fn spec_evict(w: Seq<u64>, now: u64, window_ms: u64) -> Seq<u64>
    decreases w.len(),
{
    if w.len() == 0 {
        w
    } else if spec_elapsed(now, w[0]) > window_ms {
        spec_evict(w.subrange(1, w.len() as int), now, window_ms)
    } else {
        w
    }
}

/// Front-eviction of a token window.
pub open spec fn spec_evict_tokens(w: Seq<TokenStamp>, now: u64, window_ms: u64) -> Seq<TokenStamp>
    decreases w.len(),
{
    if w.len() == 0 {
        w
    } else if spec_elapsed(now, w[0].at_ms) > window_ms {
        spec_evict_tokens(w.subrange(1, w.len() as int), now, window_ms)
    } else {
        w
    }
}

/// First-match lookup of a bucket's configured limit.
pub open spec fn spec_limit_of(limits: Seq<(String, u32)>, model: Seq<char>) -> Option<u32>
    decreases limits.len(),
{
    if limits.len() == 0 {
        None
    } else if limits[0].0@ == model {
        Some(limits[0].1)
    } else {
        spec_limit_of(limits.subrange(1, limits.len() as int), model)
    }
}

/// The stored request window of a bucket; a bucket never touched is empty.
pub open spec fn spec_req_window(ws: Seq<RequestWindow>, model: Seq<char>) -> Seq<u64>
    decreases ws.len(),
{
    if ws.len() == 0 {
        Seq::empty()
    } else if ws[0].model@ == model {
        ws[0].stamps@
    } else {
        spec_req_window(ws.subrange(1, ws.len() as int), model)
    }
}

/// The stored token window of a bucket; a bucket never touched is empty.
pub open spec fn spec_token_window(ws: Seq<TokenWindow>, model: Seq<char>) -> Seq<TokenStamp>
    decreases ws.len(),
{
    if ws.len() == 0 {
        Seq::empty()
    } else if ws[0].model@ == model {
        ws[0].entries@
    } else {
        spec_token_window(ws.subrange(1, ws.len() as int), model)
    }
}

/// The stored warning stamp of a bucket, if its warning ever fired.
pub open spec fn spec_warn_stamp(ws: Seq<WarnStamp>, model: Seq<char>) -> Option<u64>
    decreases ws.len(),
{
    if ws.len() == 0 {
        None
    } else if ws[0].model@ == model {
        Some(ws[0].at_ms)
    } else {
        spec_warn_stamp(ws.subrange(1, ws.len() as int), model)
    }
}

/// Whether a warning fires now: the threshold is met and the bucket has
/// not warned within the cooldown.
pub open spec fn spec_should_warn(
    threshold_met: bool,
    last: Option<u64>,
    now: u64,
    cooldown_ms: u64,
) -> bool {
    threshold_met && (last is None || spec_elapsed(now, last->0) >= cooldown_ms)
}

/// The tokens a window currently holds.
pub open spec fn spec_token_sum(w: Seq<TokenStamp>) -> int
    decreases w.len(),
{
    if w.len() == 0 {
        0int
    } else {
        spec_token_sum(w.subrange(0, w.len() - 1)) + w[w.len() - 1].tokens as int
    }
}

/// What one `register_request` call does to the bucket's window: append the
/// new reading, then trim the stale front.
pub open spec fn spec_after_request(w: Seq<u64>, now: u64, window_ms: u64) -> Seq<u64> {
    spec_evict(w.push(now), now, window_ms)
}

/// What one accepted `register_tokens` call does to the bucket's window.
pub open spec fn spec_after_tokens(
    w: Seq<TokenStamp>,
    now: u64,
    tokens: u32,
    window_ms: u64,
) -> Seq<TokenStamp> {
    spec_evict_tokens(w.push(TokenStamp { at_ms: now, tokens }), now, window_ms)
}

/// The preemptive sleep the monitor recommends once the window holds `len`
/// requests against a positive `limit`: nothing below the sleep threshold;
/// above it, one request's share of the window, capped.
pub open spec fn spec_sleep_for(len: int, limit: u32, config: QuotaConfig) -> Option<u64> {
    if len * 100 >= (config.rpm_sleep_percent as int) * (limit as int) {
        let per_request = (config.request_window_ms as int) / (limit as int);
        let sleep = if (config.max_preemptive_sleep_ms as int) <= per_request {
            config.max_preemptive_sleep_ms as int
        } else {
            per_request
        };
        if sleep > 0 {
            Some(sleep as u64)
        } else {
            None
        }
    } else {
        None
    }
}

proof fn lemma_req_lookup_update(ws: Seq<RequestWindow>, i: int, b: RequestWindow)
    requires
        0 <= i < ws.len(),
        ws[i].model@ == b.model@,
        forall|j: int| 0 <= j < i ==> #[trigger] ws[j].model@ != b.model@,
    ensures
        spec_req_window(ws, b.model@) == ws[i].stamps@,
        spec_req_window(ws.update(i, b), b.model@) == b.stamps@,
        forall|m: Seq<char>|
            m != b.model@ ==> #[trigger] spec_req_window(ws.update(i, b), m) == spec_req_window(
                ws,
                m,
            ),
    decreases i,
{
    if i == 0 {
        assert(ws.update(0, b)[0] == b);
        assert forall|m: Seq<char>| m != b.model@ implies #[trigger] spec_req_window(
            ws.update(0, b),
            m,
        ) == spec_req_window(ws, m) by {
            assert(ws.update(0, b).subrange(1, ws.len() as int) =~= ws.subrange(
                1,
                ws.len() as int,
            ));
        }
    } else {
        let tail = ws.subrange(1, ws.len() as int);
        lemma_req_lookup_update(tail, i - 1, b);
        assert(tail[i - 1] == ws[i]);
        let upd = ws.update(i, b);
        assert(upd.subrange(1, ws.len() as int) =~= tail.update(i - 1, b));
        assert(upd[0] == ws[0]);
        assert(ws[0].model@ != b.model@);
        assert(spec_req_window(upd, b.model@) == spec_req_window(tail.update(i - 1, b), b.model@));
        assert(spec_req_window(ws, b.model@) == spec_req_window(tail, b.model@));
        assert forall|m: Seq<char>| m != b.model@ implies #[trigger] spec_req_window(upd, m)
            == spec_req_window(ws, m) by {
            if ws[0].model@ == m {
                assert(spec_req_window(upd, m) == upd[0].stamps@);
                assert(spec_req_window(ws, m) == ws[0].stamps@);
            } else {
                assert(spec_req_window(upd, m) == spec_req_window(tail.update(i - 1, b), m));
                assert(spec_req_window(ws, m) == spec_req_window(tail, m));
            }
        }
    }
}

proof fn lemma_req_lookup_push(ws: Seq<RequestWindow>, b: RequestWindow)
    requires
        forall|j: int| 0 <= j < ws.len() ==> #[trigger] ws[j].model@ != b.model@,
    ensures
        spec_req_window(ws, b.model@) == Seq::<u64>::empty(),
        spec_req_window(ws.push(b), b.model@) == b.stamps@,
        forall|m: Seq<char>|
            m != b.model@ ==> #[trigger] spec_req_window(ws.push(b), m) == spec_req_window(ws, m),
    decreases ws.len(),
{
    let pushed = ws.push(b);
    if ws.len() == 0 {
        assert(pushed[0] == b);
        assert(pushed.subrange(1, 1) =~= Seq::<RequestWindow>::empty());
        assert(spec_req_window(pushed, b.model@) == b.stamps@);
        assert forall|m: Seq<char>| m != b.model@ implies #[trigger] spec_req_window(pushed, m)
            == spec_req_window(ws, m) by {
            assert(spec_req_window(pushed, m) == spec_req_window(pushed.subrange(1, 1), m));
            assert(spec_req_window(Seq::<RequestWindow>::empty(), m) == Seq::<u64>::empty());
        }
    } else {
        let tail = ws.subrange(1, ws.len() as int);
        lemma_req_lookup_push(tail, b);
        assert(pushed.subrange(1, ws.len() as int + 1) =~= tail.push(b));
        assert(pushed[0] == ws[0]);
        assert(ws[0].model@ != b.model@);
        assert(spec_req_window(pushed, b.model@) == spec_req_window(tail.push(b), b.model@));
        assert forall|m: Seq<char>| m != b.model@ implies #[trigger] spec_req_window(pushed, m)
            == spec_req_window(ws, m) by {
            if ws[0].model@ == m {
                assert(spec_req_window(pushed, m) == pushed[0].stamps@);
                assert(spec_req_window(ws, m) == ws[0].stamps@);
            } else {
                assert(spec_req_window(pushed, m) == spec_req_window(tail.push(b), m));
                assert(spec_req_window(ws, m) == spec_req_window(tail, m));
            }
        }
    }
}

proof fn lemma_token_lookup_update(ws: Seq<TokenWindow>, i: int, b: TokenWindow)
    requires
        0 <= i < ws.len(),
        ws[i].model@ == b.model@,
        forall|j: int| 0 <= j < i ==> #[trigger] ws[j].model@ != b.model@,
    ensures
        spec_token_window(ws, b.model@) == ws[i].entries@,
        spec_token_window(ws.update(i, b), b.model@) == b.entries@,
        forall|m: Seq<char>|
            m != b.model@ ==> #[trigger] spec_token_window(ws.update(i, b), m) == spec_token_window(
                ws,
                m,
            ),
    decreases i,
{
    if i == 0 {
        assert(ws.update(0, b)[0] == b);
        assert forall|m: Seq<char>| m != b.model@ implies #[trigger] spec_token_window(
            ws.update(0, b),
            m,
        ) == spec_token_window(ws, m) by {
            assert(ws.update(0, b).subrange(1, ws.len() as int) =~= ws.subrange(
                1,
                ws.len() as int,
            ));
        }
    } else {
        let tail = ws.subrange(1, ws.len() as int);
        lemma_token_lookup_update(tail, i - 1, b);
        assert(tail[i - 1] == ws[i]);
        let upd = ws.update(i, b);
        assert(upd.subrange(1, ws.len() as int) =~= tail.update(i - 1, b));
        assert(upd[0] == ws[0]);
        assert(ws[0].model@ != b.model@);
        assert(spec_token_window(upd, b.model@) == spec_token_window(
            tail.update(i - 1, b),
            b.model@,
        ));
        assert(spec_token_window(ws, b.model@) == spec_token_window(tail, b.model@));
        assert forall|m: Seq<char>| m != b.model@ implies #[trigger] spec_token_window(upd, m)
            == spec_token_window(ws, m) by {
            if ws[0].model@ == m {
                assert(spec_token_window(upd, m) == upd[0].entries@);
                assert(spec_token_window(ws, m) == ws[0].entries@);
            } else {
                assert(spec_token_window(upd, m) == spec_token_window(tail.update(i - 1, b), m));
                assert(spec_token_window(ws, m) == spec_token_window(tail, m));
            }
        }
    }
}

proof fn lemma_token_lookup_push(ws: Seq<TokenWindow>, b: TokenWindow)
    requires
        forall|j: int| 0 <= j < ws.len() ==> #[trigger] ws[j].model@ != b.model@,
    ensures
        spec_token_window(ws, b.model@) == Seq::<TokenStamp>::empty(),
        spec_token_window(ws.push(b), b.model@) == b.entries@,
        forall|m: Seq<char>|
            m != b.model@ ==> #[trigger] spec_token_window(ws.push(b), m) == spec_token_window(
                ws,
                m,
            ),
    decreases ws.len(),
{
    let pushed = ws.push(b);
    if ws.len() == 0 {
        assert(pushed[0] == b);
        assert(pushed.subrange(1, 1) =~= Seq::<TokenWindow>::empty());
        assert(spec_token_window(pushed, b.model@) == b.entries@);
        assert forall|m: Seq<char>| m != b.model@ implies #[trigger] spec_token_window(pushed, m)
            == spec_token_window(ws, m) by {
            assert(spec_token_window(pushed, m) == spec_token_window(pushed.subrange(1, 1), m));
            assert(spec_token_window(Seq::<TokenWindow>::empty(), m) == Seq::<TokenStamp>::empty());
        }
    } else {
        let tail = ws.subrange(1, ws.len() as int);
        lemma_token_lookup_push(tail, b);
        assert(pushed.subrange(1, ws.len() as int + 1) =~= tail.push(b));
        assert(pushed[0] == ws[0]);
        assert(ws[0].model@ != b.model@);
        assert(spec_token_window(pushed, b.model@) == spec_token_window(tail.push(b), b.model@));
        assert forall|m: Seq<char>| m != b.model@ implies #[trigger] spec_token_window(pushed, m)
            == spec_token_window(ws, m) by {
            if ws[0].model@ == m {
                assert(spec_token_window(pushed, m) == pushed[0].entries@);
                assert(spec_token_window(ws, m) == ws[0].entries@);
            } else {
                assert(spec_token_window(pushed, m) == spec_token_window(tail.push(b), m));
                assert(spec_token_window(ws, m) == spec_token_window(tail, m));
            }
        }
    }
}

proof fn lemma_warn_lookup_update(ws: Seq<WarnStamp>, i: int, b: WarnStamp)
    requires
        0 <= i < ws.len(),
        ws[i].model@ == b.model@,
        forall|j: int| 0 <= j < i ==> #[trigger] ws[j].model@ != b.model@,
    ensures
        spec_warn_stamp(ws, b.model@) == Some(ws[i].at_ms),
        spec_warn_stamp(ws.update(i, b), b.model@) == Some(b.at_ms),
        forall|m: Seq<char>|
            m != b.model@ ==> #[trigger] spec_warn_stamp(ws.update(i, b), m) == spec_warn_stamp(
                ws,
                m,
            ),
    decreases i,
{
    if i == 0 {
        assert(ws.update(0, b)[0] == b);
        assert forall|m: Seq<char>| m != b.model@ implies #[trigger] spec_warn_stamp(
            ws.update(0, b),
            m,
        ) == spec_warn_stamp(ws, m) by {
            assert(ws.update(0, b).subrange(1, ws.len() as int) =~= ws.subrange(
                1,
                ws.len() as int,
            ));
        }
    } else {
        let tail = ws.subrange(1, ws.len() as int);
        lemma_warn_lookup_update(tail, i - 1, b);
        assert(tail[i - 1] == ws[i]);
        let upd = ws.update(i, b);
        assert(upd.subrange(1, ws.len() as int) =~= tail.update(i - 1, b));
        assert(upd[0] == ws[0]);
        assert(ws[0].model@ != b.model@);
        assert forall|m: Seq<char>| m != b.model@ implies #[trigger] spec_warn_stamp(upd, m)
            == spec_warn_stamp(ws, m) by {
            if ws[0].model@ == m {
            } else {
                assert(spec_warn_stamp(upd, m) == spec_warn_stamp(tail.update(i - 1, b), m));
                assert(spec_warn_stamp(ws, m) == spec_warn_stamp(tail, m));
            }
        }
    }
}

proof fn lemma_warn_lookup_push(ws: Seq<WarnStamp>, b: WarnStamp)
    requires
        forall|j: int| 0 <= j < ws.len() ==> #[trigger] ws[j].model@ != b.model@,
    ensures
        spec_warn_stamp(ws, b.model@) is None,
        spec_warn_stamp(ws.push(b), b.model@) == Some(b.at_ms),
        forall|m: Seq<char>|
            m != b.model@ ==> #[trigger] spec_warn_stamp(ws.push(b), m) == spec_warn_stamp(ws, m),
    decreases ws.len(),
{
    let pushed = ws.push(b);
    if ws.len() == 0 {
        assert(pushed[0] == b);
        assert(pushed.subrange(1, 1) =~= Seq::<WarnStamp>::empty());
        assert forall|m: Seq<char>| m != b.model@ implies #[trigger] spec_warn_stamp(pushed, m)
            == spec_warn_stamp(ws, m) by {
            assert(spec_warn_stamp(pushed, m) == spec_warn_stamp(pushed.subrange(1, 1), m));
        }
    } else {
        let tail = ws.subrange(1, ws.len() as int);
        lemma_warn_lookup_push(tail, b);
        assert(pushed.subrange(1, ws.len() as int + 1) =~= tail.push(b));
        assert(pushed[0] == ws[0]);
        assert(ws[0].model@ != b.model@);
        assert forall|m: Seq<char>| m != b.model@ implies #[trigger] spec_warn_stamp(pushed, m)
            == spec_warn_stamp(ws, m) by {
            if ws[0].model@ == m {
            } else {
                assert(spec_warn_stamp(pushed, m) == spec_warn_stamp(tail.push(b), m));
                assert(spec_warn_stamp(ws, m) == spec_warn_stamp(tail, m));
            }
        }
    }
}

/// Decide whether a bucket's warning fires now and stamp the bucket if it
/// does: the threshold must be met and the cooldown elapsed.
fn update_warn(
    ws: &mut Vec<WarnStamp>,
    model: &String,
    threshold_met: bool,
    now: u64,
    cooldown_ms: u64,
) -> (warn: bool)
    ensures
        warn == spec_should_warn(
            threshold_met,
            spec_warn_stamp(old(ws)@, model@),
            now,
            cooldown_ms,
        ),
        warn ==> spec_warn_stamp(final(ws)@, model@) == Some(now),
        !warn ==> final(ws)@ == old(ws)@,
        forall|m: Seq<char>|
            m != model@ ==> #[trigger] spec_warn_stamp(final(ws)@, m) == spec_warn_stamp(
                old(ws)@,
                m,
            ),
{
    if !threshold_met {
        return false;
    }
    let n = ws.len();
    let mut i: usize = 0;
    while i < n
        invariant
            0 <= i <= n,
            n == ws@.len(),
            threshold_met,
            *ws == *old(ws),
            forall|j: int| 0 <= j < i ==> #[trigger] ws@[j].model@ != model@,
        decreases n - i,
    {
        if ws[i].model.eq(model) {
            let last = ws[i].at_ms;
            let elapsed = if last <= now {
                now - last
            } else {
                0
            };
            let allowed = elapsed >= cooldown_ms;
            proof {
                lemma_warn_lookup_update(ws@, i as int, ws@[i as int]);
            }
            if allowed {
                let ghost pre = ws@;
                let stamp = WarnStamp { model: model.clone(), at_ms: now };
                ws[i] = stamp;
                proof {
                    lemma_warn_lookup_update(pre, i as int, ws@[i as int]);
                }
                return true;
            }
            return false;
        }
        i += 1;
    }
    let ghost pre = ws@;
    ws.push(WarnStamp { model: model.clone(), at_ms: now });
    proof {
        lemma_warn_lookup_push(pre, ws@[pre.len() as int]);
    }
    true
}

/// A window's token sum is bounded by its length times the widest entry.
proof fn lemma_token_sum_bound(w: Seq<TokenStamp>)
    ensures
        0 <= spec_token_sum(w) <= w.len() * (u32::MAX as int),
    decreases w.len(),
{
    if w.len() > 0 {
        let head = w.subrange(0, w.len() - 1);
        lemma_token_sum_bound(head);
        assert(w.len() * (u32::MAX as int) == head.len() * (u32::MAX as int) + (
        u32::MAX as int)) by (nonlinear_arith)
            requires
                w.len() == head.len() + 1,
        ;
    }
}

/// The tokens a window currently holds.
fn window_token_sum(entries: &Vec<TokenStamp>) -> (s: u128)
    ensures
        s as int == spec_token_sum(entries@),
{
    proof {
        lemma_token_sum_bound(entries@);
        assert(entries@.subrange(0, 0) =~= Seq::<TokenStamp>::empty());
    }
    let n = entries.len();
    let mut acc: u128 = 0;
    let mut i: usize = 0;
    while i < n
        invariant
            0 <= i <= n,
            n == entries@.len(),
            acc as int == spec_token_sum(entries@.subrange(0, i as int)),
            acc as int <= i * (u32::MAX as int),
        decreases n - i,
    {
        proof {
            assert(entries@.subrange(0, i as int + 1).subrange(0, i as int) =~= entries@.subrange(
                0,
                i as int,
            ));
            assert(entries@.subrange(0, i as int + 1)[i as int] == entries@[i as int]);
            assert((i + 1) * (u32::MAX as int) == i * (u32::MAX as int) + (
            u32::MAX as int)) by (nonlinear_arith);
            vstd::arithmetic::mul::lemma_mul_upper_bound(
                i as int,
                usize::MAX as int,
                u32::MAX as int,
                u32::MAX as int,
            );
        }
        acc = acc + (entries[i].tokens as u128);
        i += 1;
    }
    proof {
        assert(entries@.subrange(0, n as int) =~= entries@);
    }
    acc
}

/// Look a bucket's configured limit up, first match wins.
fn limit_for(limits: &Vec<(String, u32)>, model: &String) -> (r: Option<u32>)
    ensures
        r == spec_limit_of(limits@, model@),
{
    let n = limits.len();
    proof {
        assert(limits@.subrange(0, n as int) =~= limits@);
    }
    let mut i: usize = 0;
    while i < n
        invariant
            0 <= i <= n,
            n == limits@.len(),
            spec_limit_of(limits@, model@) == spec_limit_of(
                limits@.subrange(i as int, n as int),
                model@,
            ),
        decreases n - i,
    {
        let ghost pre = limits@.subrange(i as int, n as int);
        if limits[i].0.eq(model) {
            proof {
                assert(pre[0] == limits@[i as int]);
            }
            return Some(limits[i].1);
        }
        proof {
            assert(pre[0] == limits@[i as int]);
            assert(pre.subrange(1, pre.len() as int) =~= limits@.subrange(
                i as int + 1,
                n as int,
            ));
        }
        i += 1;
    }
    proof {
        assert(limits@.subrange(n as int, n as int) =~= Seq::<(String, u32)>::empty());
    }
    None
}

/// Is a reading taken at `front` already outside the rolling window?
fn is_stale(front: u64, now: u64, window_ms: u64) -> (r: bool)
    ensures
        r == (spec_elapsed(now, front) > window_ms),
{
    front <= now && now - front > window_ms
}

/// Drop the stale front of a request window in place.
fn evict_stamps(stamps: &mut Vec<u64>, now: u64, window_ms: u64)
    ensures
        final(stamps)@ == spec_evict(old(stamps)@, now, window_ms),
{
    let ghost orig = stamps@;
    while stamps.len() > 0 && is_stale(stamps[0], now, window_ms)
        invariant
            spec_evict(stamps@, now, window_ms) == spec_evict(orig, now, window_ms),
        decreases stamps@.len(),
    {
        let ghost pre = stamps@;
        stamps.remove(0);
        proof {
            assert(stamps@ =~= pre.subrange(1, pre.len() as int));
        }
    }
}

/// Drop the stale front of a token window in place.
fn evict_token_stamps(entries: &mut Vec<TokenStamp>, now: u64, window_ms: u64)
    ensures
        final(entries)@ == spec_evict_tokens(old(entries)@, now, window_ms),
{
    let ghost orig = entries@;
    while entries.len() > 0 && is_stale(entries[0].at_ms, now, window_ms)
        invariant
            spec_evict_tokens(entries@, now, window_ms) == spec_evict_tokens(orig, now, window_ms),
        decreases entries@.len(),
    {
        let ghost pre = entries@;
        entries.remove(0);
        proof {
            assert(entries@ =~= pre.subrange(1, pre.len() as int));
        }
    }
}

/// Index of the first request bucket of a model, if any.
fn find_request_bucket(ws: &Vec<RequestWindow>, model: &String) -> (r: Option<usize>)
    ensures
        match r {
            Some(i) => {
                &&& i < ws@.len()
                &&& ws@[i as int].model@ == model@
                &&& forall|j: int| 0 <= j < i ==> #[trigger] ws@[j].model@ != model@
            },
            None => forall|j: int| 0 <= j < ws@.len() ==> #[trigger] ws@[j].model@ != model@,
        },
{
    let n = ws.len();
    let mut i: usize = 0;
    while i < n
        invariant
            0 <= i <= n,
            n == ws@.len(),
            forall|j: int| 0 <= j < i ==> #[trigger] ws@[j].model@ != model@,
        decreases n - i,
    {
        if ws[i].model.eq(model) {
            return Some(i);
        }
        i += 1;
    }
    None
}

/// Index of the first token bucket of a model, if any.
fn find_token_bucket(ws: &Vec<TokenWindow>, model: &String) -> (r: Option<usize>)
    ensures
        match r {
            Some(i) => {
                &&& i < ws@.len()
                &&& ws@[i as int].model@ == model@
                &&& forall|j: int| 0 <= j < i ==> #[trigger] ws@[j].model@ != model@
            },
            None => forall|j: int| 0 <= j < ws@.len() ==> #[trigger] ws@[j].model@ != model@,
        },
{
    let n = ws.len();
    let mut i: usize = 0;
    while i < n
        invariant
            0 <= i <= n,
            n == ws@.len(),
            forall|j: int| 0 <= j < i ==> #[trigger] ws@[j].model@ != model@,
        decreases n - i,
    {
        if ws[i].model.eq(model) {
            return Some(i);
        }
        i += 1;
    }
    None
}

/// The quota governor. One instance is shared (behind the shell's lock) by
/// every worker in a process, because provider quotas are account-wide.
pub struct QuotaMonitor {
    config: QuotaConfig,
    request_windows: Vec<RequestWindow>,
    token_windows: Vec<TokenWindow>,
    last_rpm_warn: Vec<WarnStamp>,
    last_token_warn: Vec<WarnStamp>,
    uploaded_bytes: u64,
    active_uploads: u32,
}

impl QuotaMonitor {
    pub closed spec fn spec_config(&self) -> QuotaConfig {
        self.config
    }

    /// The request window the monitor currently holds for a bucket.
    pub closed spec fn requests_of(&self, model: Seq<char>) -> Seq<u64> {
        spec_req_window(self.request_windows@, model)
    }

    /// The token window the monitor currently holds for a bucket.
    pub closed spec fn tokens_of(&self, model: Seq<char>) -> Seq<TokenStamp> {
        spec_token_window(self.token_windows@, model)
    }

    /// When the bucket's request-rate warning last fired.
    pub closed spec fn rpm_warn_of(&self, model: Seq<char>) -> Option<u64> {
        spec_warn_stamp(self.last_rpm_warn@, model)
    }

    /// When the bucket's token-usage warning last fired.
    pub closed spec fn token_warn_of(&self, model: Seq<char>) -> Option<u64> {
        spec_warn_stamp(self.last_token_warn@, model)
    }

    pub closed spec fn spec_uploaded_bytes(&self) -> u64 {
        self.uploaded_bytes
    }

    pub closed spec fn spec_active_uploads(&self) -> u32 {
        self.active_uploads
    }

    pub fn new(config: QuotaConfig) -> (m: QuotaMonitor)
        ensures
            m.spec_config() == config,
            forall|b: Seq<char>| #[trigger] m.requests_of(b) == Seq::<u64>::empty(),
            forall|b: Seq<char>| #[trigger] m.tokens_of(b) == Seq::<TokenStamp>::empty(),
            forall|b: Seq<char>| #[trigger] m.rpm_warn_of(b) is None,
            forall|b: Seq<char>| #[trigger] m.token_warn_of(b) is None,
            m.spec_uploaded_bytes() == 0,
            m.spec_active_uploads() == 0,
    {
        QuotaMonitor {
            config,
            request_windows: Vec::new(),
            token_windows: Vec::new(),
            last_rpm_warn: Vec::new(),
            last_token_warn: Vec::new(),
            uploaded_bytes: 0,
            active_uploads: 0,
        }
    }

    pub fn config(&self) -> (c: &QuotaConfig)
        ensures
            *c == self.spec_config(),
    {
        &self.config
    }

    pub fn uploaded_bytes(&self) -> (b: u64)
        ensures
            b == self.spec_uploaded_bytes(),
    {
        self.uploaded_bytes
    }

    pub fn active_uploads(&self) -> (n: u32)
        ensures
            n == self.spec_active_uploads(),
    {
        self.active_uploads
    }

    /// Record one outbound request against a bucket at clock reading
    /// `now_ms`: whether the caller should sleep before sending, and
    /// whether the utilization warning fires now.
    ///
    /// A bucket with no configured positive requests-per-window limit is
    /// unbounded: nothing is recorded and nothing is advised. Otherwise the
    /// reading joins the bucket's window, stale entries are trimmed; at the
    /// warn threshold the warning fires at most once per cooldown, and at
    /// the sleep threshold the monitor recommends one request's share of
    /// the window, capped at the configured maximum.
    pub fn register_request(&mut self, model: &str, now_ms: u64) -> (advice: ThrottleAdvice)
        ensures
            final(self).spec_config() == old(self).spec_config(),
            final(self).spec_uploaded_bytes() == old(self).spec_uploaded_bytes(),
            final(self).spec_active_uploads() == old(self).spec_active_uploads(),
            forall|b: Seq<char>| #[trigger] final(self).tokens_of(b) == old(self).tokens_of(b),
            forall|b: Seq<char>| #[trigger] final(self).token_warn_of(b) == old(
                self,
            ).token_warn_of(b),
            ({
                let limit = spec_limit_of(old(self).spec_config().request_limits@, model@);
                if limit is None || limit->0 == 0 {
                    &&& advice == (ThrottleAdvice { sleep_ms: None, warn: false })
                    &&& forall|b: Seq<char>| #[trigger]
                        final(self).requests_of(b) == old(self).requests_of(b)
                    &&& forall|b: Seq<char>| #[trigger]
                        final(self).rpm_warn_of(b) == old(self).rpm_warn_of(b)
                } else {
                    let w = spec_after_request(
                        old(self).requests_of(model@),
                        now_ms,
                        old(self).spec_config().request_window_ms,
                    );
                    let met = w.len() * 100 >= (old(self).spec_config().rpm_warn_percent as int)
                        * (limit->0 as int);
                    &&& final(self).requests_of(model@) == w
                    &&& forall|b: Seq<char>|
                        b != model@ ==> #[trigger] final(self).requests_of(b) == old(
                            self,
                        ).requests_of(b)
                    &&& advice.sleep_ms == spec_sleep_for(
                        w.len() as int,
                        limit->0,
                        old(self).spec_config(),
                    )
                    &&& advice.warn == spec_should_warn(
                        met,
                        old(self).rpm_warn_of(model@),
                        now_ms,
                        old(self).spec_config().warn_cooldown_ms,
                    )
                    &&& final(self).rpm_warn_of(model@) == if advice.warn {
                        Some(now_ms)
                    } else {
                        old(self).rpm_warn_of(model@)
                    }
                    &&& forall|b: Seq<char>|
                        b != model@ ==> #[trigger] final(self).rpm_warn_of(b) == old(
                            self,
                        ).rpm_warn_of(b)
                }
            }),
    {
        let owned = String::from_str(model);
        let configured = limit_for(&self.config.request_limits, &owned);
        let per_window: u32;
        match configured {
            Some(v) => {
                if v > 0 {
                    per_window = v;
                } else {
                    return ThrottleAdvice { sleep_ms: None, warn: false };
                }
            },
            None => {
                return ThrottleAdvice { sleep_ms: None, warn: false };
            },
        }
        let window_ms = self.config.request_window_ms;
        let found = find_request_bucket(&self.request_windows, &owned);
        let bucket_idx: usize;
        match found {
            Some(idx) => {
                bucket_idx = idx;
                let ghost ws0 = self.request_windows@;
                self.request_windows[idx].stamps.push(now_ms);
                let ghost ws1 = self.request_windows@;
                evict_stamps(&mut self.request_windows[idx].stamps, now_ms, window_ms);
                let ghost ws2 = self.request_windows@;
                proof {
                    let b1 = ws1[idx as int];
                    let b2 = ws2[idx as int];
                    assert(ws1 =~= ws0.update(idx as int, b1));
                    assert(ws2 =~= ws0.update(idx as int, b2));
                    lemma_req_lookup_update(ws0, idx as int, b1);
                    lemma_req_lookup_update(ws0, idx as int, b2);
                    assert(b2.stamps@ == spec_after_request(
                        ws0[idx as int].stamps@,
                        now_ms,
                        window_ms,
                    ));
                }
            },
            None => {
                bucket_idx = self.request_windows.len();
                let mut stamps: Vec<u64> = Vec::new();
                stamps.push(now_ms);
                let bucket = RequestWindow { model: owned.clone(), stamps };
                let ghost ws0 = self.request_windows@;
                self.request_windows.push(bucket);
                proof {
                    let b = self.request_windows@[ws0.len() as int];
                    lemma_req_lookup_push(ws0, b);
                    assert(spec_evict(Seq::<u64>::empty().push(now_ms), now_ms, window_ms)
                        =~= Seq::<u64>::empty().push(now_ms));
                }
            },
        }
        let len = self.request_windows[bucket_idx].stamps.len();
        proof {
            vstd::arithmetic::mul::lemma_mul_upper_bound(
                self.config.rpm_sleep_percent as int,
                u32::MAX as int,
                per_window as int,
                u32::MAX as int,
            );
            vstd::arithmetic::mul::lemma_mul_upper_bound(
                self.config.rpm_warn_percent as int,
                u32::MAX as int,
                per_window as int,
                u32::MAX as int,
            );
            vstd::arithmetic::mul::lemma_mul_upper_bound(
                len as int,
                usize::MAX as int,
                100,
                100,
            );
        }
        let met = (len as u128) * 100 >= (self.config.rpm_warn_percent as u128) * (
        per_window as u128);
        let warn = update_warn(
            &mut self.last_rpm_warn,
            &owned,
            met,
            now_ms,
            self.config.warn_cooldown_ms,
        );
        let mut sleep_ms: Option<u64> = None;
        if (len as u128) * 100 >= (self.config.rpm_sleep_percent as u128) * (per_window as u128) {
            let per_request = window_ms / (per_window as u64);
            let sleep = if self.config.max_preemptive_sleep_ms <= per_request {
                self.config.max_preemptive_sleep_ms
            } else {
                per_request
            };
            if sleep > 0 {
                sleep_ms = Some(sleep);
            }
        }
        ThrottleAdvice { sleep_ms, warn }
    }

    /// Accrue a completed response's token usage against a bucket, and say
    /// whether the token-usage warning fires now. Unknown usage and
    /// unbounded buckets record nothing; token overage never blocks, it is
    /// only visible after the fact.
    pub fn register_tokens(&mut self, model: &str, total_tokens: Option<u32>, now_ms: u64) -> (
        warn: bool)
        ensures
            final(self).spec_config() == old(self).spec_config(),
            final(self).spec_uploaded_bytes() == old(self).spec_uploaded_bytes(),
            final(self).spec_active_uploads() == old(self).spec_active_uploads(),
            forall|b: Seq<char>| #[trigger] final(self).requests_of(b) == old(self).requests_of(b),
            forall|b: Seq<char>| #[trigger] final(self).rpm_warn_of(b) == old(self).rpm_warn_of(b),
            ({
                let limit = spec_limit_of(old(self).spec_config().token_limits@, model@);
                if total_tokens is None || limit is None || limit->0 == 0 {
                    &&& !warn
                    &&& forall|b: Seq<char>| #[trigger]
                        final(self).tokens_of(b) == old(self).tokens_of(b)
                    &&& forall|b: Seq<char>| #[trigger]
                        final(self).token_warn_of(b) == old(self).token_warn_of(b)
                } else {
                    let w = spec_after_tokens(
                        old(self).tokens_of(model@),
                        now_ms,
                        total_tokens->0,
                        old(self).spec_config().request_window_ms,
                    );
                    let met = spec_token_sum(w) * 100 >= (old(
                        self,
                    ).spec_config().token_warn_percent as int) * (limit->0 as int);
                    &&& final(self).tokens_of(model@) == w
                    &&& forall|b: Seq<char>|
                        b != model@ ==> #[trigger] final(self).tokens_of(b) == old(self).tokens_of(
                            b,
                        )
                    &&& warn == spec_should_warn(
                        met,
                        old(self).token_warn_of(model@),
                        now_ms,
                        old(self).spec_config().warn_cooldown_ms,
                    )
                    &&& final(self).token_warn_of(model@) == if warn {
                        Some(now_ms)
                    } else {
                        old(self).token_warn_of(model@)
                    }
                    &&& forall|b: Seq<char>|
                        b != model@ ==> #[trigger] final(self).token_warn_of(b) == old(
                            self,
                        ).token_warn_of(b)
                }
            }),
    {
        let tokens = match total_tokens {
            Some(t) => t,
            None => {
                return false;
            },
        };
        let owned = String::from_str(model);
        let configured = limit_for(&self.config.token_limits, &owned);
        let per_window: u32;
        match configured {
            Some(v) => {
                if v > 0 {
                    per_window = v;
                } else {
                    return false;
                }
            },
            None => {
                return false;
            },
        }
        let window_ms = self.config.request_window_ms;
        let bucket_idx: usize;
        match find_token_bucket(&self.token_windows, &owned) {
            Some(idx) => {
                bucket_idx = idx;
                let ghost ws0 = self.token_windows@;
                self.token_windows[idx].entries.push(TokenStamp { at_ms: now_ms, tokens });
                let ghost ws1 = self.token_windows@;
                evict_token_stamps(&mut self.token_windows[idx].entries, now_ms, window_ms);
                let ghost ws2 = self.token_windows@;
                proof {
                    let b1 = ws1[idx as int];
                    let b2 = ws2[idx as int];
                    assert(ws1 =~= ws0.update(idx as int, b1));
                    assert(ws2 =~= ws0.update(idx as int, b2));
                    lemma_token_lookup_update(ws0, idx as int, b1);
                    lemma_token_lookup_update(ws0, idx as int, b2);
                }
            },
            None => {
                bucket_idx = self.token_windows.len();
                let mut entries: Vec<TokenStamp> = Vec::new();
                entries.push(TokenStamp { at_ms: now_ms, tokens });
                let bucket = TokenWindow { model: owned.clone(), entries };
                let ghost ws0 = self.token_windows@;
                self.token_windows.push(bucket);
                proof {
                    let b = self.token_windows@[ws0.len() as int];
                    lemma_token_lookup_push(ws0, b);
                    assert(spec_evict_tokens(
                        Seq::<TokenStamp>::empty().push(TokenStamp { at_ms: now_ms, tokens }),
                        now_ms,
                        window_ms,
                    ) =~= Seq::<TokenStamp>::empty().push(TokenStamp { at_ms: now_ms, tokens }));
                }
            },
        }
        let used = window_token_sum(&self.token_windows[bucket_idx].entries);
        let wlen = self.token_windows[bucket_idx].entries.len();
        proof {
            lemma_token_sum_bound(self.token_windows@[bucket_idx as int].entries@);
            vstd::arithmetic::mul::lemma_mul_upper_bound(
                self.config.token_warn_percent as int,
                u32::MAX as int,
                per_window as int,
                u32::MAX as int,
            );
            vstd::arithmetic::mul::lemma_mul_upper_bound(
                wlen as int,
                usize::MAX as int,
                u32::MAX as int,
                u32::MAX as int,
            );
            assert((usize::MAX as int) * (u32::MAX as int) * 100 < u128::MAX as int);
            vstd::arithmetic::mul::lemma_mul_upper_bound(
                used as int,
                (usize::MAX as int) * (u32::MAX as int),
                100,
                100,
            );
        }
        let met = used * 100 >= (self.config.token_warn_percent as u128) * (per_window as u128);
        update_warn(
            &mut self.last_token_warn,
            &owned,
            met,
            now_ms,
            self.config.warn_cooldown_ms,
        )
    }

    /// Admit one upload or reject it outright. A file above the per-file
    /// ceiling is a hard error and leaves every counter untouched; an
    /// admitted upload raises the cumulative byte and concurrency counters
    /// (saturating at their type bounds) and says which warning thresholds
    /// the new counters cross — crossing them never blocks.
    pub fn track_upload(&mut self, size_bytes: u64) -> (r: Result<UploadAdmission, UploadTooLarge>)
        ensures
            final(self).spec_config() == old(self).spec_config(),
            forall|b: Seq<char>| #[trigger] final(self).requests_of(b) == old(self).requests_of(b),
            forall|b: Seq<char>| #[trigger] final(self).tokens_of(b) == old(self).tokens_of(b),
            forall|b: Seq<char>| #[trigger] final(self).rpm_warn_of(b) == old(self).rpm_warn_of(b),
            forall|b: Seq<char>| #[trigger] final(self).token_warn_of(b) == old(
                self,
            ).token_warn_of(b),
            r is Err <==> size_bytes > old(self).spec_config().upload_limit_bytes,
            r is Err ==> {
                &&& r->Err_0 == (UploadTooLarge {
                    size_bytes,
                    limit_bytes: old(self).spec_config().upload_limit_bytes,
                })
                &&& final(self).spec_uploaded_bytes() == old(self).spec_uploaded_bytes()
                &&& final(self).spec_active_uploads() == old(self).spec_active_uploads()
            },
            r is Ok ==> {
                &&& final(self).spec_uploaded_bytes() == if old(self).spec_uploaded_bytes()
                    + size_bytes <= u64::MAX {
                    old(self).spec_uploaded_bytes() + size_bytes
                } else {
                    u64::MAX as int
                }
                &&& final(self).spec_active_uploads() == if old(self).spec_active_uploads() + 1
                    <= u32::MAX {
                    old(self).spec_active_uploads() + 1
                } else {
                    u32::MAX as int
                }
                &&& r->Ok_0.storage_warn == ((final(self).spec_uploaded_bytes() as int) * 100 >= (
                old(self).spec_config().token_warn_percent as int) * (old(
                    self,
                ).spec_config().storage_limit_bytes as int))
                &&& r->Ok_0.concurrency_warn == ((final(self).spec_active_uploads() as int) * 100
                    >= (old(self).spec_config().token_warn_percent as int) * (old(
                    self,
                ).spec_config().concurrency_limit as int))
            },
    {
        if size_bytes > self.config.upload_limit_bytes {
            return Err(
                UploadTooLarge { size_bytes, limit_bytes: self.config.upload_limit_bytes },
            );
        }
        self.uploaded_bytes = if self.uploaded_bytes <= u64::MAX - size_bytes {
            self.uploaded_bytes + size_bytes
        } else {
            u64::MAX
        };
        self.active_uploads = if self.active_uploads < u32::MAX {
            self.active_uploads + 1
        } else {
            u32::MAX
        };
        proof {
            vstd::arithmetic::mul::lemma_mul_upper_bound(
                self.config.token_warn_percent as int,
                u32::MAX as int,
                self.config.storage_limit_bytes as int,
                u64::MAX as int,
            );
            vstd::arithmetic::mul::lemma_mul_upper_bound(
                self.config.token_warn_percent as int,
                u32::MAX as int,
                self.config.concurrency_limit as int,
                u32::MAX as int,
            );
        }
        let storage_warn = (self.uploaded_bytes as u128) * 100 >= (
        self.config.token_warn_percent as u128) * (self.config.storage_limit_bytes as u128);
        let concurrency_warn = (self.active_uploads as u128) * 100 >= (
        self.config.token_warn_percent as u128) * (self.config.concurrency_limit as u128);
        Ok(UploadAdmission { storage_warn, concurrency_warn })
    }

    /// Release one finished upload: both counters fall back, saturating at
    /// zero so a stray double release cannot underflow.
    pub fn finish_upload(&mut self, size_bytes: u64)
        ensures
            final(self).spec_config() == old(self).spec_config(),
            forall|b: Seq<char>| #[trigger] final(self).requests_of(b) == old(self).requests_of(b),
            forall|b: Seq<char>| #[trigger] final(self).tokens_of(b) == old(self).tokens_of(b),
            forall|b: Seq<char>| #[trigger] final(self).rpm_warn_of(b) == old(self).rpm_warn_of(b),
            forall|b: Seq<char>| #[trigger] final(self).token_warn_of(b) == old(
                self,
            ).token_warn_of(b),
            final(self).spec_uploaded_bytes() == if old(self).spec_uploaded_bytes() >= size_bytes {
                old(self).spec_uploaded_bytes() - size_bytes
            } else {
                0
            },
            final(self).spec_active_uploads() == if old(self).spec_active_uploads() >= 1 {
                old(self).spec_active_uploads() - 1
            } else {
                0
            },
    {
        self.uploaded_bytes = if self.uploaded_bytes >= size_bytes {
            self.uploaded_bytes - size_bytes
        } else {
            0
        };
        self.active_uploads = if self.active_uploads >= 1 {
            self.active_uploads - 1
        } else {
            0
        };
    }
}

} // verus!
