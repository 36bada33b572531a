//! Output stream configuration and the attempt plan used to open it.
//!
//! A controller can appear under several device aliases with very
//! different buffer constraints, and advertised ranges can lie: the stream
//! is built by successive attempts. For each channel count, three tiers —
//! every (device, rate) candidate at the **requested buffer size** first
//! (latency before rate preference), then the requested size clamped to the
//! advertised range when it differs, then the device's default size.

use vstd::prelude::*;

use super::{PREFERRED_SAMPLE_RATE, TARGET_BUFFER_FRAMES};
use crate::mapping::{contains_text, text_contains};

verus! {

/// Sample rates attempted on each device, in preference order: the
/// preferred internal rate, then 44.1 kHz for natively 44.1 kHz devices.
pub const RATE_CANDIDATES: [u32; 2] = [PREFERRED_SAMPLE_RATE, 44_100];

/// Output stream settings.
#[derive(Debug, Clone)]
pub struct EngineConfig {
    /// Case-insensitive substring searched in output device names. `None`
    /// → automatic controller detection, then the default device.
    pub device_match: Option<String>,
    /// Requested buffer size in frames, clamped to the retained
    /// configuration's range.
    pub buffer_frames: u32,
    /// Forces a single sample rate instead of the preference order.
    pub sample_rate: Option<u32>,
}

impl Default for EngineConfig {
    fn default() -> (r: Self)
        ensures
            r.device_match is None,
            r.buffer_frames == TARGET_BUFFER_FRAMES,
            r.sample_rate is None,
    {
        EngineConfig { device_match: None, buffer_frames: TARGET_BUFFER_FRAMES, sample_rate: None }
    }
}

/// The stream that was opened.
#[derive(Debug, Clone)]
pub struct StreamInfo {
    pub device_name: String,
    pub sample_rate: u32,
    /// 2 = master only; 4 = master (1/2) + headphones (3/4).
    pub channels: u16,
    /// Effective buffer size in frames, when the backend reports it.
    pub buffer_frames: Option<u32>,
}

impl StreamInfo {
    /// Headphone pre-listen available (4-channel stream opened).
    pub fn headphone_active(&self) -> (r: bool)
        ensures
            r == (self.channels >= 4),
    {
        self.channels >= 4
    }
}

/// Failure to start the audio engine.
#[derive(Debug)]
pub enum EngineError {
    NoDevice,
    DeviceNotFound(String),
    BuildStream(String),
    PlayStream(String),
    Thread(String),
}

/// Buffer size asked of the backend.
#[derive(Debug, Clone, Copy, PartialEq, Eq, Structural)]
pub enum BufferRequest {
    Fixed(u32),
    Default,
}

/// One stream build attempt.
#[derive(Debug, Clone, Copy, PartialEq, Eq, Structural)]
pub struct Attempt {
    pub channels: u16,
    pub rate: u32,
    pub buffer: BufferRequest,
}

/// (device index, sample rate, advertised buffer range) candidate.
pub type RateCandidate = (usize, u32, Option<(u32, u32)>);

/// `requested` clamped to `[min, max]`.
pub open spec fn clamped(requested: u32, min: u32, max: u32) -> u32 {
    if requested < min {
        min
    } else if requested > max {
        max
    } else {
        requested
    }
}

/// Tier 1: every candidate at the requested size, in candidate order.
pub open spec fn requested_tier(s: Seq<RateCandidate>, channels: u16, requested: u32, k: int) -> Seq<(usize, Attempt)>
    decreases k,
{
    if k <= 0 {
        Seq::empty()
    } else {
        requested_tier(s, channels, requested, k - 1).push(
            (s[k - 1].0, Attempt { channels, rate: s[k - 1].1, buffer: BufferRequest::Fixed(requested) }),
        )
    }
}

/// Tier 2: candidates whose advertised range excludes the requested size,
/// at the clamped size.
pub open spec fn clamped_tier(s: Seq<RateCandidate>, channels: u16, requested: u32, k: int) -> Seq<(usize, Attempt)>
    decreases k,
{
    if k <= 0 {
        Seq::empty()
    } else {
        let prev = clamped_tier(s, channels, requested, k - 1);
        match s[k - 1].2 {
            Some((min, max)) => if clamped(requested, min, max) != requested {
                prev.push(
                    (
                        s[k - 1].0,
                        Attempt {
                            channels,
                            rate: s[k - 1].1,
                            buffer: BufferRequest::Fixed(clamped(requested, min, max)),
                        },
                    ),
                )
            } else {
                prev
            },
            None => prev,
        }
    }
}

/// Tier 3: every candidate at the device's default size.
pub open spec fn default_tier(s: Seq<RateCandidate>, channels: u16, k: int) -> Seq<(usize, Attempt)>
    decreases k,
{
    if k <= 0 {
        Seq::empty()
    } else {
        default_tier(s, channels, k - 1).push(
            (s[k - 1].0, Attempt { channels, rate: s[k - 1].1, buffer: BufferRequest::Default }),
        )
    }
}

/// The attempt plan for one channel count.
pub open spec fn spec_plan(s: Seq<RateCandidate>, channels: u16, requested: u32) -> Seq<(usize, Attempt)> {
    requested_tier(s, channels, requested, s.len() as int) + clamped_tier(
        s,
        channels,
        requested,
        s.len() as int,
    ) + default_tier(s, channels, s.len() as int)
}

/// Advertised ranges are well formed (`min <= max`).
pub open spec fn ranges_ordered(s: Seq<RateCandidate>) -> bool {
    forall|i: int| 0 <= i < s.len() ==> ((#[trigger] s[i]).2 matches Some((min, max)) ==> min <= max)
}

/// The three buffer tiers for one channel count, over candidates already
/// in rate-preference order.
pub fn plan_for_channels(supported: &[RateCandidate], channels: u16, requested: u32) -> (r: Vec<(usize, Attempt)>)
    requires
        ranges_ordered(supported@),
    ensures
        r@ == spec_plan(supported@, channels, requested),
{
    let ghost s = supported@;
    let n = supported.len();
    let mut plan: Vec<(usize, Attempt)> = Vec::new();
    let mut i: usize = 0;
    while i < n
        invariant
            n == s.len(),
            s == supported@,
            i <= n,
            plan@ == requested_tier(s, channels, requested, i as int),
        decreases n - i,
    {
        let (idx, rate, _) = supported[i];
        plan.push((idx, Attempt { channels, rate, buffer: BufferRequest::Fixed(requested) }));
        i += 1;
    }
    let ghost tier1 = plan@;
    let mut i: usize = 0;
    while i < n
        invariant
            n == s.len(),
            s == supported@,
            ranges_ordered(s),
            i <= n,
            plan@ == tier1 + clamped_tier(s, channels, requested, i as int),
        decreases n - i,
    {
        let (idx, rate, range) = supported[i];
        if let Some((min, max)) = range {
            assert(min <= max);
            let clamp = if requested < min {
                min
            } else if requested > max {
                max
            } else {
                requested
            };
            if clamp != requested {
                plan.push((idx, Attempt { channels, rate, buffer: BufferRequest::Fixed(clamp) }));
            }
        }
        i += 1;
    }
    let ghost tier2 = plan@;
    let mut i: usize = 0;
    while i < n
        invariant
            n == s.len(),
            s == supported@,
            i <= n,
            plan@ == tier2 + default_tier(s, channels, i as int),
        decreases n - i,
    {
        let (idx, rate, _) = supported[i];
        plan.push((idx, Attempt { channels, rate, buffer: BufferRequest::Default }));
        i += 1;
    }
    plan
}

proof fn lemma_requested_tier(s: Seq<RateCandidate>, channels: u16, requested: u32, k: int)
    requires
        0 <= k <= s.len(),
    ensures
        requested_tier(s, channels, requested, k).len() == k,
        forall|i: int|
            0 <= i < k ==> #[trigger] requested_tier(s, channels, requested, k)[i] == (
                s[i].0,
                Attempt { channels, rate: s[i].1, buffer: BufferRequest::Fixed(requested) },
            ),
    decreases k,
{
    if k > 0 {
        lemma_requested_tier(s, channels, requested, k - 1);
    }
}

proof fn lemma_default_tier(s: Seq<RateCandidate>, channels: u16, k: int)
    requires
        0 <= k <= s.len(),
    ensures
        default_tier(s, channels, k).len() == k,
        forall|i: int|
            0 <= i < k ==> #[trigger] default_tier(s, channels, k)[i] == (
                s[i].0,
                Attempt { channels, rate: s[i].1, buffer: BufferRequest::Default },
            ),
    decreases k,
{
    if k > 0 {
        lemma_default_tier(s, channels, k - 1);
    }
}

proof fn lemma_clamped_tier(s: Seq<RateCandidate>, channels: u16, requested: u32, k: int)
    requires
        0 <= k <= s.len(),
    ensures
        clamped_tier(s, channels, requested, k).len() <= k,
        forall|i: int|
            0 <= i < clamped_tier(s, channels, requested, k).len() ==> ((#[trigger] clamped_tier(
                s,
                channels,
                requested,
                k,
            )[i]).1.buffer matches BufferRequest::Fixed(size) && size != requested),
        forall|i: int|
            0 <= i < clamped_tier(s, channels, requested, k).len() ==> (#[trigger] clamped_tier(
                s,
                channels,
                requested,
                k,
            )[i]).1.channels == channels,
    decreases k,
{
    if k > 0 {
        lemma_clamped_tier(s, channels, requested, k - 1);
    }
}

/// Every attempt of a channel count's plan is at that channel count.
proof fn lemma_plan_channels(s: Seq<RateCandidate>, channels: u16, requested: u32)
    ensures
        forall|i: int|
            0 <= i < spec_plan(s, channels, requested).len() ==> (#[trigger] spec_plan(s, channels, requested)[i]).1.channels
                == channels,
{
    let n = s.len() as int;
    lemma_requested_tier(s, channels, requested, n);
    lemma_clamped_tier(s, channels, requested, n);
    lemma_default_tier(s, channels, n);
    let t1 = requested_tier(s, channels, requested, n);
    let t2 = clamped_tier(s, channels, requested, n);
    let t3 = default_tier(s, channels, n);
    let plan = spec_plan(s, channels, requested);
    assert(plan == t1 + t2 + t3);
    assert forall|i: int| 0 <= i < plan.len() implies (#[trigger] plan[i]).1.channels == channels by {
        if i < n {
            assert(plan[i] == t1[i]);
        } else if i < n + t2.len() {
            assert(plan[i] == t2[i - n]);
        } else {
            assert(plan[i] == t3[i - n - t2.len()]);
        }
    }
}

/// Every attempt over the first `k` channel counts is at one of them.
proof fn lemma_attempt_plan_channels(
    support: Seq<Vec<Vec<Support>>>,
    channels: Seq<u16>,
    rates: Seq<u32>,
    requested: u32,
    k: int,
)
    requires
        0 <= k <= channels.len(),
    ensures
        forall|i: int|
            0 <= i < spec_attempt_plan(support, channels, rates, requested, k).len() ==> exists|c: int|
                0 <= c < k && (#[trigger] spec_attempt_plan(support, channels, rates, requested, k)[i]).1.channels
                    == channels[c],
    decreases k,
{
    if k > 0 {
        lemma_attempt_plan_channels(support, channels, rates, requested, k - 1);
        let prev = spec_attempt_plan(support, channels, rates, requested, k - 1);
        let tiers = spec_plan(
            table_candidates(support[k - 1]@, rates, rates.len() as int),
            channels[k - 1],
            requested,
        );
        lemma_plan_channels(table_candidates(support[k - 1]@, rates, rates.len() as int), channels[k - 1], requested);
        let plan = spec_attempt_plan(support, channels, rates, requested, k);
        assert(plan == prev + tiers);
        assert forall|i: int| 0 <= i < plan.len() implies exists|c: int|
            0 <= c < k && (#[trigger] plan[i]).1.channels == channels[c] by {
            if i < prev.len() {
                assert(plan[i] == prev[i]);
                let c = choose|c: int| 0 <= c < k - 1 && prev[i].1.channels == channels[c];
                assert(0 <= c < k && plan[i].1.channels == channels[c]);
            } else {
                assert(plan[i] == tiers[i - prev.len()]);
                assert(plan[i].1.channels == channels[k - 1]);
            }
        }
    }
}

/// Latency first: the plan starts with every candidate at the requested
/// size, in candidate order, and ends with every candidate at the default
/// size; in between, only sizes other than the requested one. So no
/// fallback attempt precedes a requested-size attempt.
pub proof fn lemma_plan_tiers(s: Seq<RateCandidate>, channels: u16, requested: u32)
    ensures
        ({
            let plan = spec_plan(s, channels, requested);
            let n = s.len() as int;
            &&& n + n <= plan.len() <= 3 * n
            &&& forall|i: int|
                0 <= i < n ==> plan[i] == (
                    s[i].0,
                    Attempt { channels, rate: s[i].1, buffer: BufferRequest::Fixed(requested) },
                )
            &&& forall|i: int|
                0 <= i < n ==> plan[plan.len() - n + i] == (
                    s[i].0,
                    Attempt { channels, rate: s[i].1, buffer: BufferRequest::Default },
                )
            &&& forall|i: int, j: int|
                0 <= i < j < plan.len() && plan[j].1.buffer == BufferRequest::Fixed(requested)
                    ==> plan[i].1.buffer == BufferRequest::Fixed(requested)
            &&& forall|i: int, j: int|
                0 <= i < j < plan.len() && plan[i].1.buffer == BufferRequest::Default
                    ==> plan[j].1.buffer == BufferRequest::Default
        }),
{
    let n = s.len() as int;
    lemma_requested_tier(s, channels, requested, n);
    lemma_clamped_tier(s, channels, requested, n);
    lemma_default_tier(s, channels, n);
    let t1 = requested_tier(s, channels, requested, n);
    let t2 = clamped_tier(s, channels, requested, n);
    let t3 = default_tier(s, channels, n);
    let plan = spec_plan(s, channels, requested);
    assert(plan == t1 + t2 + t3);
    assert forall|i: int| 0 <= i < plan.len() implies (plan[i].1.buffer == BufferRequest::Fixed(
        requested,
    ) <==> i < n) && (plan[i].1.buffer == BufferRequest::Default <==> i >= plan.len() - n) by {
        if i < n {
            assert(plan[i] == t1[i]);
        } else if i < n + t2.len() {
            assert(plan[i] == t2[i - n]);
        } else {
            assert(plan[i] == t3[i - n - t2.len()]);
        }
    }
    assert forall|i: int| 0 <= i < n implies plan[plan.len() - n + i] == (
        s[i].0,
        Attempt { channels, rate: s[i].1, buffer: BufferRequest::Default },
    ) by {
        assert(plan[plan.len() - n + i] == t3[i]);
    }
}

/// Automatic detection: the controller's sound card name contains this.
pub open spec fn auto_detect_name() -> Seq<char> {
    seq!['D', 'J', 'C', 'o', 'n', 't', 'r', 'o', 'l']
}

/// Lowercase form of a string, as `str::to_lowercase` computes it.
pub uninterp spec fn lowercase(s: Seq<char>) -> Seq<char>;

/// `str::to_lowercase`: the lowercase form of `s`.
#[verifier::external_body]
pub(crate) fn to_lowercase(s: &str) -> (r: String)
    ensures
        r@ == lowercase(s@),
{
    s.to_lowercase()
}

/// Whether an output device is a candidate: with an explicit pattern, a
/// case-insensitive substring match; without one, the automatic detection
/// of the controller's card by name.
pub open spec fn spec_device_matches(name: Seq<char>, wanted: Option<Seq<char>>) -> bool {
    match wanted {
        Some(pattern) => contains_text(lowercase(name), lowercase(pattern)),
        None => contains_text(name, auto_detect_name()),
    }
}

/// Whether the output device called `name` is a candidate for `wanted`
/// (see [`spec_device_matches`]).
pub fn device_matches(name: &str, wanted: Option<&str>) -> (r: bool)
    ensures
        r == spec_device_matches(
            name@,
            match wanted {
                Some(p) => Some(p@),
                None => None,
            },
        ),
{
    match wanted {
        Some(pattern) => {
            let lower_name = to_lowercase(name);
            let lower_pattern = to_lowercase(pattern);
            text_contains(lower_name.as_str(), lower_pattern.as_str())
        },
        None => {
            let auto = "DJControl";
            proof {
                reveal_strlit("DJControl");
            }
            assert(auto@ == auto_detect_name());
            text_contains(name, auto)
        },
    }
}


/// `wanted` as a character sequence.
pub open spec fn wanted_view(wanted: Option<&str>) -> Option<Seq<char>> {
    match wanted {
        Some(p) => Some(p@),
        None => None,
    }
}

/// Indices below `k` of the device names that are candidates for `wanted`,
/// in listing order.
pub open spec fn matching_devices(names: Seq<String>, wanted: Option<Seq<char>>, k: int) -> Seq<usize>
    decreases k,
{
    if k <= 0 {
        Seq::empty()
    } else {
        let prev = matching_devices(names, wanted, k - 1);
        if spec_device_matches(names[k - 1]@, wanted) {
            prev.push((k - 1) as usize)
        } else {
            prev
        }
    }
}

/// Output devices retained for the stream.
#[derive(Debug, Clone)]
pub enum DeviceChoice {
    /// Every listed device whose name matched (indices in listing order):
    /// a controller can show up under several aliases with the same name.
    Matched(Vec<usize>),
    /// No name matched and no pattern was given: the system default device.
    SystemDefault,
}

/// Chooses the output devices among the listed `names`: every name match;
/// otherwise an explicit pattern that found nothing is an error, while the
/// automatic detection falls back on the system default device
/// (`has_default` tells whether the system has one).
pub fn choose_devices(names: &[String], wanted: Option<&str>, has_default: bool) -> (r: Result<DeviceChoice, EngineError>)
    ensures
        ({
            let m = matching_devices(names@, wanted_view(wanted), names@.len() as int);
            &&& m.len() > 0 ==> (r matches Ok(DeviceChoice::Matched(v)) && v@ == m)
            &&& m.len() == 0 && wanted is Some ==> (r matches Err(EngineError::DeviceNotFound(p)) && p@
                == wanted->0@)
            &&& m.len() == 0 && wanted is None && has_default ==> (r matches Ok(DeviceChoice::SystemDefault))
            &&& m.len() == 0 && wanted is None && !has_default ==> (r matches Err(EngineError::NoDevice))
        }),
{
    let n = names.len();
    let mut matched: Vec<usize> = Vec::new();
    let mut i: usize = 0;
    while i < n
        invariant
            n == names@.len(),
            i <= n,
            matched@ == matching_devices(names@, wanted_view(wanted), i as int),
        decreases n - i,
    {
        if device_matches(names[i].as_str(), wanted) {
            matched.push(i);
        }
        i += 1;
    }
    if matched.len() > 0 {
        return Ok(DeviceChoice::Matched(matched));
    }
    match wanted {
        Some(pattern) => Err(EngineError::DeviceNotFound(pattern.to_owned())),
        None => if has_default {
            Ok(DeviceChoice::SystemDefault)
        } else {
            Err(EngineError::NoDevice)
        },
    }
}

/// Channel counts attempted: 4 (master + headphones) then 2 on devices
/// matched by name; stereo only on the system default device, so that
/// headphones never go to the surround channels of another card.
pub open spec fn spec_channel_candidates(matched_by_name: bool) -> Seq<u16> {
    if matched_by_name {
        seq![4u16, 2u16]
    } else {
        seq![2u16]
    }
}

/// Channel counts attempted (see [`spec_channel_candidates`]).
pub fn channel_candidates(matched_by_name: bool) -> (r: Vec<u16>)
    ensures
        r@ == spec_channel_candidates(matched_by_name),
{
    if matched_by_name {
        vec![4, 2]
    } else {
        vec![2]
    }
}

/// What a device advertises for an f32 configuration at some channel count
/// and rate: `None` = not supported; `Some(range)` = supported, with its
/// buffer range when known.
pub type Support = Option<Option<(u32, u32)>>;

/// Candidates of one rate: the devices below `k` that support it, in
/// device order.
pub open spec fn row_candidates(row: Seq<Support>, rate: u32, k: int) -> Seq<RateCandidate>
    decreases k,
{
    if k <= 0 {
        Seq::empty()
    } else {
        let prev = row_candidates(row, rate, k - 1);
        match row[k - 1] {
            Some(range) => prev.push(((k - 1) as usize, rate, range)),
            None => prev,
        }
    }
}

/// Candidates of one channel count over the first `k` rates: rate by rate
/// in preference order, device by device within a rate. `table[r][d]` is
/// what device `d` supports at `rates[r]`.
pub open spec fn table_candidates(table: Seq<Vec<Support>>, rates: Seq<u32>, k: int) -> Seq<RateCandidate>
    decreases k,
{
    if k <= 0 {
        Seq::empty()
    } else {
        table_candidates(table, rates, k - 1) + row_candidates(
            table[k - 1]@,
            rates[k - 1],
            table[k - 1]@.len() as int,
        )
    }
}

/// Plan over the first `k` channel counts: each count's three tiers, in
/// channel-count order. `support[c]` is the table of `channels[c]`.
pub open spec fn spec_attempt_plan(
    support: Seq<Vec<Vec<Support>>>,
    channels: Seq<u16>,
    rates: Seq<u32>,
    requested: u32,
    k: int,
) -> Seq<(usize, Attempt)>
    decreases k,
{
    if k <= 0 {
        Seq::empty()
    } else {
        spec_attempt_plan(support, channels, rates, requested, k - 1) + spec_plan(
            table_candidates(support[k - 1]@, rates, rates.len() as int),
            channels[k - 1],
            requested,
        )
    }
}

/// Advertised buffer ranges of a rate table are well formed.
pub open spec fn table_ordered(table: Seq<Vec<Support>>) -> bool {
    forall|r: int, d: int|
        0 <= r < table.len() && 0 <= d < table[r]@.len() ==> ((#[trigger] table[r]@[d]) matches Some(
            Some((min, max)),
        ) ==> min <= max)
}

/// Advertised buffer ranges of every table are well formed.
pub open spec fn support_ordered(support: Seq<Vec<Vec<Support>>>) -> bool {
    forall|c: int| 0 <= c < support.len() ==> table_ordered(#[trigger] support[c]@)
}

proof fn lemma_row_candidates_ordered(row: Seq<Support>, rate: u32, k: int)
    requires
        0 <= k <= row.len(),
        forall|d: int| 0 <= d < row.len() ==> ((#[trigger] row[d]) matches Some(Some((min, max))) ==> min <= max),
    ensures
        ranges_ordered(row_candidates(row, rate, k)),
    decreases k,
{
    if k > 0 {
        lemma_row_candidates_ordered(row, rate, k - 1);
        let prev = row_candidates(row, rate, k - 1);
        let cur = row_candidates(row, rate, k);
        assert forall|i: int| 0 <= i < cur.len() implies ((#[trigger] cur[i]).2 matches Some((min, max)) ==> min
            <= max) by {
            if i < prev.len() {
                assert(cur[i] == prev[i]);
            }
        }
    }
}

proof fn lemma_table_candidates_ordered(table: Seq<Vec<Support>>, rates: Seq<u32>, k: int)
    requires
        0 <= k <= table.len(),
        table_ordered(table),
    ensures
        ranges_ordered(table_candidates(table, rates, k)),
    decreases k,
{
    if k > 0 {
        lemma_table_candidates_ordered(table, rates, k - 1);
        let row = table[k - 1]@;
        assert forall|d: int| 0 <= d < row.len() implies ((#[trigger] row[d]) matches Some(Some((min, max))) ==> min
            <= max) by {
            assert(row[d] == table[k - 1]@[d]);
        }
        lemma_row_candidates_ordered(row, rates[k - 1], row.len() as int);
        let a = table_candidates(table, rates, k - 1);
        let b = row_candidates(row, rates[k - 1], row.len() as int);
        let cur = table_candidates(table, rates, k);
        assert(cur == a + b);
        assert forall|i: int| 0 <= i < cur.len() implies ((#[trigger] cur[i]).2 matches Some((min, max)) ==> min
            <= max) by {
            if i < a.len() {
                assert(cur[i] == a[i]);
            } else {
                assert(cur[i] == b[i - a.len()]);
            }
        }
    }
}

/// Candidates of one channel count from its rate table (see
/// [`table_candidates`]).
pub fn rate_candidates(table: &[Vec<Support>], rates: &[u32]) -> (r: Vec<RateCandidate>)
    requires
        table@.len() == rates@.len(),
    ensures
        r@ == table_candidates(table@, rates@, rates@.len() as int),
{
    let n = rates.len();
    let mut out: Vec<RateCandidate> = Vec::new();
    let mut r: usize = 0;
    while r < n
        invariant
            n == rates@.len(),
            n == table@.len(),
            r <= n,
            out@ == table_candidates(table@, rates@, r as int),
        decreases n - r,
    {
        let row = &table[r];
        let rate = rates[r];
        let m = row.len();
        let ghost before = out@;
        let mut d: usize = 0;
        while d < m
            invariant
                m == row@.len(),
                row == table@[r as int],
                d <= m,
                out@ == before + row_candidates(row@, rate, d as int),
            decreases m - d,
        {
            if let Some(range) = row[d] {
                out.push((d, rate, range));
            }
            proof {
                assert(before + row_candidates(row@, rate, d + 1) =~= out@);
            }
            d += 1;
        }
        r += 1;
    }
    out
}

/// Ordered attempt plan across every channel count: per count, the three
/// tiers of [`plan_for_channels`] over its candidates. `support[c][r][d]`
/// is what device `d` advertises at `channels[c]` channels and `rates[r]`.
pub fn attempt_plan(support: &[Vec<Vec<Support>>], channels: &[u16], rates: &[u32], requested: u32) -> (r: Vec<(usize, Attempt)>)
    requires
        support@.len() == channels@.len(),
        forall|c: int| 0 <= c < support@.len() ==> (#[trigger] support@[c])@.len() == rates@.len(),
        support_ordered(support@),
    ensures
        r@ == spec_attempt_plan(support@, channels@, rates@, requested, channels@.len() as int),
{
    let n = channels.len();
    let mut plan: Vec<(usize, Attempt)> = Vec::new();
    let mut c: usize = 0;
    while c < n
        invariant
            n == channels@.len(),
            n == support@.len(),
            forall|k: int| 0 <= k < support@.len() ==> (#[trigger] support@[k])@.len() == rates@.len(),
            support_ordered(support@),
            c <= n,
            plan@ == spec_attempt_plan(support@, channels@, rates@, requested, c as int),
        decreases n - c,
    {
        let table = support[c].as_slice();
        assert(table_ordered(support@[c as int]@));
        let candidates = rate_candidates(table, rates);
        proof {
            lemma_table_candidates_ordered(table@, rates@, rates@.len() as int);
        }
        let mut tiers = plan_for_channels(candidates.as_slice(), channels[c], requested);
        plan.append(&mut tiers);
        c += 1;
    }
    plan
}

/// Device an attempt is made on.
#[derive(Debug, Clone, Copy, PartialEq, Eq, Structural)]
pub enum PlanTarget {
    /// A retained device (index into the retained list).
    Retained(usize),
    /// The system default device, as a last stereo fallback.
    SystemDefault,
}

/// Retained-device attempts tagged with their target.
pub open spec fn retained(plan: Seq<(usize, Attempt)>) -> Seq<(PlanTarget, Attempt)> {
    Seq::new(plan.len(), |i: int| (PlanTarget::Retained(plan[i].0), plan[i].1))
}

/// Fallback-device attempts tagged with their target.
pub open spec fn fallback(plan: Seq<(usize, Attempt)>) -> Seq<(PlanTarget, Attempt)> {
    Seq::new(plan.len(), |i: int| (PlanTarget::SystemDefault, plan[i].1))
}

/// The whole plan of the stream: the attempts on the retained devices
/// (their channel counts given by [`spec_channel_candidates`]); after
/// them, when the devices were matched by name and the system default
/// device is another one, stereo attempts on it; and when nothing at all
/// was advertised, one blind stereo attempt at the default buffer size on
/// the first retained device.
pub open spec fn spec_stream_plan(
    support: Seq<Vec<Vec<Support>>>,
    matched_by_name: bool,
    names: Seq<String>,
    fallback_name: Option<Seq<char>>,
    fallback_table: Seq<Vec<Support>>,
    rates: Seq<u32>,
    requested: u32,
) -> Seq<(PlanTarget, Attempt)> {
    let main = retained(
        spec_attempt_plan(
            support,
            spec_channel_candidates(matched_by_name),
            rates,
            requested,
            spec_channel_candidates(matched_by_name).len() as int,
        ),
    );
    let extra = match fallback_name {
        Some(name) => if matched_by_name && forall|i: int| 0 <= i < names.len() ==> (#[trigger] names[i])@ != name {
            fallback(spec_plan(table_candidates(fallback_table, rates, rates.len() as int), 2, requested))
        } else {
            Seq::empty()
        },
        None => Seq::empty(),
    };
    if main.len() + extra.len() == 0 {
        seq![(PlanTarget::Retained(0), Attempt { channels: 2, rate: rates[0], buffer: BufferRequest::Default })]
    } else {
        main + extra
    }
}

/// Builds the whole attempt plan of the stream (see [`spec_stream_plan`]).
/// `support` holds one rate table per channel count of
/// [`channel_candidates`]; `names` are the retained devices' names;
/// `fallback_name` the system default device's name when there is one, and
/// `fallback_table` its stereo rate table (one column).
pub fn stream_plan(
    support: &[Vec<Vec<Support>>],
    matched_by_name: bool,
    names: &[String],
    fallback_name: Option<&String>,
    fallback_table: &[Vec<Support>],
    rates: &[u32],
    requested: u32,
) -> (r: Vec<(PlanTarget, Attempt)>)
    requires
        rates@.len() > 0,
        support@.len() == spec_channel_candidates(matched_by_name).len(),
        forall|c: int| 0 <= c < support@.len() ==> (#[trigger] support@[c])@.len() == rates@.len(),
        support_ordered(support@),
        fallback_table@.len() == rates@.len(),
        table_ordered(fallback_table@),
    ensures
        r@ == spec_stream_plan(
            support@,
            matched_by_name,
            names@,
            match fallback_name {
                Some(n) => Some(n@),
                None => None,
            },
            fallback_table@,
            rates@,
            requested,
        ),
        r@.len() > 0,
{
    let channels = channel_candidates(matched_by_name);
    let main = attempt_plan(support, channels.as_slice(), rates, requested);
    let mut plan: Vec<(PlanTarget, Attempt)> = Vec::new();
    let n = main.len();
    let mut i: usize = 0;
    while i < n
        invariant
            n == main@.len(),
            i <= n,
            plan@ == retained(main@).subrange(0, i as int),
        decreases n - i,
    {
        plan.push((PlanTarget::Retained(main[i].0), main[i].1));
        proof {
            assert(plan@ =~= retained(main@).subrange(0, i + 1));
        }
        i += 1;
    }
    assert(plan@ =~= retained(main@));
    let ghost before = plan@;
    if let Some(name) = fallback_name {
        if matched_by_name {
            let m = names.len();
            let mut listed = false;
            let mut k: usize = 0;
            while k < m
                invariant
                    m == names@.len(),
                    k <= m,
                    listed <==> exists|j: int| 0 <= j < k && (#[trigger] names@[j])@ == name@,
                decreases m - k,
            {
                if names[k] == *name {
                    listed = true;
                }
                k += 1;
            }
            if !listed {
                proof {
                    lemma_table_candidates_ordered(fallback_table@, rates@, rates@.len() as int);
                }
                let candidates = rate_candidates(fallback_table, rates);
                let extra = plan_for_channels(candidates.as_slice(), 2, requested);
                let e = extra.len();
                let mut j: usize = 0;
                while j < e
                    invariant
                        e == extra@.len(),
                        j <= e,
                        plan@ == before + fallback(extra@).subrange(0, j as int),
                    decreases e - j,
                {
                    plan.push((PlanTarget::SystemDefault, extra[j].1));
                    proof {
                        assert(plan@ =~= before + fallback(extra@).subrange(0, j + 1));
                    }
                    j += 1;
                }
                assert(plan@ =~= before + fallback(extra@));
            } else {
                assert(!(forall|j: int| 0 <= j < names@.len() ==> (#[trigger] names@[j])@ != name@));
                assert(plan@ =~= before + Seq::<(PlanTarget, Attempt)>::empty());
            }
        } else {
            assert(plan@ =~= before + Seq::<(PlanTarget, Attempt)>::empty());
        }
    } else {
        assert(plan@ =~= before + Seq::<(PlanTarget, Attempt)>::empty());
    }
    if plan.len() == 0 {
        plan.push((PlanTarget::Retained(0), Attempt { channels: 2, rate: rates[0], buffer: BufferRequest::Default }));
    }
    plan
}


/// Headphones are only ever sent to a device matched by name: every
/// 4-channel attempt of the stream plan targets a retained device that was
/// matched by name; the system default device and the blind attempt are
/// stereo.
pub proof fn lemma_headphones_only_on_named_devices(
    support: Seq<Vec<Vec<Support>>>,
    matched_by_name: bool,
    names: Seq<String>,
    fallback_name: Option<Seq<char>>,
    fallback_table: Seq<Vec<Support>>,
    rates: Seq<u32>,
    requested: u32,
)
    ensures
        forall|i: int|
            0 <= i < spec_stream_plan(support, matched_by_name, names, fallback_name, fallback_table, rates, requested).len()
                && (#[trigger] spec_stream_plan(support, matched_by_name, names, fallback_name, fallback_table, rates, requested)[i]).1.channels
                != 2 ==> matched_by_name && spec_stream_plan(
                support,
                matched_by_name,
                names,
                fallback_name,
                fallback_table,
                rates,
                requested,
            )[i].0 is Retained,
{
    let chans = spec_channel_candidates(matched_by_name);
    let attempts = spec_attempt_plan(support, chans, rates, requested, chans.len() as int);
    lemma_attempt_plan_channels(support, chans, rates, requested, chans.len() as int);
    let main = retained(attempts);
    let fb = spec_plan(table_candidates(fallback_table, rates, rates.len() as int), 2, requested);
    lemma_plan_channels(table_candidates(fallback_table, rates, rates.len() as int), 2, requested);
    let plan = spec_stream_plan(support, matched_by_name, names, fallback_name, fallback_table, rates, requested);
    let extra = match fallback_name {
        Some(name) => if matched_by_name && forall|j: int| 0 <= j < names.len() ==> (#[trigger] names[j])@ != name {
            fallback(fb)
        } else {
            Seq::empty()
        },
        None => Seq::empty(),
    };
    assert forall|i: int| 0 <= i < plan.len() && (#[trigger] plan[i]).1.channels != 2 implies matched_by_name
        && plan[i].0 is Retained by {
        if main.len() + extra.len() == 0 {
            assert(plan[i].1.channels == 2);
        } else {
            assert(plan == main + extra);
            if i < main.len() {
                assert(plan[i] == main[i]);
                assert(main[i] == (PlanTarget::Retained(attempts[i].0), attempts[i].1));
                let c = choose|c: int| 0 <= c < chans.len() && attempts[i].1.channels == chans[c];
                if !matched_by_name {
                    assert(chans[c] == 2);
                }
            } else {
                assert(plan[i] == extra[i - main.len()]);
                assert(extra[i - main.len()].1 == fb[i - main.len()].1);
            }
        }
    }
}


/// Outcome of one stream build attempt.
#[derive(Debug, Clone, Copy, PartialEq, Eq, Structural)]
pub enum AttemptOutcome {
    /// The stream was built.
    Built,
    /// The backend refused the configuration.
    Failed,
}

/// What opening the stream does after an attempt.
#[derive(Debug, Clone, Copy, PartialEq, Eq, Structural)]
pub enum OpenStep {
    /// Keep the stream built by attempt `i`.
    Keep(usize),
    /// Make attempt `i` next.
    Try(usize),
    /// Every attempt failed: report the failure of the last one.
    GiveUp,
}

/// Step after attempt `index` of a plan of `plan_len` attempts.
pub open spec fn spec_after_attempt(index: int, plan_len: int, outcome: AttemptOutcome) -> OpenStep {
    match outcome {
        AttemptOutcome::Built => OpenStep::Keep(index as usize),
        AttemptOutcome::Failed => if index + 1 < plan_len {
            OpenStep::Try((index + 1) as usize)
        } else {
            OpenStep::GiveUp
        },
    }
}

/// The first success wins: the stream of a built attempt is kept; after a
/// failure the next attempt of the plan is made, and after the last one
/// the opening fails.
pub fn after_attempt(index: usize, plan_len: usize, outcome: AttemptOutcome) -> (r: OpenStep)
    requires
        index < plan_len,
    ensures
        r == spec_after_attempt(index as int, plan_len as int, outcome),
{
    match outcome {
        AttemptOutcome::Built => OpenStep::Keep(index),
        AttemptOutcome::Failed => if index + 1 < plan_len {
            OpenStep::Try(index + 1)
        } else {
            OpenStep::GiveUp
        },
    }
}

/// Where stepping through the plan from attempt `i` ends, when attempt
/// `k` has outcome `outcomes[k]`.
pub open spec fn open_from(outcomes: Seq<AttemptOutcome>, i: int) -> OpenStep
    decreases outcomes.len() - i,
{
    if i < 0 || i >= outcomes.len() {
        OpenStep::GiveUp
    } else {
        match spec_after_attempt(i, outcomes.len() as int, outcomes[i]) {
            OpenStep::Try(next) => if next > i {
                open_from(outcomes, next as int)
            } else {
                OpenStep::GiveUp
            },
            step => step,
        }
    }
}

/// Stepping through the plan keeps the first attempt that builds, and
/// fails exactly when none does.
pub proof fn lemma_first_success_wins(outcomes: Seq<AttemptOutcome>, i: int)
    requires
        0 <= i <= outcomes.len(),
        outcomes.len() <= usize::MAX,
    ensures
        open_from(outcomes, i) matches OpenStep::Keep(k) ==> i <= k < outcomes.len() && outcomes[k as int]
            == AttemptOutcome::Built && forall|j: int| i <= j < k ==> outcomes[j] == AttemptOutcome::Failed,
        open_from(outcomes, i) is GiveUp <==> forall|j: int| i <= j < outcomes.len() ==> outcomes[j]
            == AttemptOutcome::Failed,
        !(open_from(outcomes, i) is Try),
    decreases outcomes.len() - i,
{
    if i < outcomes.len() {
        if outcomes[i] == AttemptOutcome::Failed && i + 1 < outcomes.len() {
            lemma_first_success_wins(outcomes, i + 1);
        }
    }
}

} // verus!
