//! Declarative controller mapping model (one controller = one mapping file).
//!
//! The execution engine (`midi`) is generic: it translates `MIDI event →
//! Action` and `state change → MIDI message` from these values. Nothing here
//! is specific to one controller.
//!
//! Real-valued parameters (curve bounds in dB, jog model constants) are
//! carried as an opaque scalar type `F`: the library never computes with
//! them, the application instantiates `F` with its floating-point type.

use vstd::prelude::*;
use vstd::string::StrSliceExecFns;

verus! {

/// Deck identifier on the mapping side; converted to `engine::Deck` by the
/// consumers.
#[derive(Debug, Clone, Copy, PartialEq, Eq, Hash, Structural)]
pub enum Deck {
    A,
    B,
}

/// Vocabulary of the domain intents. UI interactions emit the same actions
/// as MIDI: a single path for every intent.
#[derive(Debug, Clone, Copy, PartialEq, Eq, Structural)]
#[non_exhaustive]
pub enum Action {
    Play { deck: Deck },
    Cue { deck: Deck },
    /// Move inside the track — `Relative`: signed seconds.
    Seek { deck: Deck },
    Volume { deck: Deck },
    EqLow { deck: Deck },
    EqMid { deck: Deck },
    EqHigh { deck: Deck },
    Pitch { deck: Deck },
    HeadphoneCue { deck: Deck },
    /// Relative jog ticks, touched surface (scratch).
    JogTick { deck: Deck },
    /// Relative ticks of the jog edge, without touch (pitch bend).
    JogBend { deck: Deck },
    /// Capacitive touch of the jog.
    JogTouch { deck: Deck },
    Load { deck: Deck },
    /// Library browsing encoder (`Relative`): the file list.
    LibraryScroll,
    /// Folder pane browsing (`Relative`).
    LibraryFolderScroll,
    /// Encoder push: enter the selected folder.
    LibraryEnter,
    CrossFader,
    MasterGain,
    HeadphoneGain,
    CueMix,
    Shift,
}

/// Incoming MIDI event to match (channels 0–15, data 0–127). A `NoteOn`
/// binding also matches the release (NoteOff or velocity 0).
#[derive(Debug, Clone, Copy, PartialEq, Eq, Hash, Structural)]
pub enum InputSpec {
    NoteOn { ch: u8, note: u8 },
    NoteOff { ch: u8, note: u8 },
    CC { ch: u8, cc: u8 },
}

impl InputSpec {
    pub open spec fn spec_channel(self) -> u8 {
        match self {
            InputSpec::NoteOn { ch, .. } => ch,
            InputSpec::NoteOff { ch, .. } => ch,
            InputSpec::CC { ch, .. } => ch,
        }
    }

    pub open spec fn spec_data1(self) -> u8 {
        match self {
            InputSpec::NoteOn { note, .. } => note,
            InputSpec::NoteOff { note, .. } => note,
            InputSpec::CC { cc, .. } => cc,
        }
    }

    /// MIDI channel of the input.
    pub fn channel(&self) -> (r: u8)
        ensures
            r == self.spec_channel(),
    {
        match *self {
            InputSpec::NoteOn { ch, .. } => ch,
            InputSpec::NoteOff { ch, .. } => ch,
            InputSpec::CC { ch, .. } => ch,
        }
    }

    /// First data byte of the input: the note or the controller number.
    pub fn data1(&self) -> (r: u8)
        ensures
            r == self.spec_data1(),
    {
        match *self {
            InputSpec::NoteOn { note, .. } => note,
            InputSpec::NoteOff { note, .. } => note,
            InputSpec::CC { cc, .. } => cc,
        }
    }
}

/// Curve applied to an absolute control (0–127 normalized to 0–1 first).
/// The output is a value of the action's domain: linear gain for `Linear`,
/// decibels for `DbLinear`.
#[derive(Debug, Clone, Copy, PartialEq)]
pub enum Curve<F> {
    Linear,
    /// Linear with the direction flipped (`1 − t`).
    InvertedLinear,
    /// Linear interpolation in dB between (min, max).
    DbLinear(F, F),
}

impl<F> Default for Curve<F> {
    fn default() -> (r: Self)
        ensures
            r is Linear,
    {
        Curve::Linear
    }
}

/// Encoding of 7-bit relative controls.
#[derive(Debug, Clone, Copy, PartialEq, Eq, Structural)]
pub enum RelativeEncoding {
    /// Sign-magnitude: bit 6 = sign. 0x01 = +1, 0x41 = −1.
    SignedBit,
    /// 7-bit two's complement: 0x01 = +1, 0x7F = −1.
    TwosComplement,
    /// Offset 64: 0x41 = +1, 0x3F = −1, 0x40 = 0.
    Offset64,
}

impl RelativeEncoding {
    /// Signed tick count carried by a 7-bit relative value (bit 7 ignored).
    pub open spec fn decoded(self, value: u8) -> int {
        let v = (value % 128) as int;
        match self {
            RelativeEncoding::SignedBit => if v >= 64 { -(v - 64) } else { v },
            RelativeEncoding::TwosComplement => if v >= 64 { v - 128 } else { v },
            RelativeEncoding::Offset64 => v - 64,
        }
    }

    /// Decodes a relative control value into signed ticks. Only the low
    /// seven bits are read; the result lies in `-64..=63`.
    pub fn decode(&self, value: u8) -> (r: i32)
        ensures
            r == self.decoded(value),
            -64 <= r <= 63,
    {
        let masked = value & 0x7F;
        assert(masked == value % 128) by (bit_vector)
            requires
                masked == value & 0x7F,
        ;
        let v: i32 = masked as i32;
        match self {
            RelativeEncoding::SignedBit => {
                if v >= 0x40 {
                    -(v - 0x40)
                } else {
                    v
                }
            },
            RelativeEncoding::TwosComplement => {
                if v >= 0x40 {
                    v - 0x80
                } else {
                    v
                }
            },
            RelativeEncoding::Offset64 => v - 0x40,
        }
    }
}

/// Two's complement and offset-64 decoding are one-to-one on 7-bit values,
/// and every encoding ignores the eighth bit.
pub proof fn lemma_relative_decoding(enc: RelativeEncoding, a: u8, b: u8)
    requires
        a < 128,
        b < 128,
    ensures
        enc.decoded(a) == enc.decoded((a + 128) as u8),
        -64 <= enc.decoded(a) <= 63,
        (enc is TwosComplement || enc is Offset64) ==> (enc.decoded(a) == enc.decoded(b) <==> a
            == b),
        enc is SignedBit ==> (enc.decoded(a) == enc.decoded(b) <==> (a == b || (a % 64 == 0 && b
            % 64 == 0))),
{
}

/// Interpretation of a control.
#[derive(Debug, Clone, Copy, PartialEq)]
#[non_exhaustive]
pub enum Mode<F> {
    /// Every press flips a state held by the mapping engine.
    Toggle,
    /// Press/release forwarded as is (cue buttons…).
    Momentary,
    /// Like `Momentary`, for held controls (shift, jog touch).
    Gate,
    /// Continuous 7-bit control with a curve.
    Absolute { curve: Curve<F> },
    /// Signed relative ticks (jogs, encoders).
    Relative { encoding: RelativeEncoding },
}

/// One control of the controller bound to an action.
#[derive(Debug, Clone, Copy)]
pub struct ControlBinding<F> {
    pub input: InputSpec,
    /// True when the binding is only active while the Shift layer is held.
    pub shift: bool,
    pub action: Action,
    pub mode: Mode<F>,
}

/// Parameters of the jog model — they live in the mapping, never in code.
#[derive(Debug, Clone, Copy)]
pub struct JogConfig<F> {
    pub ticks_per_rev: u32,
    pub touch_scratch: bool,
    pub bend_sensitivity: F,
    /// Return ramp to nominal speed on release (50–200 ms).
    pub release_ramp_ms: u32,
    /// Nominal speed of the virtual platter (vinyl: 33⅓ rpm).
    pub platter_rpm: F,
    /// Sliding velocity estimation window (10–20 ms).
    pub velocity_window_ms: F,
    /// Time constant of the scratch servo (~5 ms).
    pub scratch_smoothing_ms: F,
    /// Time constant of the progressive bend return.
    pub bend_return_ms: F,
}

/// Observable state for LED feedback. The beatmatch guide states are
/// reserved (always off for now).
#[derive(Debug, Clone, Copy, PartialEq, Eq, Structural)]
#[non_exhaustive]
pub enum FeedbackState {
    Playing { deck: Deck },
    /// A cue point is set on the deck.
    CueSet { deck: Deck },
    HeadphoneCue { deck: Deck },
    /// Imminent end of track (< 30 s left).
    EndOfTrack { deck: Deck },
    /// Continuous levels (to pair with `scale`).
    VuMaster,
    VuDeck { deck: Deck },
    BeatmatchTempoFaster { deck: Deck },
    BeatmatchTempoSlower { deck: Deck },
    BeatmatchPhaseAhead { deck: Deck },
    BeatmatchPhaseBehind { deck: Deck },
}

/// Outgoing MIDI message of a feedback binding.
#[derive(Debug, Clone, Copy, PartialEq, Eq, Structural)]
pub enum FeedbackOutput {
    NoteOn { ch: u8, note: u8 },
    CC { ch: u8, cc: u8 },
}

impl FeedbackOutput {
    pub open spec fn spec_channel(self) -> u8 {
        match self {
            FeedbackOutput::NoteOn { ch, .. } => ch,
            FeedbackOutput::CC { ch, .. } => ch,
        }
    }

    /// (status, data1) of the outgoing message: `0x9n`/`0xBn` with `n` the
    /// low nibble of the channel.
    pub open spec fn spec_message_head(self) -> (u8, u8) {
        match self {
            FeedbackOutput::NoteOn { ch, note } => ((0x90 + ch % 16) as u8, note),
            FeedbackOutput::CC { ch, cc } => ((0xB0 + ch % 16) as u8, cc),
        }
    }

    /// MIDI channel of the output.
    pub fn channel(&self) -> (r: u8)
        ensures
            r == self.spec_channel(),
    {
        match *self {
            FeedbackOutput::NoteOn { ch, .. } => ch,
            FeedbackOutput::CC { ch, .. } => ch,
        }
    }

    /// (status, data1) of the MIDI message.
    pub fn message_head(&self) -> (r: (u8, u8))
        ensures
            r == self.spec_message_head(),
    {
        match *self {
            FeedbackOutput::NoteOn { ch, note } => {
                let low = ch & 0x0F;
                assert((0x90u8 | low) == 0x90 + ch % 16 && low == ch % 16) by (bit_vector)
                    requires
                        low == ch & 0x0F,
                ;
                (0x90 | low, note)
            },
            FeedbackOutput::CC { ch, cc } => {
                let low = ch & 0x0F;
                assert((0xB0u8 | low) == 0xB0 + ch % 16 && low == ch % 16) by (bit_vector)
                    requires
                        low == ch & 0x0F,
                ;
                (0xB0 | low, cc)
            },
        }
    }
}

/// Scaling of a continuous state (VU) to the MIDI data byte.
#[derive(Debug, Clone, Copy, PartialEq, Eq, Structural)]
pub enum Scale {
    Linear(u8, u8),
}

/// Value emitted by default when a binary feedback state is active.
pub fn default_on() -> (r: u8)
    ensures
        r == 0x7F,
{
    0x7F
}

/// One feedback binding: which state drives which outgoing message.
#[derive(Debug, Clone, Copy)]
pub struct FeedbackBinding {
    pub state: FeedbackState,
    pub output: FeedbackOutput,
    /// Value emitted while the binary state is active.
    pub on: u8,
    /// Value emitted while the binary state is inactive.
    pub off: u8,
    /// For continuous states (VU): mapping 0..1 → MIDI range.
    pub scale: Option<Scale>,
}

/// Complete mapping of one controller.
#[derive(Debug, Clone)]
pub struct Mapping<F> {
    pub name: String,
    /// Substrings matched against the MIDI port name (auto detection).
    pub device_match: Vec<String>,
    /// Raw MIDI messages sent on connection (e.g. LED mode activation).
    pub init: Vec<(u8, u8, u8)>,
    pub controls: Vec<ControlBinding<F>>,
    /// LED/VU feedback: state change → MIDI message.
    pub feedback: Vec<FeedbackBinding>,
    pub jog: JogConfig<F>,
}

/// Failure to read a mapping file.
#[derive(Debug)]
pub enum MappingError {
    Parse(String),
}

/// One semantic problem found by [`Mapping::validate`]. Indices refer to
/// `controls` / `feedback`.
#[derive(Debug, Clone, Copy, PartialEq, Eq, Structural)]
pub enum MappingIssue {
    /// `device_match` is empty: the controller would never be detected.
    EmptyDeviceMatch,
    /// `jog.ticks_per_rev` must be > 0.
    ZeroTicksPerRev,
    /// Control channel outside 0–15.
    ControlChannel { index: usize, channel: u8 },
    /// Control note/cc outside 0–127.
    ControlData { index: usize, data: u8 },
    /// `DbLinear(min, max)` curve with min ≥ max.
    ControlCurve { index: usize },
    /// Two controls share the same input on the same layer.
    DuplicateControl { first: usize, second: usize },
    /// Feedback channel outside 0–15.
    FeedbackChannel { index: usize, channel: u8 },
    /// Feedback on/off values outside 0–127.
    FeedbackValues { index: usize },
    /// Feedback scale bounds outside 0–127.
    FeedbackScale { index: usize },
    /// Two feedback bindings share the same output.
    DuplicateFeedback { first: usize, second: usize },
}

/// `seq![x]` when `cond` holds, the empty sequence otherwise.
pub open spec fn issue_if(cond: bool, issue: MappingIssue) -> Seq<MappingIssue> {
    if cond {
        seq![issue]
    } else {
        Seq::empty()
    }
}

/// Whether the `index`-th entry of the caller's curve verdicts says the
/// dB bounds of that control are not increasing (absent entries: no).
pub open spec fn flagged(flags: Seq<bool>, index: int) -> bool {
    0 <= index < flags.len() && flags[index]
}

/// The control's mode is a dB curve.
pub open spec fn is_db_curve<F>(b: ControlBinding<F>) -> bool {
    b.mode matches Mode::Absolute { curve: Curve::DbLinear(_, _) }
}

/// Duplicates of control `i` among controls `i+1 .. j`, in index order.
pub open spec fn duplicate_controls<F>(c: Seq<ControlBinding<F>>, i: int, j: int) -> Seq<
    MappingIssue,
>
    decreases j - i,
{
    if j <= i + 1 {
        Seq::empty()
    } else {
        duplicate_controls(c, i, j - 1) + issue_if(
            c[j - 1].input == c[i].input && c[j - 1].shift == c[i].shift,
            MappingIssue::DuplicateControl { first: i as usize, second: (j - 1) as usize },
        )
    }
}

/// Problems of control `i`, in the order they are reported.
pub open spec fn control_issues<F>(c: Seq<ControlBinding<F>>, flags: Seq<bool>, i: int) -> Seq<
    MappingIssue,
> {
    issue_if(
        c[i].input.spec_channel() > 15,
        MappingIssue::ControlChannel { index: i as usize, channel: c[i].input.spec_channel() },
    ) + issue_if(
        c[i].input.spec_data1() > 127,
        MappingIssue::ControlData { index: i as usize, data: c[i].input.spec_data1() },
    ) + issue_if(
        is_db_curve(c[i]) && flagged(flags, i),
        MappingIssue::ControlCurve { index: i as usize },
    ) + duplicate_controls(c, i, c.len() as int)
}

/// Problems of the first `k` controls.
pub open spec fn controls_issues<F>(c: Seq<ControlBinding<F>>, flags: Seq<bool>, k: int) -> Seq<
    MappingIssue,
>
    decreases k,
{
    if k <= 0 {
        Seq::empty()
    } else {
        controls_issues(c, flags, k - 1) + control_issues(c, flags, k - 1)
    }
}

/// Duplicates of feedback binding `i` among bindings `i+1 .. j`.
pub open spec fn duplicate_feedback(f: Seq<FeedbackBinding>, i: int, j: int) -> Seq<MappingIssue>
    decreases j - i,
{
    if j <= i + 1 {
        Seq::empty()
    } else {
        duplicate_feedback(f, i, j - 1) + issue_if(
            f[j - 1].output == f[i].output,
            MappingIssue::DuplicateFeedback { first: i as usize, second: (j - 1) as usize },
        )
    }
}

/// The scale of a feedback binding leaves the 7-bit range.
pub open spec fn scale_out_of_range(b: FeedbackBinding) -> bool {
    match b.scale {
        Some(Scale::Linear(lo, hi)) => lo > 127 || hi > 127,
        None => false,
    }
}

/// Problems of feedback binding `i`, in the order they are reported.
pub open spec fn feedback_issues_of(f: Seq<FeedbackBinding>, i: int) -> Seq<MappingIssue> {
    issue_if(
        f[i].output.spec_channel() > 15,
        MappingIssue::FeedbackChannel { index: i as usize, channel: f[i].output.spec_channel() },
    ) + issue_if(
        f[i].on > 127 || f[i].off > 127,
        MappingIssue::FeedbackValues { index: i as usize },
    ) + issue_if(scale_out_of_range(f[i]), MappingIssue::FeedbackScale { index: i as usize })
        + duplicate_feedback(f, i, f.len() as int)
}

/// Problems of the first `k` feedback bindings.
pub open spec fn feedbacks_issues(f: Seq<FeedbackBinding>, k: int) -> Seq<MappingIssue>
    decreases k,
{
    if k <= 0 {
        Seq::empty()
    } else {
        feedbacks_issues(f, k - 1) + feedback_issues_of(f, k - 1)
    }
}

/// Contains `needle` as a contiguous run of characters.
pub open spec fn contains_text(hay: Seq<char>, needle: Seq<char>) -> bool {
    exists|i: int|
        0 <= i && i + needle.len() <= hay.len() && #[trigger] hay.subrange(i, i + needle.len())
            == needle
}

/// Whether `needle` occurs in `hay` as a contiguous run of characters
/// (the empty needle always occurs).
pub fn text_contains(hay: &str, needle: &str) -> (r: bool)
    ensures
        r == contains_text(hay@, needle@),
{
    let n = hay.unicode_len();
    let m = needle.unicode_len();
    if m > n {
        return false;
    }
    let mut i: usize = 0;
    while i <= n - m
        invariant
            n == hay@.len(),
            m == needle@.len(),
            m <= n,
            i <= n - m + 1,
            forall|k: int| 0 <= k < i ==> #[trigger] hay@.subrange(k, k + m) != needle@,
        decreases n - m + 1 - i,
    {
        let mut j: usize = 0;
        while j < m && hay.get_char(i + j) == needle.get_char(j)
            invariant
                n == hay@.len(),
                m == needle@.len(),
                i + m <= n,
                j <= m,
                forall|t: int| 0 <= t < j ==> hay@[i + t] == needle@[t],
            decreases m - j,
        {
            j += 1;
        }
        if j == m {
            assert(hay@.subrange(i as int, i + m) =~= needle@);
            return true;
        }
        assert(hay@.subrange(i as int, i + m)[j as int] != needle@[j as int]);
        i += 1;
    }
    false
}

impl<F> Mapping<F> {
    /// Every problem of the mapping, in report order: header, then each
    /// control (channel, data, curve, duplicates after it), then each
    /// feedback binding (channel, values, scale, duplicates after it).
    pub open spec fn issues(self, curve_flags: Seq<bool>) -> Seq<MappingIssue> {
        issue_if(self.device_match@.len() == 0, MappingIssue::EmptyDeviceMatch) + issue_if(
            self.jog.ticks_per_rev == 0,
            MappingIssue::ZeroTicksPerRev,
        ) + controls_issues(self.controls@, curve_flags, self.controls@.len() as int)
            + feedbacks_issues(self.feedback@, self.feedback@.len() as int)
    }

    /// The mapping is usable as is: detectable, jog defined, every control
    /// and every feedback binding sound (see [`control_ok`] and
    /// [`feedback_ok`]).
    pub open spec fn is_valid(self, curve_flags: Seq<bool>) -> bool {
        &&& self.device_match@.len() > 0
        &&& self.jog.ticks_per_rev > 0
        &&& forall|i: int|
            0 <= i < self.controls@.len() ==> #[trigger] control_ok(self.controls@, curve_flags, i)
        &&& forall|i: int|
            0 <= i < self.feedback@.len() ==> #[trigger] feedback_ok(self.feedback@, i)
    }

    /// True when `port_name` belongs to this controller: one of the
    /// `device_match` substrings occurs in it.
    pub fn matches_port(&self, port_name: &str) -> (r: bool)
        ensures
            r == exists|i: int|
                0 <= i < self.device_match@.len() && contains_text(
                    port_name@,
                    #[trigger] self.device_match@[i]@,
                ),
    {
        let n = self.device_match.len();
        let mut i: usize = 0;
        while i < n
            invariant
                n == self.device_match@.len(),
                i <= n,
                forall|k: int|
                    0 <= k < i ==> !contains_text(port_name@, #[trigger] self.device_match@[k]@),
            decreases n - i,
        {
            if text_contains(port_name, self.device_match[i].as_str()) {
                return true;
            }
            i += 1;
        }
        false
    }

    /// Semantic validation with readable problems, all of them rather than
    /// the first one. `curve_flags[i]` tells whether the dB bounds of
    /// control `i` are not increasing (min ≥ max) — a comparison of real
    /// values made by the caller; it is only read for `DbLinear` controls.
    pub fn validate(&self, curve_flags: &[bool]) -> (r: Result<(), Vec<MappingIssue>>)
        ensures
            r is Ok <==> self.issues(curve_flags@).len() == 0,
            r matches Err(v) ==> v@ == self.issues(curve_flags@),
            r is Ok <==> self.is_valid(curve_flags@),
    {
        let ghost flags = curve_flags@;
        let ghost c = self.controls@;
        let ghost f = self.feedback@;
        let mut errors: Vec<MappingIssue> = Vec::new();
        if self.device_match.len() == 0 {
            errors.push(MappingIssue::EmptyDeviceMatch);
        }
        if self.jog.ticks_per_rev == 0 {
            errors.push(MappingIssue::ZeroTicksPerRev);
        }
        let ghost header = errors@;
        assert(header == issue_if(self.device_match@.len() == 0, MappingIssue::EmptyDeviceMatch)
            + issue_if(self.jog.ticks_per_rev == 0, MappingIssue::ZeroTicksPerRev));

        let n = self.controls.len();
        let mut i: usize = 0;
        while i < n
            invariant
                n == c.len(),
                c == self.controls@,
                flags == curve_flags@,
                i <= n,
                errors@ == header + controls_issues(c, flags, i as int),
            decreases n - i,
        {
            let ghost before = errors@;
            self.push_control_issues(i, curve_flags, &mut errors);
            proof {
                assert(controls_issues(c, flags, i + 1) == controls_issues(c, flags, i as int)
                    + control_issues(c, flags, i as int));
                assert(errors@ == header + controls_issues(c, flags, i + 1));
            }
            i += 1;
        }

        let ghost after_controls = errors@;
        let m = self.feedback.len();
        let mut i: usize = 0;
        while i < m
            invariant
                m == f.len(),
                f == self.feedback@,
                i <= m,
                errors@ == after_controls + feedbacks_issues(f, i as int),
            decreases m - i,
        {
            self.push_feedback_issues(i, &mut errors);
            proof {
                assert(feedbacks_issues(f, i + 1) == feedbacks_issues(f, i as int)
                    + feedback_issues_of(f, i as int));
                assert(errors@ == after_controls + feedbacks_issues(f, i + 1));
            }
            i += 1;
        }
        proof {
            assert(errors@ == self.issues(flags));
            lemma_no_issues_iff_valid(*self, flags);
        }
        if errors.len() == 0 {
            Ok(())
        } else {
            Err(errors)
        }
    }

    /// Appends the problems of control `i`.
    fn push_control_issues(&self, i: usize, curve_flags: &[bool], errors: &mut Vec<MappingIssue>)
        requires
            i < self.controls@.len(),
        ensures
            final(errors)@ == old(errors)@ + control_issues(self.controls@, curve_flags@, i as int),
    {
        let ghost c = self.controls@;
        let ghost flags = curve_flags@;
        let ghost start = errors@;
        let n = self.controls.len();
        let control = &self.controls[i];
        let channel = control.input.channel();
        if channel > 15 {
            errors.push(MappingIssue::ControlChannel { index: i, channel });
        }
        let ghost e1 = errors@;
        assert(e1 == start + issue_if(
            c[i as int].input.spec_channel() > 15,
            MappingIssue::ControlChannel { index: i, channel: c[i as int].input.spec_channel() },
        ));
        let data = control.input.data1();
        if data > 127 {
            errors.push(MappingIssue::ControlData { index: i, data });
        }
        let ghost e2 = errors@;
        assert(e2 == e1 + issue_if(
            c[i as int].input.spec_data1() > 127,
            MappingIssue::ControlData { index: i, data: c[i as int].input.spec_data1() },
        ));
        let db_curve = match control.mode {
            Mode::Absolute { curve: Curve::DbLinear(_, _) } => true,
            _ => false,
        };
        if db_curve && i < curve_flags.len() && curve_flags[i] {
            errors.push(MappingIssue::ControlCurve { index: i });
        }
        let ghost own = errors@;
        assert(own == e2 + issue_if(
            is_db_curve(c[i as int]) && flagged(flags, i as int),
            MappingIssue::ControlCurve { index: i },
        ));
        let mut j: usize = i + 1;
        while j < n
            invariant
                n == c.len(),
                c == self.controls@,
                i < n,
                i + 1 <= j <= n,
                errors@ == own + duplicate_controls(c, i as int, j as int),
            decreases n - j,
        {
            if self.controls[i].input == self.controls[j].input && self.controls[i].shift
                == self.controls[j].shift {
                errors.push(MappingIssue::DuplicateControl { first: i, second: j });
            }
            proof {
                assert(duplicate_controls(c, i as int, j + 1) == duplicate_controls(
                    c,
                    i as int,
                    j as int,
                ) + issue_if(
                    c[j as int].input == c[i as int].input && c[j as int].shift
                        == c[i as int].shift,
                    MappingIssue::DuplicateControl { first: i, second: j },
                ));
            }
            j += 1;
        }
        assert(errors@ == start + control_issues(c, flags, i as int));
    }

    /// Appends the problems of feedback binding `i`.
    fn push_feedback_issues(&self, i: usize, errors: &mut Vec<MappingIssue>)
        requires
            i < self.feedback@.len(),
        ensures
            final(errors)@ == old(errors)@ + feedback_issues_of(self.feedback@, i as int),
    {
        let ghost f = self.feedback@;
        let ghost start = errors@;
        let m = self.feedback.len();
        let feedback = &self.feedback[i];
        let channel = feedback.output.channel();
        if channel > 15 {
            errors.push(MappingIssue::FeedbackChannel { index: i, channel });
        }
        let ghost e1 = errors@;
        assert(e1 == start + issue_if(
            f[i as int].output.spec_channel() > 15,
            MappingIssue::FeedbackChannel { index: i, channel: f[i as int].output.spec_channel() },
        ));
        if feedback.on > 127 || feedback.off > 127 {
            errors.push(MappingIssue::FeedbackValues { index: i });
        }
        let ghost e2 = errors@;
        assert(e2 == e1 + issue_if(
            f[i as int].on > 127 || f[i as int].off > 127,
            MappingIssue::FeedbackValues { index: i },
        ));
        let scale_bad = match feedback.scale {
            Some(Scale::Linear(lo, hi)) => lo > 127 || hi > 127,
            None => false,
        };
        if scale_bad {
            errors.push(MappingIssue::FeedbackScale { index: i });
        }
        let ghost own = errors@;
        assert(own == e2 + issue_if(
            scale_out_of_range(f[i as int]),
            MappingIssue::FeedbackScale { index: i },
        ));
        let mut j: usize = i + 1;
        while j < m
            invariant
                m == f.len(),
                f == self.feedback@,
                i < m,
                i + 1 <= j <= m,
                errors@ == own + duplicate_feedback(f, i as int, j as int),
            decreases m - j,
        {
            if self.feedback[i].output == self.feedback[j].output {
                errors.push(MappingIssue::DuplicateFeedback { first: i, second: j });
            }
            proof {
                assert(duplicate_feedback(f, i as int, j + 1) == duplicate_feedback(
                    f,
                    i as int,
                    j as int,
                ) + issue_if(
                    f[j as int].output == f[i as int].output,
                    MappingIssue::DuplicateFeedback { first: i, second: j },
                ));
            }
            j += 1;
        }
        assert(errors@ == start + feedback_issues_of(f, i as int));
    }
}

/// Control `i` is sound: channel and data byte in range, increasing dB
/// bounds, and no later control bound to the same input on the same layer.
pub open spec fn control_ok<F>(c: Seq<ControlBinding<F>>, curve_flags: Seq<bool>, i: int) -> bool {
    &&& c[i].input.spec_channel() <= 15
    &&& c[i].input.spec_data1() <= 127
    &&& !(is_db_curve(c[i]) && flagged(curve_flags, i))
    &&& forall|k: int| i < k < c.len() ==> !(#[trigger] c[k].input == c[i].input && c[k].shift == c[i].shift)
}

/// Feedback binding `i` is sound: channel, on/off values and scale in
/// range, and no later binding driving the same output.
pub open spec fn feedback_ok(f: Seq<FeedbackBinding>, i: int) -> bool {
    &&& f[i].output.spec_channel() <= 15
    &&& f[i].on <= 127
    &&& f[i].off <= 127
    &&& !scale_out_of_range(f[i])
    &&& forall|k: int| i < k < f.len() ==> #[trigger] f[k].output != f[i].output
}

proof fn lemma_duplicate_controls_empty<F>(c: Seq<ControlBinding<F>>, i: int, j: int)
    requires
        0 <= i,
        j <= c.len(),
    ensures
        duplicate_controls(c, i, j).len() == 0 <==> forall|k: int|
            i < k < j ==> !(c[k].input == c[i].input && c[k].shift == c[i].shift),
    decreases j - i,
{
    if j > i + 1 {
        lemma_duplicate_controls_empty(c, i, j - 1);
    }
}

proof fn lemma_controls_issues_empty<F>(c: Seq<ControlBinding<F>>, flags: Seq<bool>, k: int)
    requires
        0 <= k <= c.len(),
    ensures
        controls_issues(c, flags, k).len() == 0 <==> forall|i: int|
            0 <= i < k ==> control_issues(c, flags, i).len() == 0,
    decreases k,
{
    if k > 0 {
        lemma_controls_issues_empty(c, flags, k - 1);
    }
}

proof fn lemma_duplicate_feedback_empty(f: Seq<FeedbackBinding>, i: int, j: int)
    requires
        0 <= i,
        j <= f.len(),
    ensures
        duplicate_feedback(f, i, j).len() == 0 <==> forall|k: int|
            i < k < j ==> f[k].output != f[i].output,
    decreases j - i,
{
    if j > i + 1 {
        lemma_duplicate_feedback_empty(f, i, j - 1);
    }
}

proof fn lemma_feedbacks_issues_empty(f: Seq<FeedbackBinding>, k: int)
    requires
        0 <= k <= f.len(),
    ensures
        feedbacks_issues(f, k).len() == 0 <==> forall|i: int|
            0 <= i < k ==> feedback_issues_of(f, i).len() == 0,
    decreases k,
{
    if k > 0 {
        lemma_feedbacks_issues_empty(f, k - 1);
    }
}

/// A mapping reports no problem exactly when it is valid.
pub proof fn lemma_no_issues_iff_valid<F>(m: Mapping<F>, curve_flags: Seq<bool>)
    ensures
        m.issues(curve_flags).len() == 0 <==> m.is_valid(curve_flags),
{
    let c = m.controls@;
    let f = m.feedback@;
    lemma_controls_issues_empty(c, curve_flags, c.len() as int);
    lemma_feedbacks_issues_empty(f, f.len() as int);
    assert forall|i: int| 0 <= i < c.len() implies (control_issues(c, curve_flags, i).len() == 0
        <==> control_ok(c, curve_flags, i)) by {
        lemma_duplicate_controls_empty(c, i, c.len() as int);
    }
    assert forall|i: int| 0 <= i < f.len() implies (feedback_issues_of(f, i).len() == 0
        <==> feedback_ok(f, i)) by {
        lemma_duplicate_feedback_empty(f, i, f.len() as int);
    }
    let h = issue_if(m.device_match@.len() == 0, MappingIssue::EmptyDeviceMatch) + issue_if(
        m.jog.ticks_per_rev == 0,
        MappingIssue::ZeroTicksPerRev,
    );
    let ci = controls_issues(c, curve_flags, c.len() as int);
    let fi = feedbacks_issues(f, f.len() as int);
    assert(m.issues(curve_flags) == h + ci + fi);
    assert(m.issues(curve_flags).len() == h.len() + ci.len() + fi.len());
    if ci.len() == 0 {
        assert forall|i: int| 0 <= i < c.len() implies #[trigger] control_ok(c, curve_flags, i) by {
            assert(control_issues(c, curve_flags, i).len() == 0);
        }
    }
    if forall|i: int| 0 <= i < c.len() ==> #[trigger] control_ok(c, curve_flags, i) {
        assert forall|i: int| 0 <= i < c.len() implies control_issues(c, curve_flags, i).len()
            == 0 by {
            assert(control_ok(c, curve_flags, i));
        }
    }
    if fi.len() == 0 {
        assert forall|i: int| 0 <= i < f.len() implies #[trigger] feedback_ok(f, i) by {
            assert(feedback_issues_of(f, i).len() == 0);
        }
    }
    if forall|i: int| 0 <= i < f.len() ==> #[trigger] feedback_ok(f, i) {
        assert forall|i: int| 0 <= i < f.len() implies feedback_issues_of(f, i).len() == 0 by {
            assert(feedback_ok(f, i));
        }
    }
}

} // verus!
