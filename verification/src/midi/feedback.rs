//! Generic feedback engine: engine state → MIDI messages, from the
//! declarative bindings of the mapping. Nothing controller-specific.
//!
//! The engine only returns **changes** (diff per binding): LEDs are not
//! spammed on every tick, and a 7-bit VU only emits when its quantized
//! value moves. `reset()` forces a full refresh (controller reconnection).

use vstd::prelude::*;

use crate::mapping::{Deck, FeedbackBinding, FeedbackState, Mapping, Scale};

verus! {

/// "Imminent end of track" threshold, in seconds.
pub const END_OF_TRACK_SECONDS: u64 = 30;

/// State of one deck as seen by the feedback engine (positions in samples
/// at the stream rate).
#[derive(Debug, Clone, Copy, PartialEq, Eq, Default)]
pub struct DeckView {
    pub playing: bool,
    /// Headphone pre-listen enabled.
    pub cue: bool,
    pub position_samples: u64,
    pub cue_point_samples: u64,
    /// Length of the loaded track (0 = no track).
    pub track_frames: u64,
}

/// Engine state read by the feedback engine.
#[derive(Debug, Clone, Copy, PartialEq, Eq, Default)]
pub struct FeedbackView {
    pub decks: [DeckView; 2],
}

/// Slot of a mapping deck in per-deck arrays.
pub open spec fn spec_deck_index(deck: Deck) -> int {
    match deck {
        Deck::A => 0,
        Deck::B => 1,
    }
}

/// Slot of a mapping deck in per-deck arrays: `A` → 0, `B` → 1.
pub fn deck_index(deck: Deck) -> (r: usize)
    ensures
        r == spec_deck_index(deck),
{
    match deck {
        Deck::A => 0,
        Deck::B => 1,
    }
}

/// Continuous states (levels) — their data byte comes from a real-valued
/// level, supplied by the caller.
pub open spec fn is_continuous(state: FeedbackState) -> bool {
    state is VuMaster || state is VuDeck
}

/// Less than `END_OF_TRACK_SECONDS` left in a loaded track.
pub open spec fn near_end(d: DeckView, sample_rate: u32) -> bool {
    d.track_frames > 0 && (if d.track_frames >= d.position_samples {
        d.track_frames - d.position_samples
    } else {
        0
    }) < END_OF_TRACK_SECONDS * sample_rate
}

/// Whether a binary state is on. Beatmatch guide states are reserved and
/// always off; continuous states have no binary value.
pub open spec fn spec_state_active(state: FeedbackState, view: FeedbackView, sample_rate: u32) -> bool {
    match state {
        FeedbackState::Playing { deck } => view.decks[spec_deck_index(deck)].playing,
        FeedbackState::CueSet { deck } => view.decks[spec_deck_index(deck)].cue_point_samples > 0,
        FeedbackState::HeadphoneCue { deck } => view.decks[spec_deck_index(deck)].cue,
        FeedbackState::EndOfTrack { deck } => near_end(view.decks[spec_deck_index(deck)], sample_rate),
        _ => false,
    }
}

/// Whether a binary state is on (see [`spec_state_active`]).
pub fn state_active(state: FeedbackState, view: &FeedbackView, sample_rate: u32) -> (r: bool)
    ensures
        r == spec_state_active(state, *view, sample_rate),
{
    match state {
        FeedbackState::Playing { deck } => view.decks[deck_index(deck)].playing,
        FeedbackState::CueSet { deck } => view.decks[deck_index(deck)].cue_point_samples > 0,
        FeedbackState::HeadphoneCue { deck } => view.decks[deck_index(deck)].cue,
        FeedbackState::EndOfTrack { deck } => {
            let d = view.decks[deck_index(deck)];
            let remaining = d.track_frames.saturating_sub(d.position_samples);
            d.track_frames > 0 && remaining < END_OF_TRACK_SECONDS * (sample_rate as u64)
        },
        _ => false,
    }
}

/// Data byte of a binding: the caller's level for a continuous state;
/// otherwise the scale bounds (`hi` when on, `lo` when off) or the on/off
/// values.
pub open spec fn binding_data(b: FeedbackBinding, view: FeedbackView, sample_rate: u32, level: u8) -> u8 {
    if is_continuous(b.state) {
        level
    } else {
        let active = spec_state_active(b.state, view, sample_rate);
        match b.scale {
            Some(Scale::Linear(lo, hi)) => if active {
                hi
            } else {
                lo
            },
            None => if active {
                b.on
            } else {
                b.off
            },
        }
    }
}

/// Caller level of binding `i` (0 when absent).
pub open spec fn level_at(levels: Seq<u8>, i: int) -> u8 {
    if 0 <= i < levels.len() {
        levels[i]
    } else {
        0
    }
}

/// The three bytes sent for a binding: its message head and the data byte
/// reduced to 7 bits.
pub open spec fn message_of(b: FeedbackBinding, data: u8) -> Seq<u8> {
    seq![b.output.spec_message_head().0, b.output.spec_message_head().1, (data % 128) as u8]
}

/// Messages emitted for the first `k` bindings: one per binding whose data
/// differs from the last one sent, in binding order.
pub open spec fn emitted(
    bindings: Seq<FeedbackBinding>,
    last: Seq<Option<u8>>,
    view: FeedbackView,
    sample_rate: u32,
    levels: Seq<u8>,
    k: int,
) -> Seq<Seq<u8>>
    decreases k,
{
    if k <= 0 {
        Seq::empty()
    } else {
        let data = binding_data(bindings[k - 1], view, sample_rate, level_at(levels, k - 1));
        emitted(bindings, last, view, sample_rate, levels, k - 1) + if last[k - 1] == Some(data) {
            Seq::<Seq<u8>>::empty()
        } else {
            seq![message_of(bindings[k - 1], data)]
        }
    }
}

/// Data last sent per binding after a refresh: the current data of every
/// binding.
pub open spec fn refreshed(
    bindings: Seq<FeedbackBinding>,
    view: FeedbackView,
    sample_rate: u32,
    levels: Seq<u8>,
) -> Seq<Option<u8>> {
    Seq::new(
        bindings.len(),
        |i: int| Some(binding_data(bindings[i], view, sample_rate, level_at(levels, i))),
    )
}

/// Views of a batch of outgoing messages.
pub open spec fn messages(out: Seq<[u8; 3]>) -> Seq<Seq<u8>> {
    out.map_values(|m: [u8; 3]| m@)
}

/// Feedback engine: bindings of the mapping and the last data sent per
/// binding (`None` = never sent).
pub struct FeedbackEngine {
    bindings: Vec<FeedbackBinding>,
    last_sent: Vec<Option<u8>>,
    /// Rate of the opened output stream (positions are in samples at this
    /// rate).
    sample_rate: u32,
}

impl FeedbackEngine {
    pub closed spec fn bindings(&self) -> Seq<FeedbackBinding> {
        self.bindings@
    }

    pub closed spec fn last_sent(&self) -> Seq<Option<u8>> {
        self.last_sent@
    }

    pub closed spec fn sample_rate(&self) -> u32 {
        self.sample_rate
    }

    /// One "last sent" entry per binding.
    pub open spec fn wf(&self) -> bool {
        self.last_sent().len() == self.bindings().len()
    }

    /// Engine for the feedback bindings of `mapping`, nothing sent yet.
    pub fn new<F>(mapping: &Mapping<F>, sample_rate: u32) -> (r: Self)
        ensures
            r.wf(),
            r.bindings() == mapping.feedback@,
            r.last_sent() == Seq::new(mapping.feedback@.len(), |i: int| Option::<u8>::None),
            r.sample_rate() == sample_rate,
    {
        let n = mapping.feedback.len();
        let mut bindings: Vec<FeedbackBinding> = Vec::new();
        let mut last_sent: Vec<Option<u8>> = Vec::new();
        let mut i: usize = 0;
        while i < n
            invariant
                n == mapping.feedback@.len(),
                i <= n,
                bindings@ == mapping.feedback@.subrange(0, i as int),
                last_sent@ == Seq::new(i as nat, |k: int| Option::<u8>::None),
            decreases n - i,
        {
            bindings.push(mapping.feedback[i]);
            last_sent.push(None);
            i += 1;
        }
        assert(bindings@ == mapping.feedback@);
        FeedbackEngine { bindings, last_sent, sample_rate }
    }

    /// Forces every state to be sent again on the next `refresh` (to call
    /// on (re)connection of the controller).
    pub fn reset(&mut self)
        requires
            old(self).wf(),
        ensures
            final(self).wf(),
            final(self).bindings() == old(self).bindings(),
            final(self).sample_rate() == old(self).sample_rate(),
            final(self).last_sent() == Seq::new(old(self).bindings().len(), |i: int| Option::<u8>::None),
    {
        let n = self.last_sent.len();
        let mut i: usize = 0;
        while i < n
            invariant
                n == self.last_sent@.len(),
                self.bindings@ == old(self).bindings@,
                self.sample_rate == old(self).sample_rate,
                n == old(self).bindings@.len(),
                i <= n,
                forall|k: int| 0 <= k < i ==> self.last_sent@[k] is None,
            decreases n - i,
        {
            self.last_sent.set(i, None);
            i += 1;
        }
        assert(self.last_sent@ == Seq::new(n as nat, |i: int| Option::<u8>::None));
    }

    /// Compares the current state with the last data sent and pushes the
    /// 3-byte MIDI messages to emit into `out`. `levels[i]` is the data byte
    /// of binding `i` when its state is continuous (VU level already scaled
    /// to the binding's range, or its on/off value) — a real-valued
    /// computation made by the caller; it is not read for binary states.
    pub fn refresh(&mut self, view: &FeedbackView, levels: &[u8], out: &mut Vec<[u8; 3]>)
        requires
            old(self).wf(),
        ensures
            final(self).wf(),
            final(self).bindings() == old(self).bindings(),
            final(self).sample_rate() == old(self).sample_rate(),
            final(self).last_sent() == refreshed(old(self).bindings(), *view, old(self).sample_rate(), levels@),
            messages(final(out)@) == messages(old(out)@) + emitted(
                old(self).bindings(),
                old(self).last_sent(),
                *view,
                old(self).sample_rate(),
                levels@,
                old(self).bindings().len() as int,
            ),
    {
        let ghost b = self.bindings@;
        let ghost last0 = self.last_sent@;
        let ghost out0 = out@;
        let ghost lv = levels@;
        let n = self.bindings.len();
        let mut i: usize = 0;
        while i < n
            invariant
                n == b.len(),
                b == self.bindings@,
                self.sample_rate == old(self).sample_rate,
                lv == levels@,
                self.last_sent@.len() == n,
                i <= n,
                forall|k: int| 0 <= k < i ==> self.last_sent@[k] == Some(
                    binding_data(b[k], *view, self.sample_rate, level_at(lv, k)),
                ),
                forall|k: int| i <= k < n ==> self.last_sent@[k] == last0[k],
                messages(out@) == messages(out0) + emitted(b, last0, *view, self.sample_rate, lv, i as int),
            decreases n - i,
        {
            let binding = self.bindings[i];
            let level: u8 = if i < levels.len() {
                levels[i]
            } else {
                0
            };
            let data = if binding.state.is_continuous() {
                level
            } else {
                let active = state_active(binding.state, view, self.sample_rate);
                match binding.scale {
                    Some(Scale::Linear(lo, hi)) => if active {
                        hi
                    } else {
                        lo
                    },
                    None => if active {
                        binding.on
                    } else {
                        binding.off
                    },
                }
            };
            assert(data == binding_data(b[i as int], *view, self.sample_rate, level_at(lv, i as int)));
            let unchanged = match self.last_sent[i] {
                Some(sent) => sent == data,
                None => false,
            };
            let ghost before = out@;
            if !unchanged {
                let (status, data1) = binding.output.message_head();
                let low = data & 0x7F;
                assert(low == data % 128) by (bit_vector)
                    requires
                        low == data & 0x7F,
                ;
                let message: [u8; 3] = [status, data1, low];
                assert(message@ == message_of(b[i as int], data));
                out.push(message);
                self.last_sent.set(i, Some(data));
                assert(messages(out@) == messages(before) + seq![message_of(b[i as int], data)]);
            }
            assert(messages(out@) == messages(out0) + emitted(b, last0, *view, self.sample_rate, lv, i + 1));
            i += 1;
        }
        assert(self.last_sent@ == refreshed(b, *view, self.sample_rate, lv));
    }
}

impl FeedbackState {
    /// Continuous state (see [`is_continuous`]).
    pub fn is_continuous(&self) -> (r: bool)
        ensures
            r == is_continuous(*self),
    {
        match self {
            FeedbackState::VuMaster => true,
            FeedbackState::VuDeck { .. } => true,
            _ => false,
        }
    }
}

/// What each LED shows, read off the deck it names (`A` is the first deck,
/// `B` the second): `Playing` is lit while the deck plays, `CueSet` once a
/// cue point is set (a nonzero cue position), `HeadphoneCue` while
/// pre-listen is on, `EndOfTrack` when a track is loaded and less than
/// `END_OF_TRACK_SECONDS` of it is left; the beatmatch guides stay dark.
/// A binary binding sends its `on` byte (or the scale's top) exactly when
/// its state is lit, and a level binding sends the caller's level.
pub proof fn lemma_binary_states(view: FeedbackView, sample_rate: u32, deck: Deck, b: FeedbackBinding, level: u8)
    ensures
        ({
            let d = if deck == Deck::A {
                view.decks[0]
            } else {
                view.decks[1]
            };
            &&& spec_state_active(FeedbackState::Playing { deck }, view, sample_rate) == d.playing
            &&& spec_state_active(FeedbackState::CueSet { deck }, view, sample_rate) == (d.cue_point_samples
                > 0)
            &&& spec_state_active(FeedbackState::HeadphoneCue { deck }, view, sample_rate) == d.cue
            &&& spec_state_active(FeedbackState::EndOfTrack { deck }, view, sample_rate) == (d.track_frames
                > 0 && (if d.track_frames > d.position_samples {
                d.track_frames - d.position_samples
            } else {
                0
            }) < 30 * sample_rate)
            &&& !spec_state_active(FeedbackState::BeatmatchTempoFaster { deck }, view, sample_rate)
            &&& !spec_state_active(FeedbackState::BeatmatchTempoSlower { deck }, view, sample_rate)
            &&& !spec_state_active(FeedbackState::BeatmatchPhaseAhead { deck }, view, sample_rate)
            &&& !spec_state_active(FeedbackState::BeatmatchPhaseBehind { deck }, view, sample_rate)
        }),
        (b.state is VuMaster || b.state is VuDeck) ==> binding_data(b, view, sample_rate, level) == level,
        !(b.state is VuMaster || b.state is VuDeck) && b.scale is None ==> binding_data(
            b,
            view,
            sample_rate,
            level,
        ) == if spec_state_active(b.state, view, sample_rate) {
            b.on
        } else {
            b.off
        },
        !(b.state is VuMaster || b.state is VuDeck) ==> (b.scale matches Some(Scale::Linear(lo, hi))
            ==> binding_data(b, view, sample_rate, level) == if spec_state_active(
            b.state,
            view,
            sample_rate,
        ) {
            hi
        } else {
            lo
        }),
{
}

/// Nothing changes, nothing is sent: refreshing twice with the same state
/// and levels emits no message the second time.
pub proof fn lemma_refresh_idempotent(
    bindings: Seq<FeedbackBinding>,
    view: FeedbackView,
    sample_rate: u32,
    levels: Seq<u8>,
    k: int,
)
    requires
        0 <= k <= bindings.len(),
    ensures
        emitted(bindings, refreshed(bindings, view, sample_rate, levels), view, sample_rate, levels, k)
            == Seq::<Seq<u8>>::empty(),
    decreases k,
{
    if k > 0 {
        lemma_refresh_idempotent(bindings, view, sample_rate, levels, k - 1);
    }
}

/// After a reset every binding is sent again: one message per binding, in
/// binding order, carrying its current data.
pub proof fn lemma_reset_resends_all(
    bindings: Seq<FeedbackBinding>,
    view: FeedbackView,
    sample_rate: u32,
    levels: Seq<u8>,
    k: int,
)
    requires
        0 <= k <= bindings.len(),
    ensures
        emitted(
            bindings,
            Seq::new(bindings.len(), |i: int| Option::<u8>::None),
            view,
            sample_rate,
            levels,
            k,
        ) == Seq::new(
            k as nat,
            |i: int|
                message_of(bindings[i], binding_data(bindings[i], view, sample_rate, level_at(levels, i))),
        ),
    decreases k,
{
    if k > 0 {
        lemma_reset_resends_all(bindings, view, sample_rate, levels, k - 1);
    }
}

/// At most one message per binding, and exactly the bindings whose data
/// changed since the last send are reported.
pub proof fn lemma_emitted_only_changes(
    bindings: Seq<FeedbackBinding>,
    last: Seq<Option<u8>>,
    view: FeedbackView,
    sample_rate: u32,
    levels: Seq<u8>,
    k: int,
)
    requires
        0 <= k <= bindings.len(),
        bindings.len() == last.len(),
    ensures
        emitted(bindings, last, view, sample_rate, levels, k).len() == Set::new(
            |i: int|
                0 <= i < k && last[i] != Some(
                    binding_data(bindings[i], view, sample_rate, level_at(levels, i)),
                ),
        ).len(),
        emitted(bindings, last, view, sample_rate, levels, k).len() <= k,
    decreases k,
{
    let s = Set::new(
        |i: int|
            0 <= i < k && last[i] != Some(binding_data(bindings[i], view, sample_rate, level_at(levels, i))),
    );
    if k == 0 {
        assert(s =~= Set::empty());
    } else {
        lemma_emitted_only_changes(bindings, last, view, sample_rate, levels, k - 1);
        let s0 = Set::new(
            |i: int|
                0 <= i < k - 1 && last[i] != Some(
                    binding_data(bindings[i], view, sample_rate, level_at(levels, i)),
                ),
        );
        vstd::set_lib::lemma_int_range(0, k - 1);
        assert(s0.subset_of(vstd::set_lib::set_int_range(0, k - 1)));
        vstd::set_lib::lemma_len_subset(s0, vstd::set_lib::set_int_range(0, k - 1));
        let d = binding_data(bindings[k - 1], view, sample_rate, level_at(levels, k - 1));
        if last[k - 1] == Some(d) {
            assert(s =~= s0);
        } else {
            assert(s =~= s0.insert(k - 1));
        }
    }
}

} // verus!
