//! Short-path routing: control event → engine command, without going
//! through the UI scheduler. Used by the MIDI thread; the UI receives a
//! copy of the events for display.
//!
//! The reading of an absolute control is carried through unchanged (`A`):
//! turning it into gains, dB coefficients or speeds is real-valued work
//! done by the engine side. A seek in signed seconds becomes a relative
//! move in frames at the rate of the output stream.

use vstd::prelude::*;

use super::translate::{ControlEvent, ControlValue};
use crate::engine::eq::EqBand;
use crate::engine::Deck as EngineDeck;
use crate::mapping::{Action, Deck};

verus! {

/// Engine deck of a mapping deck.
pub open spec fn spec_engine_deck(deck: Deck) -> EngineDeck {
    match deck {
        Deck::A => EngineDeck::A,
        Deck::B => EngineDeck::B,
    }
}

/// Engine deck of a mapping deck (`A` → `A`, `B` → `B`).
pub fn engine_deck(deck: Deck) -> (r: EngineDeck)
    ensures
        r == spec_engine_deck(deck),
{
    match deck {
        Deck::A => EngineDeck::A,
        Deck::B => EngineDeck::B,
    }
}

/// Engine command asked for by a control event. Absolute readings (`A`)
/// are passed on as read: fader position for volume, crossfader, pitch,
/// cue mix and gains; the curve's value in dB for the EQ bands.
#[derive(Debug, Clone, Copy, PartialEq)]
pub enum EngineIntent<A> {
    Play(EngineDeck),
    Pause(EngineDeck),
    CuePress(EngineDeck),
    CueRelease(EngineDeck),
    /// Relative move in frames (signed).
    SeekRelative(EngineDeck, i64),
    DeckVolume(EngineDeck, A),
    /// Crossfader position 0..1 (A full left → B full right).
    Crossfader(A),
    MasterGain(A),
    /// EQ band gain in dB.
    Eq(EngineDeck, EqBand, A),
    /// Pitch fader position 0..1 (0.5 = nominal speed).
    Pitch(EngineDeck, A),
    CueEnabled(EngineDeck, bool),
    CueMix(A),
    HeadphoneGain(A),
}

/// Frames of a move of `seconds` at `sample_rate`.
pub open spec fn seek_frames(seconds: i32, sample_rate: u32) -> int {
    seconds * sample_rate
}

/// Routing table. Transport: a toggle or a press starts the deck, a toggle
/// off pauses it; cue press/release are forwarded; a relative seek in
/// seconds moves the deck by that many seconds of frames at `sample_rate`;
/// mixer controls need an absolute reading; the headphone cue follows its
/// toggle or button. Everything else (load, shift, jogs, library) has no
/// direct engine effect.
pub open spec fn spec_route<A>(action: Action, value: ControlValue<A>, sample_rate: u32) -> Option<EngineIntent<A>> {
    match (action, value) {
        (Action::Play { deck }, ControlValue::Toggled(true)) => Some(
            EngineIntent::Play(spec_engine_deck(deck)),
        ),
        (Action::Play { deck }, ControlValue::Pressed(true)) => Some(
            EngineIntent::Play(spec_engine_deck(deck)),
        ),
        (Action::Play { deck }, ControlValue::Toggled(false)) => Some(
            EngineIntent::Pause(spec_engine_deck(deck)),
        ),
        (Action::Cue { deck }, ControlValue::Pressed(true)) => Some(
            EngineIntent::CuePress(spec_engine_deck(deck)),
        ),
        (Action::Cue { deck }, ControlValue::Pressed(false)) => Some(
            EngineIntent::CueRelease(spec_engine_deck(deck)),
        ),
        (Action::Seek { deck }, ControlValue::Relative(seconds)) => Some(
            EngineIntent::SeekRelative(spec_engine_deck(deck), seek_frames(seconds, sample_rate) as i64),
        ),
        (Action::Volume { deck }, ControlValue::Absolute(v)) => Some(
            EngineIntent::DeckVolume(spec_engine_deck(deck), v),
        ),
        (Action::CrossFader, ControlValue::Absolute(v)) => Some(EngineIntent::Crossfader(v)),
        (Action::MasterGain, ControlValue::Absolute(v)) => Some(EngineIntent::MasterGain(v)),
        (Action::EqLow { deck }, ControlValue::Absolute(v)) => Some(
            EngineIntent::Eq(spec_engine_deck(deck), EqBand::Low, v),
        ),
        (Action::EqMid { deck }, ControlValue::Absolute(v)) => Some(
            EngineIntent::Eq(spec_engine_deck(deck), EqBand::Mid, v),
        ),
        (Action::EqHigh { deck }, ControlValue::Absolute(v)) => Some(
            EngineIntent::Eq(spec_engine_deck(deck), EqBand::High, v),
        ),
        (Action::Pitch { deck }, ControlValue::Absolute(v)) => Some(
            EngineIntent::Pitch(spec_engine_deck(deck), v),
        ),
        (Action::HeadphoneCue { deck }, ControlValue::Toggled(on)) => Some(
            EngineIntent::CueEnabled(spec_engine_deck(deck), on),
        ),
        (Action::HeadphoneCue { deck }, ControlValue::Pressed(on)) => Some(
            EngineIntent::CueEnabled(spec_engine_deck(deck), on),
        ),
        (Action::CueMix, ControlValue::Absolute(v)) => Some(EngineIntent::CueMix(v)),
        (Action::HeadphoneGain, ControlValue::Absolute(v)) => Some(EngineIntent::HeadphoneGain(v)),
        _ => None,
    }
}

/// Translates an event into the engine command it asks for, seeks in
/// frames at `sample_rate` (the rate of the output stream). `None` for the
/// actions without a direct audio effect: `Load` (handled by the UI),
/// `Shift` (internal state of the mapping engine), jogs and library
/// navigation, and for values that do not fit the action.
pub fn to_engine_command<A: Copy>(event: &ControlEvent<A>, sample_rate: u32) -> (r: Option<EngineIntent<A>>)
    ensures
        r == spec_route(event.action, event.value, sample_rate),
{
    match (event.action, event.value) {
        (Action::Play { deck }, ControlValue::Toggled(true)) => Some(
            EngineIntent::Play(engine_deck(deck)),
        ),
        (Action::Play { deck }, ControlValue::Pressed(true)) => Some(
            EngineIntent::Play(engine_deck(deck)),
        ),
        (Action::Play { deck }, ControlValue::Toggled(false)) => Some(
            EngineIntent::Pause(engine_deck(deck)),
        ),
        (Action::Cue { deck }, ControlValue::Pressed(true)) => Some(
            EngineIntent::CuePress(engine_deck(deck)),
        ),
        (Action::Cue { deck }, ControlValue::Pressed(false)) => Some(
            EngineIntent::CueRelease(engine_deck(deck)),
        ),
        (Action::Seek { deck }, ControlValue::Relative(seconds)) => {
            let wide_seconds = seconds as i64;
            let wide_rate = sample_rate as i64;
            assert(-0x8000_0000_0000_0000 <= wide_seconds * wide_rate <= 0x7fff_ffff_ffff_ffff) by (nonlinear_arith)
                requires
                    -0x8000_0000 <= wide_seconds < 0x8000_0000,
                    0 <= wide_rate < 0x1_0000_0000,
            ;
            let frames = wide_seconds * wide_rate;
            Some(EngineIntent::SeekRelative(engine_deck(deck), frames))
        },
        (Action::Volume { deck }, ControlValue::Absolute(v)) => Some(
            EngineIntent::DeckVolume(engine_deck(deck), v),
        ),
        (Action::CrossFader, ControlValue::Absolute(v)) => Some(EngineIntent::Crossfader(v)),
        (Action::MasterGain, ControlValue::Absolute(v)) => Some(EngineIntent::MasterGain(v)),
        (Action::EqLow { deck }, ControlValue::Absolute(v)) => Some(
            EngineIntent::Eq(engine_deck(deck), EqBand::Low, v),
        ),
        (Action::EqMid { deck }, ControlValue::Absolute(v)) => Some(
            EngineIntent::Eq(engine_deck(deck), EqBand::Mid, v),
        ),
        (Action::EqHigh { deck }, ControlValue::Absolute(v)) => Some(
            EngineIntent::Eq(engine_deck(deck), EqBand::High, v),
        ),
        (Action::Pitch { deck }, ControlValue::Absolute(v)) => Some(
            EngineIntent::Pitch(engine_deck(deck), v),
        ),
        (Action::HeadphoneCue { deck }, ControlValue::Toggled(on)) => Some(
            EngineIntent::CueEnabled(engine_deck(deck), on),
        ),
        (Action::HeadphoneCue { deck }, ControlValue::Pressed(on)) => Some(
            EngineIntent::CueEnabled(engine_deck(deck), on),
        ),
        (Action::CueMix, ControlValue::Absolute(v)) => Some(EngineIntent::CueMix(v)),
        (Action::HeadphoneGain, ControlValue::Absolute(v)) => Some(EngineIntent::HeadphoneGain(v)),
        _ => None,
    }
}

/// Actions handled outside the audio engine never reach it, whatever their
/// value: loading, the Shift layer, the jogs and the library.
pub proof fn lemma_non_engine_actions_not_routed<A>(action: Action, value: ControlValue<A>, sample_rate: u32)
    requires
        action is Load || action is Shift || action is JogTick || action is JogBend
            || action is JogTouch || action is LibraryScroll || action is LibraryFolderScroll
            || action is LibraryEnter,
    ensures
        spec_route(action, value, sample_rate) is None,
{
}

/// Seeking forward then back by the same number of seconds moves the deck
/// by opposite numbers of frames, so the two moves cancel out (away from
/// the ends of the track, where the engine clamps).
pub proof fn lemma_seek_back_and_forth_cancel<A>(deck: Deck, seconds: i32, sample_rate: u32)
    requires
        seconds > i32::MIN,
    ensures
        spec_route::<A>(Action::Seek { deck }, ControlValue::Relative(seconds), sample_rate) matches Some(
            EngineIntent::SeekRelative(d1, f1),
        ) && spec_route::<A>(Action::Seek { deck }, ControlValue::Relative((-seconds) as i32), sample_rate)
            matches Some(EngineIntent::SeekRelative(d2, f2)) && d1 == d2 && f1 + f2 == 0,
{
    assert(seek_frames(seconds, sample_rate) + seek_frames((-seconds) as i32, sample_rate) == 0) by (nonlinear_arith)
        requires
            seconds > i32::MIN,
    ;
    assert(-0x8000_0000_0000_0000 <= seek_frames(seconds, sample_rate) < 0x8000_0000_0000_0000) by (nonlinear_arith);
    assert(-0x8000_0000_0000_0000 <= seek_frames((-seconds) as i32, sample_rate) < 0x8000_0000_0000_0000) by (nonlinear_arith);
}


/// A command goes to the deck named by the event: mapping deck `A` is
/// engine deck `A`, `B` is `B`.
pub proof fn lemma_engine_deck_same_letter()
    ensures
        spec_engine_deck(Deck::A) == EngineDeck::A,
        spec_engine_deck(Deck::B) == EngineDeck::B,
{
}

/// Each EQ knob reaches its own band — low, mid, high — on the event's
/// deck, with the reading passed on unchanged.
pub proof fn lemma_eq_knobs_reach_their_band<A>(deck: Deck, v: A, sample_rate: u32)
    ensures
        spec_route(Action::EqLow { deck }, ControlValue::Absolute(v), sample_rate) == Some(
            EngineIntent::Eq(spec_engine_deck(deck), EqBand::Low, v),
        ),
        spec_route(Action::EqMid { deck }, ControlValue::Absolute(v), sample_rate) == Some(
            EngineIntent::Eq(spec_engine_deck(deck), EqBand::Mid, v),
        ),
        spec_route(Action::EqHigh { deck }, ControlValue::Absolute(v), sample_rate) == Some(
            EngineIntent::Eq(spec_engine_deck(deck), EqBand::High, v),
        ),
{
}

/// Every mixer control reaches its own engine parameter with the reading
/// unchanged: deck volume and pitch on the event's deck; crossfader,
/// master gain, cue mix and headphone gain globally.
pub proof fn lemma_mixer_controls_reach_their_parameter<A>(deck: Deck, v: A, sample_rate: u32)
    ensures
        spec_route(Action::Volume { deck }, ControlValue::Absolute(v), sample_rate) == Some(
            EngineIntent::DeckVolume(spec_engine_deck(deck), v),
        ),
        spec_route(Action::Pitch { deck }, ControlValue::Absolute(v), sample_rate) == Some(
            EngineIntent::Pitch(spec_engine_deck(deck), v),
        ),
        spec_route(Action::CrossFader, ControlValue::Absolute(v), sample_rate) == Some(
            EngineIntent::Crossfader(v),
        ),
        spec_route(Action::MasterGain, ControlValue::Absolute(v), sample_rate) == Some(
            EngineIntent::MasterGain(v),
        ),
        spec_route(Action::CueMix, ControlValue::Absolute(v), sample_rate) == Some(EngineIntent::CueMix(v)),
        spec_route(Action::HeadphoneGain, ControlValue::Absolute(v), sample_rate) == Some(
            EngineIntent::HeadphoneGain(v),
        ),
{
}

/// Transport buttons: a toggle plays when it turns on and pauses when it
/// turns off; a press plays and its release does nothing; the cue button
/// sends its press and its release; the headphone cue follows its toggle
/// or button — all on the event's deck.
pub proof fn lemma_transport_buttons<A>(deck: Deck, on: bool, sample_rate: u32)
    ensures
        spec_route::<A>(Action::Play { deck }, ControlValue::Toggled(on), sample_rate) == Some(
            if on {
                EngineIntent::<A>::Play(spec_engine_deck(deck))
            } else {
                EngineIntent::<A>::Pause(spec_engine_deck(deck))
            },
        ),
        spec_route::<A>(Action::Play { deck }, ControlValue::Pressed(true), sample_rate) == Some(
            EngineIntent::<A>::Play(spec_engine_deck(deck)),
        ),
        spec_route::<A>(Action::Play { deck }, ControlValue::Pressed(false), sample_rate) is None,
        spec_route::<A>(Action::Cue { deck }, ControlValue::Pressed(on), sample_rate) == Some(
            if on {
                EngineIntent::<A>::CuePress(spec_engine_deck(deck))
            } else {
                EngineIntent::<A>::CueRelease(spec_engine_deck(deck))
            },
        ),
        spec_route::<A>(Action::HeadphoneCue { deck }, ControlValue::Toggled(on), sample_rate) == Some(
            EngineIntent::<A>::CueEnabled(spec_engine_deck(deck), on),
        ),
        spec_route::<A>(Action::HeadphoneCue { deck }, ControlValue::Pressed(on), sample_rate) == Some(
            EngineIntent::<A>::CueEnabled(spec_engine_deck(deck), on),
        ),
{
}

/// A seek of `seconds` moves the event's deck by `seconds` times the
/// stream rate frames: forward for positive seconds, back for negative.
pub proof fn lemma_seek_moves_by_seconds<A>(deck: Deck, seconds: i32, sample_rate: u32)
    ensures
        spec_route::<A>(Action::Seek { deck }, ControlValue::Relative(seconds), sample_rate) matches Some(
            EngineIntent::SeekRelative(d, frames),
        ) && d == spec_engine_deck(deck) && frames == seconds * sample_rate,
{
    assert(-0x8000_0000_0000_0000 <= seconds * sample_rate < 0x8000_0000_0000_0000) by (nonlinear_arith);
}

} // verus!
