//! Transport of one deck with vinyl cue semantics, resolved by the engine
//! which knows its state: while playing, the cue button stops and returns
//! to the cue point; stopped elsewhere than the cue point, it sets the cue
//! point there; stopped on the cue point, it pre-listens for as long as the
//! button is held.
//!
//! Positions are of type `P` (fractional frames in the audio graph): the
//! transport only copies them. Whether the deck stands on its cue point is
//! a comparison of positions made by the caller.

use vstd::prelude::*;

verus! {

/// Transport state of a deck.
#[derive(Debug, Clone, Copy, PartialEq)]
pub struct DeckTransport<P> {
    /// A track is loaded.
    pub has_track: bool,
    pub playing: bool,
    /// Temporary playback while the cue button is held.
    pub previewing: bool,
    /// Playback position.
    pub position: P,
    /// Cue point.
    pub cue_point: P,
}

pub open spec fn spec_play<P>(t: DeckTransport<P>) -> DeckTransport<P> {
    DeckTransport { playing: t.has_track, previewing: false, ..t }
}

pub open spec fn spec_pause<P>(t: DeckTransport<P>) -> DeckTransport<P> {
    DeckTransport { playing: false, previewing: false, ..t }
}

pub open spec fn spec_cue_press<P>(t: DeckTransport<P>, at_cue_point: bool) -> DeckTransport<P> {
    if !t.has_track {
        t
    } else if t.playing && !t.previewing {
        DeckTransport { playing: false, position: t.cue_point, ..t }
    } else if !t.playing {
        if at_cue_point {
            DeckTransport { previewing: true, playing: true, ..t }
        } else {
            DeckTransport { cue_point: t.position, ..t }
        }
    } else {
        t
    }
}

pub open spec fn spec_cue_release<P>(t: DeckTransport<P>) -> DeckTransport<P> {
    if t.previewing {
        DeckTransport { previewing: false, playing: false, position: t.cue_point, ..t }
    } else {
        t
    }
}

impl<P: Copy> DeckTransport<P> {
    /// Empty deck stopped at `start`, cue point at `start`.
    pub fn new(start: P) -> (r: Self)
        ensures
            r == (DeckTransport { has_track: false, playing: false, previewing: false, position: start, cue_point: start }),
    {
        DeckTransport { has_track: false, playing: false, previewing: false, position: start, cue_point: start }
    }

    /// Play: starts the deck when a track is loaded; ends any pre-listen
    /// (playback then goes on after the cue button is released).
    pub fn play(&mut self)
        ensures
            *final(self) == spec_play(*old(self)),
            final(self).playing == old(self).has_track,
            !final(self).previewing,
            final(self).position == old(self).position,
            final(self).cue_point == old(self).cue_point,
            final(self).has_track == old(self).has_track,
    {
        self.playing = self.has_track;
        self.previewing = false;
    }

    /// Pause.
    pub fn pause(&mut self)
        ensures
            *final(self) == spec_pause(*old(self)),
            !final(self).playing,
            !final(self).previewing,
            final(self).position == old(self).position,
            final(self).cue_point == old(self).cue_point,
            final(self).has_track == old(self).has_track,
    {
        self.playing = false;
        self.previewing = false;
    }

    /// Cue button pressed; `at_cue_point` tells whether the deck stands on
    /// its cue point.
    pub fn cue_press(&mut self, at_cue_point: bool)
        ensures
            *final(self) == spec_cue_press(*old(self), at_cue_point),
    {
        if !self.has_track {
            return;
        }
        if self.playing && !self.previewing {
            self.playing = false;
            self.position = self.cue_point;
        } else if !self.playing {
            if at_cue_point {
                self.previewing = true;
                self.playing = true;
            } else {
                self.cue_point = self.position;
            }
        }
    }

    /// Cue button released: end of pre-listen, back to the cue point.
    pub fn cue_release(&mut self)
        ensures
            *final(self) == spec_cue_release(*old(self)),
    {
        if self.previewing {
            self.previewing = false;
            self.playing = false;
            self.position = self.cue_point;
        }
    }

    /// A track replaced (`loaded`) or removed: the deck stops at `start`.
    pub fn set_track(&mut self, loaded: bool, start: P)
        ensures
            *final(self) == (DeckTransport { has_track: loaded, playing: false, position: start, ..*old(self) }),
    {
        self.has_track = loaded;
        self.position = start;
        self.playing = false;
    }

    /// End of the track reached during playback: the deck stops there.
    pub fn reach_end(&mut self)
        ensures
            *final(self) == (DeckTransport { playing: false, ..*old(self) }),
    {
        self.playing = false;
    }
}

/// Stopped away from the cue point, a press sets the cue point at the
/// current position and the release changes nothing: the deck stays
/// stopped there.
pub proof fn lemma_cue_sets_point_when_stopped<P>(t: DeckTransport<P>)
    requires
        t.has_track,
        !t.playing,
        !t.previewing,
    ensures
        spec_cue_release(spec_cue_press(t, false)) == (DeckTransport { cue_point: t.position, ..t }),
{
}

/// Stopped on the cue point, holding the button pre-listens; whatever the
/// playback did meanwhile, the release stops the deck back on the cue point.
pub proof fn lemma_cue_preview_returns<P>(t: DeckTransport<P>, moved: P)
    requires
        t.has_track,
        !t.playing,
        !t.previewing,
    ensures
        spec_cue_press(t, true).playing,
        spec_cue_press(t, true).previewing,
        spec_cue_release(DeckTransport { position: moved, ..spec_cue_press(t, true) }) == (DeckTransport {
            playing: false,
            previewing: false,
            position: t.cue_point,
            ..t
        }),
{
}

/// While playing, a press stops the deck on its cue point, and the release
/// leaves it there.
pub proof fn lemma_cue_stops_playback<P>(t: DeckTransport<P>, at_cue_point: bool)
    requires
        t.has_track,
        t.playing,
        !t.previewing,
    ensures
        spec_cue_release(spec_cue_press(t, at_cue_point)) == (DeckTransport {
            playing: false,
            position: t.cue_point,
            ..t
        }),
{
}

/// Play during a pre-listen turns it into normal playback: the release of
/// the cue button no longer stops the deck.
pub proof fn lemma_play_during_preview_keeps_playing<P>(t: DeckTransport<P>, moved: P)
    requires
        t.has_track,
        t.previewing,
    ensures
        spec_cue_release(spec_play(DeckTransport { position: moved, ..t })).playing,
        spec_cue_release(spec_play(DeckTransport { position: moved, ..t })).position == moved,
{
}

/// An empty deck never plays and ignores the cue button.
pub proof fn lemma_empty_deck_inert<P>(t: DeckTransport<P>, at_cue_point: bool)
    requires
        !t.has_track,
    ensures
        !spec_play(t).playing,
        spec_cue_press(t, at_cue_point) == t,
{
}


/// Pause stops the deck whatever its state before — normal playback or a
/// cue pre-listen — and leaves the track, the position and the cue point
/// where they were.
pub proof fn lemma_pause_stops<P>(t: DeckTransport<P>)
    ensures
        !spec_pause(t).playing,
        !spec_pause(t).previewing,
        spec_pause(t).position == t.position,
        spec_pause(t).cue_point == t.cue_point,
        spec_pause(t).has_track == t.has_track,
{
}

/// Play starts exactly the decks that hold a track, ends any pre-listen,
/// and moves nothing; play then pause leaves a stopped deck where it was.
pub proof fn lemma_play_then_pause<P>(t: DeckTransport<P>)
    ensures
        spec_play(t).playing == t.has_track,
        !spec_play(t).previewing,
        spec_play(t).position == t.position,
        spec_play(t).cue_point == t.cue_point,
        !t.playing && !t.previewing ==> spec_pause(spec_play(t)) == t,
{
}

} // verus!
