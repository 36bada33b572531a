//! Audio engine model: deck identifiers, format constants, and the
//! integer/boolean parts of the engine (transport, stream plan, tracks).

use vstd::prelude::*;

pub mod eq;
pub mod stream;
pub mod track;
pub mod transport;

verus! {

/// Preferred sample rate of the engine (interleaved stereo at 48 kHz). The
/// engine actually runs at the rate of the output stream that was opened.
pub const PREFERRED_SAMPLE_RATE: u32 = 48_000;

/// Interleaved channel count of a track buffer.
pub const CHANNELS: usize = 2;

/// Requested buffer size in frames (128–256 target), clamped to what the
/// device supports.
pub const TARGET_BUFFER_FRAMES: u32 = 256;

/// Largest callback block the audio graph processes in one go.
pub const MAX_BLOCK_FRAMES: usize = 8_192;

/// Deck identifier of the engine (two decks).
#[derive(Debug, Clone, Copy, PartialEq, Eq, Hash, Structural)]
pub enum Deck {
    A,
    B,
}

impl Deck {
    /// Position of the deck in per-deck arrays.
    pub open spec fn spec_index(self) -> int {
        match self {
            Deck::A => 0,
            Deck::B => 1,
        }
    }

    /// Position of the deck in per-deck arrays: `A` → 0, `B` → 1.
    pub fn index(self) -> (r: usize)
        ensures
            r == self.spec_index(),
            r < 2,
    {
        match self {
            Deck::A => 0,
            Deck::B => 1,
        }
    }
}

/// Distinct decks occupy distinct slots of a per-deck array.
pub proof fn lemma_deck_index_injective(a: Deck, b: Deck)
    ensures
        a.spec_index() == b.spec_index() <==> a == b,
{
}

} // verus!
