//! MIDI side of the controller: the generic mapping engine (MIDI event →
//! action), the routing of events toward the audio engine, and the LED
//! feedback engine (state change → MIDI message).

use vstd::prelude::*;

pub mod feedback;
pub mod hotplug;
pub mod route;
pub mod translate;

verus! {

/// Raw MIDI event with its timestamp (µs, clock of the MIDI backend).
#[derive(Debug, Clone)]
pub struct RawMidiEvent {
    pub timestamp_us: u64,
    pub bytes: Vec<u8>,
}

/// Connection status of the controller, shown by the UI.
#[derive(Debug, Clone, PartialEq)]
pub enum MidiStatus {
    Connected(String),
    Disconnected,
}

} // verus!
