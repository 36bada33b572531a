//! ober — verified core of a two-deck DJ mixing engine.
//!
//! The library holds the decisions of the mixer: the controller mapping
//! model and its validation, the generic MIDI → action translation engine
//! (shift layer, toggles, relative encoders), the routing of control events
//! toward the audio engine, the LED feedback diff engine, the vinyl cue
//! transport, the output-stream device choice and attempt plan, the library
//! browser cursor and its listings, the meaning of the on-screen buttons,
//! and the idle power state machine.
//! Signal processing (filters, interpolation, levels) is floating-point
//! work and lives with the application shell.

pub mod browser;
pub mod decode;
pub mod engine;
pub mod listing;
pub mod mapping;
pub mod midi;
pub mod power;
pub mod widgets;
