//! Microtonal retuning for MIDI: a codec for MIDI channel messages and MIDI Tuning Standard
//! messages, tuners that spread the keys of any scale over a range of output channels (ahead
//! of time, with a fixed key-to-channel map, or just in time, as keys are pressed), the
//! decisions of the live retuning service and of a synthesizer's MIDI output, and the layout
//! of the synthesizer's waveform descriptions.
pub mod aot;
pub mod backend;
pub mod jit;
pub mod keypress;
pub mod live;
pub mod magnetron;
pub mod midi;
pub mod mts;
pub mod pitch;
pub mod tuner;
