//! Driver logic for a two-unit dot-matrix LED display on a bit-banged
//! strobe/clock/data bus: glyph encoding, frame layout and animation, and the
//! wire protocol, each computed as plain values that a hardware layer plays
//! out; and the texts that the system monitor shows on it.
pub mod glyph;
pub mod modules;
pub mod monitor;
pub mod procfs;
pub mod protocol;
pub mod render;
pub mod schedule;
pub mod screen;
pub mod text;
pub mod traffic;
