//! Rendering of still and animated images inside a terminal emulator.
//!
//! A picture goes through four stages: its bytes are decoded into raster
//! frames, every frame is scaled into the pixel box of the terminal, every
//! pair of pixel rows is encoded as one line of truecolor escape sequences
//! around the lower half block, and a playback controller decides what is
//! written to the terminal and when its state is put back.

pub mod ansi;
pub mod cli;
pub mod compose;
pub mod decode;
pub mod encode;
pub mod frame;
pub mod playback;
pub mod scale;
pub mod terminal;
pub mod trace;
