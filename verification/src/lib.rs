//! Detects which color-coded tab-group band of a browser window the mouse
//! cursor rests over, from a captured strip of pixels, and frames the result
//! for a message relay.
//!
//! The library holds the verified logic: the color catalog and classifier,
//! the pixel-grid model of a captured strip, the window-resolution heuristic,
//! the horizontal scan state machine, the debug-strip renderer, and the
//! relay's framing and reply codec. The platform glue (cursor query, window
//! enumeration, screen capture, I/O) lives outside and hands this library
//! plain values.

pub mod color;
pub mod debug;
pub mod grid;
pub mod json;
pub mod relay;
pub mod scan;
pub mod text;
pub mod window;

use vstd::prelude::*;

verus! {

} // verus!
