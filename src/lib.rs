//! Default-sink volume control over an audio-server object dump.
//!
//! Volumes and percentages are fixed-point integers: one unit is a millionth
//! (see [`volume::SCALE`]).
use vstd::prelude::*;

pub mod dump;
pub mod resolve;
pub mod text;
pub mod volume;
pub mod percent;
pub mod plan;
pub mod report;
pub mod laws;
