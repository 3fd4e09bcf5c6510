//! Rescales the timestamps of a subtitle track whose timing has drifted
//! linearly from its video. Two reference instants, one read in the track and
//! one in the video, give a ratio; every cue line `HH:MM:SS,mmm --> HH:MM:SS,mmm`
//! has both instants stretched by it, and every other line is kept as it is.
use vstd::prelude::*;

pub mod decimal;
pub mod error;
pub mod laws;
pub mod ratio;
pub mod rewrite;
pub mod timecode;
pub mod timerange;

pub use error::SyncError;
pub use ratio::{compute_ratio, Ratio};
pub use rewrite::{transform, update_line};
pub use timecode::TimeCode;
pub use timerange::TimeRange;

verus! {

} // verus!
