//! Verified core of a beat-driven DMX light show: the byte layout of the
//! analysis files, the transient scanner's skip schedule, the light cue
//! scheduler that follows a rhythm during playback, the spectrum band layout,
//! the frames a tempo is estimated from, and the DMX frame that drives two
//! moving-head fixtures.

mod le_bytes;
pub mod analysis_file;
pub mod dmx;
pub mod transients;
pub mod playback;
pub mod spectrum;
pub mod frames;
