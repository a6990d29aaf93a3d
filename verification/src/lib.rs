//! A practice metronome: bar notation, tempo schedules and the playback
//! engine that turns a schedule into precisely timed beats.

pub mod composition;
pub mod configuration;
pub mod scheduling;
pub mod playback;
pub mod sound;
