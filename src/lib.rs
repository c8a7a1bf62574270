//! A video editor's timeline export pipeline, with the models around it.
//!
//! The export core: [`timeline`] computes durations, [`manifest`] flattens
//! the main track into the encoder's segment list, [`command`] turns
//! export settings into an encoder invocation, [`progress`] reads the
//! encoder's diagnostic lines, [`job`] holds the job state machine and
//! registry, and [`export`] ties them together for one request.
//!
//! Around it: export and project settings, media items and probe reports,
//! timeline editing, captions and SRT files, recording sessions and the
//! platform capture back ends. Times are integers in microseconds (caption
//! times in milliseconds); rates and fractions are integers in thousandths
//! or millionths.
//!
//! Effects (files, processes, the clock, random ids) stay with the caller,
//! except for a few trusted calls for ids, the time, and text functions of
//! the standard library.

pub mod settings;
pub mod timeline;
pub mod media;
pub mod manifest;
pub mod command;
pub mod progress;
pub mod job;
pub mod export;
pub mod project;
pub mod recording;
pub mod platform;
pub mod captions;
pub mod editing;
pub mod probe;
pub mod text;
mod ids;
mod clock;
