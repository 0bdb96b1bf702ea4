//! Label printing through a local print subsystem: finding printers, tracking
//! one print job at a time to completion or timeout, and marking printed
//! label files as used.
//!
//! The library performs no input or output. Whatever must be read from or done
//! to the outside world is described as a request; the caller performs it and
//! hands back what happened.
//!
//! - `text`: substring search, lines, tokens and trimming.
//! - `printers`: the printers that qualify, and the operator's choice.
//! - `jobs`: what the listings of outstanding and completed jobs say.
//! - `queue`: the label files of a directory and their marking as used.
//! - `tracker`: one print job from submission to completion or timeout.
//! - `batch`: the files of a directory, printed one after the other.
//! - `runs`: what holds of a batch whatever comes in.

pub mod batch;
pub mod jobs;
pub mod printers;
pub mod queue;
pub mod runs;
pub mod text;
pub mod tracker;
