//! Podcast archiving, verified.
//!
//! The crate turns a feed document into a list of episodes, derives a
//! filesystem-safe name for every episode and for the feed's directory, and
//! decides, step by step, how an episode's transfer proceeds and what the
//! progress display shows. Everything here computes on plain values; reading
//! from the network and writing to disk is left to the caller.

pub mod text;
pub mod decimal;
pub mod sanitize;
pub mod timestamp;
pub mod rfc2822;
pub mod podchiver;
pub mod outline;
pub mod progress_indicator;
pub mod download;

pub use crate::podchiver::{Episode, Podcast};
pub use crate::progress_indicator::ProgressIndicator;
