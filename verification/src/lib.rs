//! Batch subtitle translation pipeline.
//!
//! An ordered sequence of time-coded transcript segments is partitioned into
//! fixed-size windows; each window is translated into a target language,
//! optionally refined against editorial instructions, optionally filtered by
//! content conditions, and then summarized to carry narrative context into the
//! next window. Positional correspondence between input and output segments is
//! preserved by construction: decoding of model replies is tolerant, and every
//! unresolved reply position falls back to a well-defined text.
//!
//! The library itself performs no I/O: it builds provider requests, decides on
//! responses (including the single bounded negotiation retry), and assembles
//! outputs. A thin driver performs the HTTP calls and hands the reply text
//! back.

pub mod codec;
pub mod config;
pub mod json;
pub mod lang;
pub mod output;
pub mod pipeline;
pub mod provider;
pub mod segment;
pub mod stages;
pub mod text;

use vstd::prelude::*;

verus! {

/// The window size used when a run configuration gives none.
pub const DEFAULT_WINDOW_SIZE: usize = 100;

} // verus!
