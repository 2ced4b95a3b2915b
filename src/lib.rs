//! Provenance-tracked discovery traces with multilingual memory folding and
//! per-contributor statistics.
//!
//! Every score in this crate is a fixed-point number counted in thousandths:
//! `1000` stands for `1.0`. Derived scores (means, ratios, weighted sums) are
//! computed exactly and rounded down to a whole thousandth.
pub mod text;
pub mod serendipity_trace;
#[allow(non_snake_case)]
pub mod AgentEvent;
pub mod fold_multilingual_memory;
#[allow(non_snake_case)]
pub mod ContributorStats;
#[allow(non_snake_case)]
pub mod Journavx_Discovery;
