//! Inspects the footer metadata and per-column statistics of Parquet-style
//! tabular files and renders a structured JSON summary.
//!
//! The crate is organised bottom-up:
//! - [`types`] holds the plain data model: a file footer, schema entries,
//!   per-column statistics, summaries and the error taxonomy.
//! - [`meta`] derives shape, schema and creator information from a footer.
//! - [`provenance`] parses the optional embedded pandas provenance record.
//! - [`stats`] accumulates per-batch null counts into per-file totals.
//! - [`listing`] classifies paths, validates detail levels and applies the
//!   directory extension filter.
//! - [`json`] renders summaries as compact or pretty JSON text.
//! - [`summary`] composes the pieces into per-file and per-directory results.

//!
//! Reading footers and data batches from disk is left to the caller, which
//! hands the library plain values; everything the library computes from
//! them is verified against the contracts stated here.

pub mod json;
pub mod listing;
pub mod meta;
pub mod provenance;
pub mod stats;
pub mod summary;
pub mod types;
