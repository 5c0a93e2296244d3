//! Distinct partition values of a snapshot-based table, per partition
//! specification and per partition field.
//!
//! A table's current snapshot points at a list of manifests; each manifest was
//! written under one partition specification and registers data files together
//! with their partition tuples. This crate folds the live entries of all those
//! manifests into per-specification, per-field sets of distinct values and
//! renders the result as a plain-text table.
//!
//! - [`value`], [`manifest`] and [`metadata`] hold the data: partition values,
//!   manifest entries, partition specifications and table metadata.
//! - [`rules`] says what the aggregate of a list of manifests is.
//! - [`distinct`], [`aggregate`] and [`aggregator`] build it.
//! - [`text`] and [`report`] render it.
//! - [`survey`] decides, step by step, what a caller that loads the manifest
//!   list and the manifests is to load next.
//! - [`banner`] renders what is said of the table itself.
//! - [`laws`], [`merge_laws`] and [`survey_laws`] prove what holds of all of
//!   this, whatever the input.

pub mod aggregate;
pub mod aggregator;
pub mod banner;
pub mod distinct;
pub mod error;
pub mod laws;
pub mod manifest;
pub mod merge_laws;
pub mod metadata;
pub mod report;
pub mod rules;
pub mod survey;
pub mod survey_laws;
pub mod text;
pub mod value;
