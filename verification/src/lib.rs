//! A verified model of an FPGA profiling report: the schema of the
//! tag-discriminated, string-encoded profile document, and the statistics
//! engine that folds per-sample-interval arrays into time-weighted summary
//! metrics, with interval-overlap deduplication for wall-time normalization.

pub mod aggregate;
pub mod data_model;
pub mod decode;
pub mod group;
pub mod json;
pub mod laws;
pub mod module_instance_details;
pub mod numeric;
pub mod order;
pub mod render;
pub mod report;
