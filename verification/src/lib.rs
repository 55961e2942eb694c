//! Distance metrics for fixed-length numeric vectors.
//!
//! This crate provides the metric-selection layer of a vector-search engine:
//! parsing metric names, producing their canonical display form, and the
//! order-preserving batch evaluation scheme that applies a pairwise distance
//! kernel to every row of a flat candidate buffer.

pub mod batch;
pub mod distance;
