//! Static vulnerability scanning: grammar adapters, control-flow graphs,
//! capability-based taint tracking and the bookkeeping of an incremental
//! result cache.

pub mod analyzer;
pub mod cache;
pub mod cfg;
pub mod cli;
pub mod config;
pub mod diag;
pub mod errors;
pub mod ext;
pub mod graph;
pub mod invariants;
pub mod origin;
pub mod labels;
pub mod lattice;
pub mod patterns;
pub mod project;
pub mod scan;
pub mod summary;
pub mod syntax;
pub mod taint;
pub mod text;
pub mod walk;
