//! Run a single source file as a script: read the build recipe embedded in
//! it, decide whether the cached build is still fresh, and plan the steps
//! that rebuild it.
//!
//! The library computes; it performs no input or output. Callers read files
//! and clocks, hand the values in, and carry out the steps handed back.

pub mod paths;
pub mod text;
pub mod opt;
pub mod cfg;
pub mod builder;
pub mod staleness;
pub mod common;
pub mod cache;
pub mod templates;
pub mod editor;
pub mod target;
