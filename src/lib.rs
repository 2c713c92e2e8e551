//! Walks the symbol graph of rustdoc JSON output across compilation units,
//! following re-exports, and collects one document for each struct reached.
use vstd::prelude::*;

pub mod distance;
pub mod document;
pub mod laws;
pub mod path;
pub mod symbols;
pub mod walk;
