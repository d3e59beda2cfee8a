//! Builds a dependency graph out of package manifests and renders it in the
//! DOT graph-description language.

pub mod graph;
pub mod manifest;
pub mod render;
