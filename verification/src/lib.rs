//! Workspace discovery and validation for multi-package projects.
//!
//! Given an in-memory picture of the directories that hold manifests, this
//! library locates the workspace root for an entry manifest, expands the
//! root's member patterns, follows local path dependencies to collect every
//! member, and validates the structural invariants that must hold across
//! them (a single root, unique package names, hierarchical containment,
//! entry membership, and root-only build profiles).

pub mod path;
pub mod manifest;
pub mod fsys;
pub mod errors;
pub mod cache;
pub mod glob_ext;
pub mod discover;
pub mod collect;
pub mod validate;
pub mod workspace;
pub mod laws;
