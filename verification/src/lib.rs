//! Map-asset loading and dependency-resolution pipeline for a 2D tile game.
//!
//! A map file in a small XML-like markup dialect references object templates
//! and spritesheets by relative path; templates reference spritesheets, and
//! spritesheets reference images.  The crate parses these files, resolves the
//! relative references, tracks the transitive closure of pending assets, and
//! assembles fully resolved map data that a host application can spawn from,
//! driven by a registry of per-tag component hydrators.

pub mod assemble;
pub mod hydrate;
pub mod loaders;
pub mod num;
pub mod property;
pub mod resolve;
pub mod store;
pub mod text;
pub mod xml;
