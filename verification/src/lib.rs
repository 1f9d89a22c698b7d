//! A verified renderer for ISO 11783-6 virtual-terminal object pools.
//!
//! An object pool is a hierarchical, identifier-addressed scene description:
//! typed graphical objects refer to each other by integer identifiers and are
//! composited recursively at relative pixel offsets.  The renderer walks such
//! a tree and produces a sequence of paint commands for a 2D drawing surface,
//! resolving colour, font, line and fill attributes through the pool,
//! decoding packed-pixel picture graphics into rasters, and caching decoded
//! rasters across render passes keyed by a content hash.
//!
//! Broken references never abort a render pass: an unresolved or
//! type-mismatched reference degrades to a single diagnostic paint command
//! and sibling content still renders.

pub mod cache;
pub mod change;
pub mod commands;
pub mod laws;
pub mod picture;
pub mod pool;
pub mod render;
