//! A minimal entity-component store: a registry that hands out generational
//! entity handles and attaches heterogeneously-typed component payloads to
//! them, routed by an explicit type key.
//!
//! `entity` holds the handle type, `column` the per-type slot storage with its
//! runtime accessor discipline, and `world` the registry that owns the slot
//! table, the free list and all columns.

pub mod column;
pub mod entity;
pub mod world;
