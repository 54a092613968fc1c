//! Entity handles: lightweight, copyable identifiers for the objects a
//! registry manages.

use vstd::prelude::*;

verus! {

/// An opaque handle to one logical object in a registry.
///
/// `id` is the slot position in the registry's entity table; `gen` tells
/// apart successive occupants of the same slot, so a handle kept across a
/// destroy-and-reuse cycle no longer matches the table. Two handles denote
/// the same live object only when both fields agree.
#[derive(Clone, Copy, Debug, Hash, PartialEq, Eq, Structural)]
pub struct Entity {
    pub id: usize,
    pub gen: u32,
}

} // verus!
