//! The identity token of a scene object.
//!
//! Identities are issued by an external entity allocator; this crate neither
//! allocates nor frees them, it only stores them and compares them for
//! equality when resolving an object slot.

use vstd::prelude::*;

verus! {

/// An opaque, externally issued token uniquely identifying a scene object,
/// compared only by equality. The two fields mirror the slot index and the
/// reuse generation that entity allocators commonly issue; this crate reads
/// neither, it only compares whole tokens.
#[derive(Clone, Copy, PartialEq, Eq, Structural, Debug)]
pub struct EntityId {
    pub index: u32,
    pub generation: i32,
}

} // verus!
