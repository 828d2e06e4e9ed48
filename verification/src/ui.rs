//! The orthographic overlay projection for UI rendering.
//!
//! The projection spans `[-aspect, aspect] x [-1, 1] x [-1, 1]`: symmetric
//! about the origin, horizontal extent scaling with the viewport aspect,
//! vertical extent fixed at unit half-height. It is therefore determined
//! completely by the aspect ratio, which is all the projection type records;
//! the instantiator expands it into an actual orthographic matrix. There is
//! no mutation operation: resizing the overlay means rebuilding it.

use vstd::prelude::*;

verus! {

/// An orthographic projection spanning `[-aspect, aspect] x [-1, 1] x [-1, 1]`.
/// Symmetry about the origin and the unit half-height are structural: the type
/// can represent nothing else, so only the aspect is recorded.
#[derive(Clone, Copy, PartialEq, Debug)]
pub struct UiProjection<S> {
    pub aspect: S,
}

/// The UI overlay: its orthographic projection.
#[derive(Clone, Copy, PartialEq, Debug)]
pub struct UI<S> {
    pub proj: UiProjection<S>,
}

impl<S> UI<S> {
    /// Builds the overlay projection for the given viewport aspect.
    pub fn new(aspect: S) -> (r: UI<S>)
        ensures
            r.proj.aspect == aspect,
    {
        UI { proj: UiProjection { aspect } }
    }
}

} // verus!
