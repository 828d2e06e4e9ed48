//! The world camera: a view transform and a perspective projection.
//!
//! The projection is held as its four parameters (aspect ratio, vertical field
//! of view, near plane, far plane). Scalar arithmetic — converting a field of
//! view from degrees, building the actual projection matrix — is left to the
//! instantiator, so the scalar type `S` and the view-transform type `W` are
//! opaque payloads here.

use vstd::prelude::*;

verus! {

/// A perspective projection: camera-space to clip-space mapping, recorded as
/// the four parameters that determine it.
#[derive(Clone, Copy, PartialEq, Debug)]
pub struct Perspective<S> {
    pub aspect: S,
    pub fovy: S,
    pub znear: S,
    pub zfar: S,
}

/// The camera: a world-to-view transform and a perspective projection.
#[derive(Clone, Copy, PartialEq, Debug)]
pub struct Camera<S, W> {
    pub view: W,
    pub proj: Perspective<S>,
}

impl<S, W> Camera<S, W> {
    /// Builds a camera from the projection parameters and an initial view
    /// transform. The caller supplies the vertical field of view already in
    /// its final unit (radians, for the usual instantiation) together with
    /// the near and far planes, since scalar arithmetic is outside this
    /// crate's scope.
    pub fn new(aspect: S, fovy: S, znear: S, zfar: S, view: W) -> (r: Camera<S, W>)
        ensures
            r.proj == (Perspective { aspect, fovy, znear, zfar }),
            r.view == view,
    {
        Camera { view, proj: Perspective { aspect, fovy, znear, zfar } }
    }

    /// Updates only the aspect ratio of the existing projection, preserving
    /// field of view and clip planes; the view transform is untouched. Must
    /// be called whenever the viewport aspect changes.
    pub fn recalculate(&mut self, aspect: S)
        ensures
            final(self).proj == (Perspective { aspect, ..old(self).proj }),
            final(self).view == old(self).view,
    {
        self.proj.aspect = aspect;
    }

    /// Replaces the view transform outright; the caller supplies an already
    /// inverted camera-to-world transform.
    pub fn set_view(&mut self, view: W)
        ensures
            final(self).view == view,
            final(self).proj == old(self).proj,
    {
        self.view = view;
    }
}

} // verus!
