//! The point of view that the world is drawn from.

use glam::Vec3;
use vstd::prelude::*;

verus! {

/// `glam::Vec3`: three floating-point coordinates. Nothing inside it is
/// visible here; vectors are only stored and handed back.
#[verifier::external_type_specification]
#[verifier::external_body]
pub struct ExVec3(glam::Vec3);

/// `glam::Vec3::default`: the vector that the crate starts from. Nothing is
/// claimed of it.
#[verifier::external_body]
fn default_vector() -> Vec3 {
    Vec3::default()
}

/// A position and a direction of sight, with a mark that tells the renderer
/// whether they moved since the last frame.
pub struct Camera {
    is_updated: bool,
    pub pos: Vec3,
    pub ang: Vec3,
}

/// The mathematical content of a [`Camera`].
pub struct CameraView {
    pub updated: bool,
    pub pos: Vec3,
    pub ang: Vec3,
}

impl View for Camera {
    type V = CameraView;

    closed spec fn view(&self) -> CameraView {
        CameraView { updated: self.is_updated, pos: self.pos, ang: self.ang }
    }
}

impl Default for Camera {
    /// A camera that is not marked as moved, with the default vector for
    /// both its position and its direction.
    fn default() -> (camera: Self)
        ensures
            !camera@.updated,
            camera@.pos == camera@.ang,
    {
        let origin = default_vector();
        Self { is_updated: false, pos: origin, ang: origin }
    }
}

impl Camera {
    /// A camera at `pos` looking along `ang`, not marked as moved.
    pub fn new(pos: Vec3, ang: Vec3) -> (camera: Self)
        ensures
            camera@ == (CameraView { updated: false, pos, ang }),
    {
        Self { is_updated: false, pos, ang }
    }

    /// Sets or clears the mark. Position and direction stay.
    pub fn set_updated(&mut self, is_updated: bool)
        ensures
            final(self)@ == (CameraView { updated: is_updated, ..old(self)@ }),
    {
        self.is_updated = is_updated;
    }

    /// Whether the camera is marked as moved.
    pub fn is_updated(&self) -> (marked: bool)
        ensures
            marked == self@.updated,
    {
        self.is_updated
    }
}

} // verus!
