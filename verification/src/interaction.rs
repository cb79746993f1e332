//! Hand-grab interaction markers.
//!
//! The grab itself — pinch detection, bounds tests and the palm-relative
//! transform arithmetic — runs on the tracking data in the host layer; these
//! are the scene-level tags it reads and writes.

use vstd::prelude::*;

use crate::Transform;

verus! {

/// Tag excluding an object from hand-grab interaction.
#[derive(Clone, Copy, Debug, PartialEq, Eq, Structural)]
pub struct DoNotInteract;

/// The anchor of an active grab: the offset between the pinching palm and the
/// object at the moment the grab began.  Present exactly while the object is
/// held; releasing the pinch removes it.
#[derive(Clone, Copy, Debug, PartialEq, Eq, Structural)]
pub struct TransformDifference(pub Transform);

impl TransformDifference {
    pub fn new(offset: Transform) -> (r: Self)
        ensures
            r == TransformDifference(offset),
    {
        TransformDifference(offset)
    }
}

} // verus!
