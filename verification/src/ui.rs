//! Immediate-mode UI widgets drawn by the renderer's own controls.

use vstd::prelude::*;

verus! {

/// A button widget rendered by the 3D UI layer rather than the GUI library's
/// painter, so it keeps the renderer's native look.
#[derive(Debug)]
pub struct SkButton {
    pub text: String,
}

impl SkButton {
    pub fn new(text: &str) -> (r: Self)
        ensures
            r.text@ == text@,
    {
        SkButton { text: text.to_owned() }
    }
}

} // verus!
