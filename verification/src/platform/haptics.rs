//! Whether haptic feedback can be delivered.
use vstd::prelude::*;

verus! {

/// Haptic feedback through the trackpad. A headless application has no trackpad to tap,
/// so feedback is unsupported there.
pub struct MacHaptics {
    supported: bool,
}

impl MacHaptics {
    /// Whether feedback is delivered.
    pub closed spec fn is_supported(&self) -> bool {
        self.supported
    }

    /// Haptics for an application that is headless or not.
    pub fn new(headless: bool) -> (r: Self)
        ensures
            r.is_supported() == !headless,
    {
        MacHaptics { supported: !headless }
    }

    /// Whether feedback is delivered.
    pub fn supported(&self) -> (r: bool)
        ensures
            r == self.is_supported(),
    {
        self.supported
    }
}

} // verus!
