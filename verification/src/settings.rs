//! The runtime settings store: the externally adjustable parameters the
//! transform engine reads once per frame.

use vstd::prelude::*;

verus! {

/// Runtime parameters of the transform.
///
/// `shift` is added to every gray value with wraparound; `invert` flips the
/// gray scale. Both may be adjusted between frames from a control path; the
/// engine reads one consistent snapshot per frame. Exclusive access for
/// writers is enforced through Rust's `&mut` discipline: a host that shares
/// the filter across execution contexts guards it with a mutual-exclusion
/// primitive of its own.
#[derive(Clone, Copy, Debug, PartialEq, Eq, Structural)]
pub struct Settings {
    /// Whether the gray output is inverted. Default: `false`.
    pub invert: bool,
    /// Wrapping brightness shift added to each gray value. Default: `0`.
    pub shift: u8,
}

/// The default settings: no shift, no inversion.
pub open spec fn spec_default_settings() -> Settings {
    Settings { invert: false, shift: 0 }
}

impl Default for Settings {
    /// The documented defaults: shift 0, invert off.
    fn default() -> (r: Self)
        ensures
            r == spec_default_settings(),
    {
        Settings { invert: false, shift: 0 }
    }
}

} // verus!
