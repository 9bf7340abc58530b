//! Random non-negative identifiers.
//!
//! Each generated render script exports a function whose name carries a
//! numeric ID; the IDs are drawn at random when a build session
//! generates its targets.

use vstd::prelude::*;
use crate::sys::random_u64;

verus! {

/// A randomly drawn non-negative 64-bit value.
pub struct Rand(i64);

impl Rand {
    #[verifier::type_invariant]
    spec fn inv(self) -> bool {
        self.0 >= 0
    }

    /// The drawn value, as an integer.
    pub closed spec fn spec_val(self) -> int {
        self.0 as int
    }

    /// Draws a fresh random value.  The value is always non-negative.
    pub fn new() -> (r: Self)
        ensures
            r.spec_val() >= 0,
    {
        let h = random_u64();
        let v = h / 2;
        Rand(v as i64)
    }

    /// Returns the drawn value.
    pub fn val(&self) -> (r: i64)
        ensures
            r as int == self.spec_val(),
            r >= 0,
    {
        proof {
            use_type_invariant(self);
        }
        self.0
    }
}

} // verus!
