//! The small capability traits the build pipeline is phrased in.

use vstd::prelude::*;
use crate::error::BuildError;

verus! {

/// Something that can be executed for a result.
pub trait Exec {
    type Output;

    fn exec(&self) -> Result<Self::Output, BuildError>;
}

/// Something that can generate an artifact.
pub trait Generate {
    type Output;

    fn generate(&self) -> Result<Self::Output, BuildError>;
}

/// A whole build phase.
pub trait Build {
    type Output;

    fn build(&self) -> Result<Self::Output, BuildError>;
}

} // verus!
