//! The directory-analysis capability.

use vstd::prelude::*;
use crate::dist_analyzer::DistDir;
use crate::dist_analyzer::DistDirContainer;
use crate::error::BuildError;
use crate::src_analyzer::SourceDir;
use crate::src_analyzer::SourceDirContainer;

verus! {

/// Something that analyzes a directory tree into a result.
pub trait DirectoryAnalyzer {
    type Output;

    fn analyze(&self) -> Result<Self::Output, BuildError>;
}

impl DirectoryAnalyzer for SourceDir {
    type Output = SourceDirContainer;

    fn analyze(&self) -> Result<SourceDirContainer, BuildError> {
        SourceDir::analyze(self)
    }
}

impl DirectoryAnalyzer for DistDir {
    type Output = DistDirContainer;

    fn analyze(&self) -> Result<DistDirContainer, BuildError> {
        DistDir::analyze(self)
    }
}

} // verus!
