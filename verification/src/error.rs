//! The failure taxonomy of the build pipeline.
//!
//! Every fallible step reports one of these variants; the orchestrator
//! aborts the whole build on the first one it sees.

use vstd::prelude::*;

verus! {

/// A failure of one phase of the build pipeline.
#[derive(Debug)]
pub enum BuildError {
    /// The project has no `src` directory.
    MissingSourceDir,
    /// One or both of the two required special entries are absent; the
    /// flags say which (`true` means missing).
    MissingSpecialEntries { app: bool, head: bool },
    /// A path could not be resolved to an absolute form.
    PathCanonicalizationFailed(String),
    /// A path that a step requires does not exist.
    PathNotFound(String),
    /// The bundling script could not be loaded into the script engine.
    BundlerLoadFailed(String),
    /// The bundler ran and reported failure.
    BundlingFailed(String),
    /// A render script could not be loaded into the script engine.
    EngineLoadFailed(String),
    /// The render function of the given ID failed.
    RenderInvocationFailed(i64),
    /// A generated target's route has no matching entry in the bundler
    /// output; the field names the route.
    RouteReconciliationFailed(String),
    /// The manifest file is absent or not in the persisted format.
    ManifestMalformed,
}

} // verus!
