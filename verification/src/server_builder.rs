//! The server-side build, as a plan.
//!
//! The server build is a fixed two-phase pipeline: analyze the
//! source tree, generate and stage the render targets, bundle them,
//! analyze the bundler output, reconcile it into the manifest, render
//! the head, and — for a static site — generate every page.  The
//! effectful steps (walking, bundling, engine calls, file writes)
//! run outside the library, which decides the exact sequence of
//! phases here.

use vstd::prelude::*;
use crate::error::BuildError;
use crate::sys::path_exists;

verus! {

/// What kind of site the server build produces.
#[derive(Debug, PartialEq, Eq, Structural, Clone, Copy)]
pub enum BuildingType {
    ServerSideRendering,
    StaticSiteGeneration,
}

/// One phase of the server build, in pipeline order.
#[derive(Debug, PartialEq, Eq, Structural, Clone, Copy)]
pub enum BuildPhase {
    AnalyzeSource,
    GenerateTargets,
    Bundle,
    AnalyzeDist,
    WriteManifest,
    RenderHead,
    GeneratePages,
}

/// The server-side build of one project.
#[derive(Debug)]
pub struct ServerSideBuilder {
    pub src_path: String,
    pub dist_path: String,
    pub building_type: BuildingType,
}

/// The fixed phase sequence of a build: every build runs the first
/// six phases in order; a static-site build generates the pages at
/// the end.
pub open spec fn spec_build_phases(t: BuildingType) -> Seq<BuildPhase> {
    let common = seq![
        BuildPhase::AnalyzeSource,
        BuildPhase::GenerateTargets,
        BuildPhase::Bundle,
        BuildPhase::AnalyzeDist,
        BuildPhase::WriteManifest,
        BuildPhase::RenderHead,
    ];
    if t == BuildingType::StaticSiteGeneration {
        common.push(BuildPhase::GeneratePages)
    } else {
        common
    }
}

impl ServerSideBuilder {
    /// Points the build at a project root and its output directory.
    /// Fails when the project has no `src` directory; whether it has
    /// one depends on the disk.
    pub fn new(root: &str, dist_dir: &str, building_type: BuildingType) -> (r: Result<
        Self,
        BuildError,
    >)
        ensures
            match r {
                Result::Ok(b) => b.src_path@ == root@ + "/src"@ && b.dist_path@ == root@ + "/"@
                    + dist_dir@ && b.building_type == building_type,
                Result::Err(e) => e matches BuildError::MissingSourceDir,
            },
    {
        let mut src_path = root.to_owned();
        src_path.append("/src");
        let mut dist_path = root.to_owned();
        dist_path.append("/");
        dist_path.append(dist_dir);
        if !path_exists(src_path.as_str()) {
            return Err(BuildError::MissingSourceDir);
        }
        Ok(ServerSideBuilder { src_path, dist_path, building_type })
    }

    /// The phases this build will run, in order.
    pub fn phases(&self) -> (r: Vec<BuildPhase>)
        ensures
            r@ == spec_build_phases(self.building_type),
    {
        let mut r: Vec<BuildPhase> = Vec::new();
        r.push(BuildPhase::AnalyzeSource);
        r.push(BuildPhase::GenerateTargets);
        r.push(BuildPhase::Bundle);
        r.push(BuildPhase::AnalyzeDist);
        r.push(BuildPhase::WriteManifest);
        r.push(BuildPhase::RenderHead);
        if self.building_type == BuildingType::StaticSiteGeneration {
            r.push(BuildPhase::GeneratePages);
        }
        proof {
            assert(r@ =~= spec_build_phases(self.building_type));
        }
        r
    }
}

} // verus!
