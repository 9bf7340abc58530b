//! The client-side build.
//!
//! For every discovered page, the client build synthesizes a
//! hydration script, stages it in the cache under the page route's
//! script path (with a plain `js` extension), and hands the staged
//! entries to the bundler.  Walking the source tree and invoking the
//! bundler happen outside the library.

use vstd::prelude::*;
use crate::cache_dir::CacheDir;
use crate::error::BuildError;
use crate::hydrator::Hydrator;
use crate::hydrator::spec_hydrate_script;
use crate::paths::setup_page_path;
use crate::paths::spec_setup_page_path;
use crate::sys::path_exists;
use crate::traits::Generate;

verus! {

/// The cache-relative path a page route's hydration script is staged
/// at.
pub open spec fn spec_hydrate_rel(route: Seq<char>) -> Seq<char> {
    "pages/"@ + spec_setup_page_path(route, "js"@)
}

/// The client-side build of one project.
#[derive(Debug)]
pub struct ClientBuilder {
    pub src_path: String,
    pub dist_path: String,
}

impl ClientBuilder {
    /// Points the build at a project root and its output directory.
    /// Fails when the project has no `src` directory; whether it has
    /// one depends on the disk.
    pub fn new(root: &str, dist_dir: &str) -> (r: Result<Self, BuildError>)
        ensures
            match r {
                Result::Ok(b) => b.src_path@ == root@ + "/src"@ && b.dist_path@ == root@ + "/"@
                    + dist_dir@,
                Result::Err(e) => e matches BuildError::MissingSourceDir,
            },
    {
        let mut src_path = root.to_owned();
        src_path.append("/src");
        let mut dist_path = root.to_owned();
        dist_path.append("/");
        dist_path.append(dist_dir);
        if !path_exists(src_path.as_str()) {
            return Err(BuildError::MissingSourceDir);
        }
        Ok(ClientBuilder { src_path, dist_path })
    }

    /// Stages one hydration script per page, the pages' source paths
    /// already resolved, and returns the staged entries for the
    /// bundler: for each page route the script is staged under the
    /// route's script path with the hydration template around the
    /// shell, the page, and the `root` container.
    pub fn stage_hydrators(
        app_abs: &str,
        pages_abs: &Vec<(String, String)>,
        cache: &mut CacheDir,
    ) -> (r: Vec<(String, String)>)
        ensures
            final(cache).spec_dir() == old(cache).spec_dir(),
            r@.len() == pages_abs@.len(),
            forall|j: int|
                0 <= j < pages_abs@.len() ==> (#[trigger] r@[j]).0@ == spec_hydrate_rel(
                    pages_abs@[j].0@,
                ) && r@[j].1@ == old(cache).spec_dir() + "/"@ + spec_hydrate_rel(
                    pages_abs@[j].0@,
                ),
            forall|j: int|
                0 <= j < pages_abs@.len() ==> final(cache).spec_content(
                    #[trigger] spec_hydrate_rel(pages_abs@[j].0@),
                ) is Some,
    {
        let n = pages_abs.len();
        let mut r: Vec<(String, String)> = Vec::new();
        let mut i: usize = 0;
        while i < n
            invariant
                n == pages_abs@.len(),
                0 <= i <= n,
                r@.len() == i,
                cache.spec_dir() == old(cache).spec_dir(),
                forall|j: int|
                    0 <= j < i ==> (#[trigger] r@[j]).0@ == spec_hydrate_rel(pages_abs@[j].0@)
                        && r@[j].1@ == old(cache).spec_dir() + "/"@ + spec_hydrate_rel(
                        pages_abs@[j].0@,
                    ),
                forall|j: int|
                    0 <= j < i ==> cache.spec_content(
                        #[trigger] spec_hydrate_rel(pages_abs@[j].0@),
                    ) is Some,
            decreases n - i,
        {
            let script: String;
            match Hydrator::new(app_abs, pages_abs[i].1.as_str(), "root").generate() {
                Ok(s) => {
                    script = s;
                },
                Err(_) => {
                    proof {
                        assert(false);
                    }
                    script = String::new();
                },
            }
            let mut rel = "pages/".to_owned();
            rel.append(setup_page_path(pages_abs[i].0.as_str(), "js").as_str());
            proof {
                assert(rel@ =~= spec_hydrate_rel(pages_abs@[i as int].0@));
            }
            let (path, _action) = cache.insert(rel.as_str(), script.as_str().as_bytes());
            r.push((rel, path));
            i += 1;
        }
        r
    }
}

} // verus!
