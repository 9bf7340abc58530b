//! Render dispatch, as data.
//!
//! Each staged render script exports one function whose name is the
//! fixed prefix followed by the script's numeric ID.  The dispatcher
//! checks that the script exists and computes the exact function name
//! to invoke; the engine call itself happens outside the library.

use vstd::prelude::*;
use crate::error::BuildError;
use crate::render::spec_digits;
use crate::render::u64_to_string;
use crate::sys::path_exists;

verus! {

/// The name of the render function exported under a non-negative ID.
pub open spec fn spec_render_func_name(id: int) -> Seq<char> {
    "render_"@ + spec_digits(id)
}

/// Builds the render function name of an ID.
pub fn render_func_name(id: i64) -> (r: String)
    requires
        id >= 0,
    ensures
        r@ == spec_render_func_name(id as int),
{
    let mut out = "render_".to_owned();
    out.append(u64_to_string(id as u64).as_str());
    out
}

/// One render invocation: a script path and the ID of the function it
/// exports.
#[derive(Debug)]
pub struct RenderExec {
    id: i64,
    path: String,
}

impl RenderExec {
    /// The function ID.
    pub closed spec fn spec_id(self) -> int {
        self.id as int
    }

    /// The script path.
    pub closed spec fn spec_path(self) -> Seq<char> {
        self.path@
    }

    /// Prepares an invocation after checking that the script exists
    /// on disk.  Whether the check passes depends on the disk; when
    /// it fails, the error names the path.
    pub fn new(id: i64, path: &str) -> (r: Result<Self, BuildError>)
        ensures
            match r {
                Result::Ok(e) => e.spec_id() == id as int && e.spec_path() == path@,
                Result::Err(e) => e matches BuildError::PathNotFound(p) && p@ == path@,
            },
    {
        if path_exists(path) {
            Ok(RenderExec { id, path: path.to_owned() })
        } else {
            Err(BuildError::PathNotFound(path.to_owned()))
        }
    }

    /// The script path to load and the function name to invoke.
    pub fn invocation(&self) -> (r: (String, String))
        requires
            self.spec_id() >= 0,
        ensures
            r.0@ == self.spec_path(),
            r.1@ == spec_render_func_name(self.spec_id()),
    {
        (self.path.clone(), render_func_name(self.id))
    }
}

/// The render invocations of a whole build session.
#[derive(Debug)]
pub struct MultiRenderExec(Vec<(i64, String)>);

impl MultiRenderExec {
    /// The invocations, ID to script path.
    pub closed spec fn spec_files(self) -> Seq<(int, Seq<char>)> {
        Seq::new(self.0@.len(), |i: int| (self.0@[i].0 as int, self.0@[i].1@))
    }

    /// Prepares one invocation per file after checking that each
    /// script exists on disk.  When a check fails, the error names
    /// the missing path.
    pub fn new(files: Vec<(String, i64)>) -> (r: Result<Self, BuildError>)
        ensures
            match r {
                Result::Ok(m) => m.spec_files().len() == files@.len() && forall|j: int|
                    0 <= j < files@.len() ==> (#[trigger] m.spec_files()[j]).0 == files@[j].1
                        && m.spec_files()[j].1 == files@[j].0@,
                Result::Err(e) => e matches BuildError::PathNotFound(_),
            },
    {
        let n = files.len();
        let mut out: Vec<(i64, String)> = Vec::new();
        let mut i: usize = 0;
        while i < n
            invariant
                n == files@.len(),
                0 <= i <= n,
                out@.len() == i,
                forall|j: int|
                    0 <= j < i ==> (#[trigger] out@[j]).0 == files@[j].1 && out@[j].1@
                        == files@[j].0@,
            decreases n - i,
        {
            if !path_exists(files[i].0.as_str()) {
                return Err(BuildError::PathNotFound(files[i].0.clone()));
            }
            out.push((files[i].1, files[i].0.clone()));
            i += 1;
        }
        let m = MultiRenderExec(out);
        proof {
            assert(forall|j: int|
                0 <= j < files@.len() ==> (#[trigger] m.spec_files()[j]).0 == files@[j].1
                    && m.spec_files()[j].1 == files@[j].0@);
        }
        Ok(m)
    }

    /// The invocations to run, in order: script path and function
    /// name.
    pub fn invocations(&self) -> (r: Vec<(String, String)>)
        requires
            forall|j: int| 0 <= j < self.spec_files().len() ==> (#[trigger] self.spec_files()[
                j
            ]).0 >= 0,
        ensures
            r@.len() == self.spec_files().len(),
            forall|j: int|
                0 <= j < r@.len() ==> (#[trigger] r@[j]).0@ == self.spec_files()[j].1 && r@[j].1@
                    == spec_render_func_name(self.spec_files()[j].0),
    {
        let n = self.0.len();
        let mut r: Vec<(String, String)> = Vec::new();
        let mut i: usize = 0;
        while i < n
            invariant
                n == self.0@.len(),
                0 <= i <= n,
                r@.len() == i,
                forall|j: int| 0 <= j < self.spec_files().len() ==> (#[trigger] self.spec_files()[
                    j
                ]).0 >= 0,
                forall|j: int|
                    0 <= j < i ==> (#[trigger] r@[j]).0@ == self.spec_files()[j].1 && r@[j].1@
                        == spec_render_func_name(self.spec_files()[j].0),
            decreases n - i,
        {
            proof {
                assert(self.spec_files()[i as int].0 == self.0@[i as int].0 as int);
            }
            let name = render_func_name(self.0[i].0);
            r.push((self.0[i].1.clone(), name));
            i += 1;
        }
        r
    }
}

} // verus!
