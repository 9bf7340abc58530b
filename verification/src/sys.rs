//! Trusted bridges to the machine: directory walking, path resolution
//! and randomness.
//!
//! Each function's result depends on the state of the disk or of the
//! process, so its contract only states what holds of every outcome;
//! the verified callers take these results as plain values.

use vstd::prelude::*;
use crate::paths::spec_strip_prefix;
use std::collections::hash_map::RandomState;
use std::hash::BuildHasher;
use std::hash::Hasher;
use std::path::Path;
use walkdir::WalkDir;

verus! {

/// Relies on walkdir::WalkDir: yields every entry of the tree under
/// `root`, each path being `root` itself or `root` extended by a
/// separator and a relative part; the flag says whether the entry is a
/// plain file.  What is found depends on the disk, so no more is
/// stated; the prefix claim is made only for a root that does not
/// already end in a separator.
#[verifier::external_body]
pub fn walk_dir(root: &str) -> (r: Vec<(String, bool)>)
    ensures
        root@.len() > 0 && root@[root@.len() - 1] != '/' ==> forall|i: int|
            0 <= i < r@.len() ==> spec_strip_prefix(#[trigger] r@[i].0@, root@) is Some,
{
    WalkDir::new(root)
        .into_iter()
        .filter_map(|e| e.ok())
        .map(|e| (e.path().to_string_lossy().into_owned(), e.file_type().is_file()))
        .collect()
}

/// Relies on std's Path::canonicalize: resolves `p` against the disk
/// to an absolute path; `None` when the path does not exist or cannot
/// be resolved.  The outcome depends on the disk, so no more is
/// stated.
#[verifier::external_body]
pub fn canonical_path(p: &str) -> (r: Option<String>)
{
    match Path::new(p).canonicalize() {
        Ok(abs) => Some(abs.to_string_lossy().into_owned()),
        Err(_) => None,
    }
}

/// Relies on std's Path::exists: whether `p` names an entry on the
/// disk right now.  The outcome depends on the disk, so nothing is
/// stated.
#[verifier::external_body]
pub fn path_exists(p: &str) -> (r: bool)
{
    Path::new(p).exists()
}

/// Relies on std's RandomState: a hasher seeded freshly per call, so
/// the finished value is effectively random.  Nothing can be stated of
/// a random value.
#[verifier::external_body]
pub fn random_u64() -> (r: u64)
{
    RandomState::new().build_hasher().finish()
}

} // verus!
