//! Render targets of one build session.
//!
//! A target pairs the staged path of a generated render script with
//! the numeric ID of the render function it exports.  The generator
//! produces one target per discovered page: it renders the script
//! template for the page, stages it in the cache under the page
//! route's script path, and records the staged path with the drawn
//! ID.

use vstd::prelude::*;
use crate::cache_dir::CacheDir;
use crate::error::BuildError;
use crate::kv::find_key;
use crate::kv::lemma_get_at_index;
use crate::kv::lemma_get_none;
use crate::kv::lemma_get_push_all;
use crate::kv::lemma_get_update_all;
use crate::kv::spec_get;
use crate::paths::setup_page_path;
use crate::paths::spec_setup_page_path;
use crate::paths::spec_strip_ext;
use crate::paths::spec_strip_prefix;
use crate::paths::stem_end;
use crate::paths::strip_prefix;
use crate::render::ServerRender;
use crate::sys::canonical_path;
use crate::traits::Generate;
use vstd::pervasive::VecAdditionalExecFns;

verus! {

/// The views of a target list.
pub open spec fn spec_target_views(s: Seq<(String, i64)>) -> Seq<(Seq<char>, i64)> {
    Seq::new(s.len(), |i: int| (s[i].0@, s[i].1))
}

/// The map of staged script paths to render-function IDs.
#[derive(Debug)]
pub struct Targets(Vec<(String, i64)>);

impl Targets {
    /// The targets, in insertion order.
    pub closed spec fn spec_entries(self) -> Seq<(Seq<char>, i64)> {
        spec_target_views(self.0@)
    }

    /// The ID stored under a staged path.
    pub closed spec fn spec_id_of(self, path: Seq<char>) -> Option<i64> {
        spec_get(self.0@, path)
    }

    /// An empty target map.
    pub fn new() -> (t: Self)
        ensures
            t.spec_entries() =~= Seq::<(Seq<char>, i64)>::empty(),
            forall|p: Seq<char>| t.spec_id_of(p) is None,
    {
        let t = Targets(Vec::new());
        proof {
            assert forall|p: Seq<char>| t.spec_id_of(p) is None by {
                lemma_get_none(t.0@, p);
            }
        }
        t
    }

    /// Records `func_id` under `path`; a path recorded before keeps
    /// its place and takes the new ID.
    pub fn insert(&mut self, func_id: i64, path: &str)
        ensures
            final(self).spec_id_of(path@) == Some(func_id),
            forall|p: Seq<char>|
                p != path@ ==> final(self).spec_id_of(p) == old(self).spec_id_of(p),
            match old(self).spec_id_of(path@) {
                Option::None => final(self).spec_entries() == old(self).spec_entries().push(
                    (path@, func_id),
                ),
                Option::Some(_) => final(self).spec_entries().len() == old(
                    self,
                ).spec_entries().len() && exists|i: int|
                    {
                        &&& 0 <= i < old(self).spec_entries().len()
                        &&& old(self).spec_entries()[i].0 == path@
                        &&& forall|j: int|
                            0 <= j < i ==> old(self).spec_entries()[j].0 != path@
                        &&& final(self).spec_entries() == old(self).spec_entries().update(
                            i,
                            (path@, func_id),
                        )
                    },
            },
    {
        match find_key(&self.0, path) {
            Some(i) => {
                proof {
                    lemma_get_at_index(self.0@, path@, i as int);
                }
                let ghost pre = self.0@;
                self.0.set(i, (path.to_owned(), func_id));
                proof {
                    lemma_get_update_all(pre, i as int, self.0@[i as int]);
                    assert(spec_target_views(self.0@) =~= spec_target_views(pre).update(
                        i as int,
                        (path@, func_id),
                    ));
                    assert(spec_target_views(pre)[i as int].0 == path@);
                    assert(forall|j: int| 0 <= j < i ==> spec_target_views(pre)[j].0 != path@);
                    let ghost ii = i as int;
                    assert({
                        &&& 0 <= ii < spec_target_views(pre).len()
                        &&& spec_target_views(pre)[ii].0 == path@
                        &&& forall|j: int| 0 <= j < ii ==> spec_target_views(pre)[j].0 != path@
                        &&& spec_target_views(self.0@) == spec_target_views(pre).update(
                            ii,
                            (path@, func_id),
                        )
                    });
                }
            },
            None => {
                proof {
                    lemma_get_none(self.0@, path@);
                }
                let ghost pre = self.0@;
                self.0.push((path.to_owned(), func_id));
                proof {
                    lemma_get_push_all(pre, self.0@[pre.len() as int]);
                    assert(spec_target_views(self.0@) =~= spec_target_views(pre).push(
                        (path@, func_id),
                    ));
                }
            },
        }
        proof {
            let pre0 = *old(self);
            let post0 = *self;
            assert(post0.spec_id_of(path@) == Some(func_id));
            assert(forall|p: Seq<char>|
                p != path@ ==> post0.spec_id_of(p) == pre0.spec_id_of(p));
            assert((match pre0.spec_id_of(path@) {
                Option::None => post0.spec_entries() == pre0.spec_entries().push(
                    (path@, func_id),
                ),
                Option::Some(_) => post0.spec_entries().len() == pre0.spec_entries().len()
                    && exists|i: int|
                    {
                        &&& 0 <= i < pre0.spec_entries().len()
                        &&& pre0.spec_entries()[i].0 == path@
                        &&& forall|j: int| 0 <= j < i ==> pre0.spec_entries()[j].0 != path@
                        &&& post0.spec_entries() == pre0.spec_entries().update(
                            i,
                            (path@, func_id),
                        )
                    },
            }));
        }
    }

    /// The bundler's entry map: for each target, the staged path
    /// stripped of the output directory and of its extension, paired
    /// with the staged path itself.  Every staged path must lie under
    /// the output directory.
    pub fn ready_for_bundling(&self, dist_path: &str) -> (r: Vec<(String, String)>)
        requires
            forall|k: int|
                0 <= k < self.spec_entries().len() ==> spec_strip_prefix(
                    (#[trigger] self.spec_entries()[k]).0,
                    dist_path@,
                ) is Some,
        ensures
            r@.len() == self.spec_entries().len(),
            forall|k: int|
                0 <= k < r@.len() ==> (#[trigger] r@[k]).0@ == spec_strip_ext(
                    spec_strip_prefix(self.spec_entries()[k].0, dist_path@).unwrap(),
                ) && r@[k].1@ == self.spec_entries()[k].0,
    {
        let n = self.0.len();
        let mut r: Vec<(String, String)> = Vec::new();
        let mut i: usize = 0;
        while i < n
            invariant
                n == self.0@.len(),
                0 <= i <= n,
                r@.len() == i,
                forall|k: int|
                    0 <= k < self.spec_entries().len() ==> spec_strip_prefix(
                        (#[trigger] self.spec_entries()[k]).0,
                        dist_path@,
                    ) is Some,
                forall|k: int|
                    0 <= k < i ==> (#[trigger] r@[k]).0@ == spec_strip_ext(
                        spec_strip_prefix(self.spec_entries()[k].0, dist_path@).unwrap(),
                    ) && r@[k].1@ == self.spec_entries()[k].0,
            decreases n - i,
        {
            proof {
                assert(self.spec_entries()[i as int].0 == self.0@[i as int].0@);
            }
            let path = self.0[i].0.as_str();
            let name = match strip_prefix(path, dist_path) {
                Some(name) => name,
                None => {
                    proof {
                        assert(false);
                    }
                    String::new()
                },
            };
            let e = stem_end(name.as_str());
            let noext = name.as_str().substring_char(0, e).to_owned();
            r.push((noext, self.0[i].0.clone()));
            i += 1;
        }
        r
    }

    /// The dispatch map: each staged path with its function ID.
    pub fn ready_for_exec(&self) -> (r: Vec<(String, i64)>)
        ensures
            spec_target_views(r@) =~= self.spec_entries(),
    {
        self.iter()
    }

    /// A copy of the targets, in insertion order.
    pub fn iter(&self) -> (r: Vec<(String, i64)>)
        ensures
            spec_target_views(r@) =~= self.spec_entries(),
    {
        let n = self.0.len();
        let mut r: Vec<(String, i64)> = Vec::new();
        let mut i: usize = 0;
        while i < n
            invariant
                n == self.0@.len(),
                0 <= i <= n,
                r@.len() == i,
                forall|j: int|
                    0 <= j < i ==> (#[trigger] r@[j]).0@ == self.0@[j].0@ && r@[j].1
                        == self.0@[j].1,
            decreases n - i,
        {
            r.push((self.0[i].0.clone(), self.0[i].1));
            i += 1;
        }
        proof {
            assert(spec_target_views(r@) =~= self.spec_entries());
        }
        r
    }
}

/// Law: the lookup and the entry list of a target map agree.  A
/// staged path looks up to an ID exactly when some entry holds that
/// path, and the ID found is held by such an entry; with the entry
/// paths pairwise distinct (as generation guarantees), the entries
/// are therefore exactly the successful lookups.
pub proof fn lemma_targets_lookup(t: Targets, p: Seq<char>)
    ensures
        t.spec_id_of(p) is Some <==> exists|j: int|
            0 <= j < t.spec_entries().len() && (#[trigger] t.spec_entries()[j]).0 == p,
        t.spec_id_of(p) matches Some(id) ==> exists|j: int|
            0 <= j < t.spec_entries().len() && #[trigger] t.spec_entries()[j] == (p, id),
{
    crate::kv::lemma_get_iff_has_key(t.0@, p);
    crate::kv::lemma_get_in_entries(t.0@, p);
    assert forall|j: int| 0 <= j < t.0@.len() implies (#[trigger] t.spec_entries()[j]).0
        == t.0@[j].0@ && t.spec_entries()[j].1 == t.0@[j].1 by {}
    if t.spec_id_of(p) is Some {
        let j = choose|j: int| 0 <= j < t.0@.len() && (#[trigger] t.0@[j]).0@ == p && t.0@[j].1@
            == t.spec_id_of(p).unwrap();
        assert(t.spec_entries()[j] == (p, t.spec_id_of(p).unwrap()));
    }
    if exists|j: int| 0 <= j < t.spec_entries().len() && (#[trigger] t.spec_entries()[j]).0 == p {
        let j = choose|j: int|
            0 <= j < t.spec_entries().len() && (#[trigger] t.spec_entries()[j]).0 == p;
        assert(t.0@[j].0@ == p);
    }
}

/// The cache-relative path a page route's render script is staged at.
pub open spec fn spec_target_rel(route: Seq<char>) -> Seq<char> {
    "pages/"@ + spec_setup_page_path(route, "server.js"@)
}

/// Generates the render targets of a build session.
pub struct TargetsGenerator {
    app: String,
    pages: Vec<(String, String)>,
}

impl TargetsGenerator {
    /// The shell path handed in.
    pub closed spec fn spec_app(self) -> Seq<char> {
        self.app@
    }

    /// The page map handed in (route key to source file).
    pub closed spec fn spec_pages(self) -> Seq<(Seq<char>, Seq<char>)> {
        Seq::new(self.pages@.len(), |i: int| (self.pages@[i].0@, self.pages@[i].1@))
    }

    /// Remembers the shell path and the discovered pages.
    pub fn new(app: String, pages: Vec<(String, String)>) -> (g: Self)
        ensures
            g.spec_app() == app@,
            g.spec_pages() == Seq::new(pages@.len(), |i: int| (pages@[i].0@, pages@[i].1@)),
    {
        TargetsGenerator { app, pages }
    }

    /// Resolves the shell and every page against the disk, then stages
    /// one render script per page.  Fails exactly when some path does
    /// not resolve; on success the staged scripts and the returned
    /// targets are as [`TargetsGenerator::generate_with`] says.
    pub fn generate(&self, cache: &mut CacheDir) -> (r: Result<Targets, BuildError>)
        requires
            self.spec_pages().len() <= i64::MAX,
        ensures
            final(cache).spec_dir() == old(cache).spec_dir(),
            match r {
                Result::Ok(t) => spec_generated_for(
                    self.spec_pages(),
                    *old(cache),
                    *final(cache),
                    t,
                ),
                Result::Err(e) => {
                    &&& e matches BuildError::PathCanonicalizationFailed(_)
                    &&& *final(cache) == *old(cache)
                },
            },
    {
        let app_abs = match canonical_path(self.app.as_str()) {
            Some(a) => a,
            None => {
                return Err(BuildError::PathCanonicalizationFailed(self.app.clone()));
            },
        };
        let n = self.pages.len();
        let mut pages_abs: Vec<(String, String)> = Vec::new();
        let mut i: usize = 0;
        while i < n
            invariant
                n == self.pages@.len(),
                0 <= i <= n,
                pages_abs@.len() == i,
                forall|j: int|
                    0 <= j < i ==> (#[trigger] pages_abs@[j]).0@ == self.pages@[j].0@,
            decreases n - i,
        {
            let abs = match canonical_path(self.pages[i].1.as_str()) {
                Some(a) => a,
                None => {
                    return Err(BuildError::PathCanonicalizationFailed(self.pages[i].1.clone()));
                },
            };
            pages_abs.push((self.pages[i].0.clone(), abs));
            i += 1;
        }
        let t = Self::generate_with(app_abs.as_str(), &pages_abs, cache);
        proof {
            let pv = Seq::new(pages_abs@.len(), |j: int| (pages_abs@[j].0@, pages_abs@[j].1@));
            assert(spec_generate_post(pv, *old(cache), *cache, t));
            assert(pv.len() == self.spec_pages().len());
            assert(forall|j: int|
                0 <= j < pv.len() ==> (#[trigger] pv[j]).0 == self.spec_pages()[j].0);
            assert(spec_generated_for(self.spec_pages(), *old(cache), *cache, t));
        }
        Ok(t)
    }

    /// Stages one render script per page, the pages' source paths
    /// already resolved, and returns the targets: for each page route
    /// the script is staged under the route's script path, and each
    /// target takes the next ID of the session sequence, so the IDs
    /// are deterministic and pairwise distinct.
    pub fn generate_with(
        app_abs: &str,
        pages_abs: &Vec<(String, String)>,
        cache: &mut CacheDir,
    ) -> (t: Targets)
        requires
            pages_abs@.len() <= i64::MAX,
        ensures
            spec_generate_post(
                Seq::new(pages_abs@.len(), |j: int| (pages_abs@[j].0@, pages_abs@[j].1@)),
                *old(cache),
                *final(cache),
                t,
            ),
    {
        let n = pages_abs.len();
        let mut targets = Targets::new();
        let mut i: usize = 0;
        let ghost pv = Seq::new(pages_abs@.len(), |j: int| (pages_abs@[j].0@, pages_abs@[j].1@));
        while i < n
            invariant
                n == pages_abs@.len(),
                n <= i64::MAX,
                0 <= i <= n,
                pv == Seq::new(
                    pages_abs@.len(),
                    |j: int| (pages_abs@[j].0@, pages_abs@[j].1@),
                ),
                spec_generate_upto(pv, i as int, *old(cache), *cache, targets),
            decreases n - i,
        {
            let route = pages_abs[i].0.as_str();
            let sr = ServerRender::new(app_abs, pages_abs[i].1.as_str(), i as i64);
            let id: i64;
            let script: String;
            match sr.generate() {
                Ok((rid, rscript)) => {
                    id = rid;
                    script = rscript;
                },
                Err(_) => {
                    proof {
                        assert(false);
                    }
                    id = 0;
                    script = String::new();
                },
            }
            let mut rel = "pages/".to_owned();
            rel.append(setup_page_path(route, "server.js").as_str());
            let (path, _action) = cache.insert(rel.as_str(), script.as_str().as_bytes());
            let ghost pre_t = targets;
            targets.insert(id, path.as_str());
            proof {
                assert(rel@ =~= spec_target_rel(pv[i as int].0));
                let pre = pre_t.spec_entries();
                let post = targets.spec_entries();
                let m2 = i as int + 1;
                if pre_t.spec_id_of(path@) is None {
                    assert(post == pre.push((path@, id)));
                    assert forall|k: int| 0 <= k < post.len() implies 0 <= (#[trigger] post[k]).1
                        < m2 by {
                        if k < pre.len() {
                            assert(post[k] == pre[k]);
                        } else {
                            assert(post[k] == (path@, id));
                        }
                    }
                    assert forall|j2: int, k2: int| 0 <= j2 < k2 < post.len() implies post[j2].1
                        != post[k2].1 by {
                        assert(post[j2] == pre[j2]);
                        if k2 < pre.len() {
                            assert(post[k2] == pre[k2]);
                        } else {
                            assert(post[k2] == (path@, id));
                            assert(pre[j2].1 < i as int);
                        }
                    }
                } else {
                    let idx = choose|idx: int|
                        {
                            &&& 0 <= idx < pre.len()
                            &&& pre[idx].0 == path@
                            &&& forall|j: int| 0 <= j < idx ==> pre[j].0 != path@
                            &&& post == pre.update(idx, (path@, id))
                        };
                    assert forall|k: int| 0 <= k < post.len() implies 0 <= (#[trigger] post[k]).1
                        < m2 by {
                        if k != idx {
                            assert(post[k] == pre[k]);
                        } else {
                            assert(post[k] == (path@, id));
                        }
                    }
                    assert forall|j2: int, k2: int| 0 <= j2 < k2 < post.len() implies post[j2].1
                        != post[k2].1 by {
                        if j2 != idx {
                            assert(post[j2] == pre[j2]);
                        } else {
                            assert(post[j2] == (path@, id));
                            assert(pre[k2].1 < i as int);
                        }
                        if k2 != idx {
                            assert(post[k2] == pre[k2]);
                        } else {
                            assert(post[k2] == (path@, id));
                            assert(pre[j2].1 < i as int);
                        }
                    }
                }
            }
            i += 1;
        }
        targets
    }
}

/// Some resolution of the pages against the disk yields exactly this
/// staging and these targets: the resolved pages carry the same route
/// keys in the same order.
pub open spec fn spec_generated_for(
    pages: Seq<(Seq<char>, Seq<char>)>,
    pre: CacheDir,
    post: CacheDir,
    t: Targets,
) -> bool {
    exists|pages_abs: Seq<(Seq<char>, Seq<char>)>|
        #[trigger] spec_generate_post(pages_abs, pre, post, t) && pages_abs.len() == pages.len()
            && forall|j: int|
            0 <= j < pages_abs.len() ==> (#[trigger] pages_abs[j]).0 == pages[j].0
}

/// One target generation step has been taken for each of the first
/// `m` pages: the cache still owns the same directory; every staged
/// route script is in the cache; and the targets map holds, for every
/// processed route, the full staged path of its script with an ID
/// drawn from the session sequence — so IDs are pairwise distinct —
/// and nothing else.
pub open spec fn spec_generate_upto(
    pages: Seq<(Seq<char>, Seq<char>)>,
    m: int,
    pre: CacheDir,
    post: CacheDir,
    t: Targets,
) -> bool {
    &&& post.spec_dir() == pre.spec_dir()
    &&& forall|j: int|
        0 <= j < m ==> post.spec_content(spec_target_rel((#[trigger] pages[j]).0)) is Some
    &&& forall|j: int|
        0 <= j < m ==> t.spec_id_of(
            pre.spec_dir() + "/"@ + spec_target_rel((#[trigger] pages[j]).0),
        ) is Some
    &&& forall|k: int|
        0 <= k < t.spec_entries().len() ==> (exists|j: int|
            0 <= j < m && (#[trigger] t.spec_entries()[k]).0 == pre.spec_dir() + "/"@
                + spec_target_rel(pages[j].0)) && 0 <= t.spec_entries()[k].1 < m
    &&& spec_keys_unique_ids(t.spec_entries())
    &&& spec_ids_distinct(t.spec_entries())
}

/// All function IDs of a target list are distinct.
pub open spec fn spec_ids_distinct(s: Seq<(Seq<char>, i64)>) -> bool {
    forall|j: int, k: int| 0 <= j < k < s.len() ==> s[j].1 != s[k].1
}

/// All staged paths of a target list are distinct.
pub open spec fn spec_keys_unique_ids(s: Seq<(Seq<char>, i64)>) -> bool {
    forall|j: int, k: int| 0 <= j < k < s.len() ==> s[j].0 != s[k].0
}

/// What target generation says once every page is processed.
pub open spec fn spec_generate_post(
    pages: Seq<(Seq<char>, Seq<char>)>,
    pre: CacheDir,
    post: CacheDir,
    t: Targets,
) -> bool {
    spec_generate_upto(pages, pages.len() as int, pre, post, t)
}

} // verus!
