//! Static page generation.
//!
//! After the server build has rendered every page's body, the
//! generator derives each rendered script's route with the shared
//! rule, finds the route's asset group in the bundler output, and
//! assembles the final document for the route's output directory.

use vstd::prelude::*;
use crate::dist_analyzer::DistDirContainer;
use crate::dist_analyzer::spec_asset_route;
use crate::error::BuildError;
use crate::html::HtmlOutput;
use crate::html_renderer::HtmlRenderer;
use crate::html_renderer::spec_page_doc;
use crate::kv::find_key;
use crate::kv::lemma_get_at_index;
use crate::kv::lemma_get_none;
use crate::kv::spec_get;
use crate::paths::parent_of;
use crate::paths::route_of;
use crate::paths::strip_prefix;

verus! {

/// One rendered body has been turned into its final document: its
/// route derives, the bundler output has the route's asset group,
/// and the document pairs that group's directory with the assembled
/// page.
pub open spec fn spec_page_generated(
    cache: Seq<char>,
    dist: Seq<(String, crate::dist_analyzer::PageEntry)>,
    head: Seq<char>,
    rendered: (Seq<char>, Seq<char>),
    doc: (String, HtmlOutput),
) -> bool {
    &&& spec_asset_route(cache + "/pages"@, rendered.0) is Some
    &&& spec_get(dist, spec_asset_route(cache + "/pages"@, rendered.0).unwrap()) is Some
    &&& doc.0@ == spec_get(
        dist,
        spec_asset_route(cache + "/pages"@, rendered.0).unwrap(),
    ).unwrap().path
    &&& doc.1@ == spec_page_doc(
        head,
        rendered.1,
        spec_get(dist, spec_asset_route(cache + "/pages"@, rendered.0).unwrap()).unwrap().scripts,
        spec_get(dist, spec_asset_route(cache + "/pages"@, rendered.0).unwrap()).unwrap().styles,
    )
}

/// Assembles the final documents of a static build.
pub struct PagesGenerator {
    cache: String,
    dist: DistDirContainer,
    head: String,
    output: Vec<(String, String)>,
}

impl PagesGenerator {
    /// The cache directory the rendered scripts live under.
    pub closed spec fn spec_cache(self) -> Seq<char> {
        self.cache@
    }

    /// The analyzed bundler output.
    pub closed spec fn spec_dist(self) -> Seq<
        (String, crate::dist_analyzer::PageEntry),
    > {
        self.dist.pages@
    }

    /// The shared head markup.
    pub closed spec fn spec_head(self) -> Seq<char> {
        self.head@
    }

    /// The rendered bodies, script path to body markup.
    pub closed spec fn spec_output(self) -> Seq<(Seq<char>, Seq<char>)> {
        Seq::new(self.output@.len(), |i: int| (self.output@[i].0@, self.output@[i].1@))
    }

    /// Packs the pieces a static build hands over: the cache
    /// directory, the analyzed bundler output, the rendered head
    /// markup, and each rendered script's body.
    pub fn new(
        cache: String,
        dist: DistDirContainer,
        head: String,
        output: Vec<(String, String)>,
    ) -> (g: Self)
        ensures
            g.spec_cache() == cache@,
            g.spec_dist() == dist.pages@,
            g.spec_head() == head@,
            g.spec_output() == Seq::new(
                output@.len(),
                |i: int| (output@[i].0@, output@[i].1@),
            ),
    {
        PagesGenerator { cache, dist, head, output }
    }

    /// Assembles one document per rendered body, each paired with the
    /// output directory of its route.  Fails with the reconciliation
    /// error exactly when some rendered script's route does not
    /// derive or has no asset group.
    pub fn generate(&self) -> (r: Result<Vec<(String, HtmlOutput)>, BuildError>)
        ensures
            match r {
                Result::Ok(out) => out@.len() == self.spec_output().len() && forall|j: int|
                    0 <= j < out@.len() ==> spec_page_generated(
                        self.spec_cache(),
                        self.spec_dist(),
                        self.spec_head(),
                        (#[trigger] self.spec_output()[j]),
                        #[trigger] out@[j],
                    ),
                Result::Err(e) => e matches BuildError::RouteReconciliationFailed(_) && exists|
                    j: int,
                |
                    0 <= j < self.spec_output().len() && (match spec_asset_route(
                        self.spec_cache() + "/pages"@,
                        (#[trigger] self.spec_output()[j]).0,
                    ) {
                        Option::Some(q) => spec_get(self.spec_dist(), q) is None,
                        Option::None => true,
                    }),
            },
    {
        let mut pages_root = self.cache.clone();
        pages_root.append("/pages");
        let n = self.output.len();
        let mut out: Vec<(String, HtmlOutput)> = Vec::new();
        let mut i: usize = 0;
        while i < n
            invariant
                n == self.output@.len(),
                0 <= i <= n,
                pages_root@ == self.spec_cache() + "/pages"@,
                out@.len() == i,
                forall|j: int|
                    0 <= j < i ==> spec_page_generated(
                        self.spec_cache(),
                        self.spec_dist(),
                        self.spec_head(),
                        (#[trigger] self.spec_output()[j]),
                        #[trigger] out@[j],
                    ),
            decreases n - i,
        {
            let path = self.output[i].0.as_str();
            proof {
                assert(self.spec_output()[i as int].0 == self.output@[i as int].0@);
                assert(self.spec_output()[i as int].1 == self.output@[i as int].1@);
            }
            let parent = parent_of(path);
            let route = match strip_prefix(parent.as_str(), pages_root.as_str()) {
                Some(rel) => route_of(rel.as_str()),
                None => {
                    proof {
                        assert(spec_asset_route(
                            self.spec_cache() + "/pages"@,
                            self.spec_output()[i as int].0,
                        ) is None);
                    }
                    return Err(BuildError::RouteReconciliationFailed(parent));
                },
            };
            proof {
                assert(spec_asset_route(
                    self.spec_cache() + "/pages"@,
                    self.spec_output()[i as int].0,
                ) == Some(route@));
            }
            let j = match find_key(&self.dist.pages, route.as_str()) {
                Some(j) => j,
                None => {
                    proof {
                        lemma_get_none(self.dist.pages@, route@);
                    }
                    return Err(BuildError::RouteReconciliationFailed(route));
                },
            };
            proof {
                lemma_get_at_index(self.dist.pages@, route@, j as int);
            }
            let entry = &self.dist.pages[j].1;
            let doc = HtmlRenderer::new(self.head.as_str(), self.output[i].1.as_str()).render(
                entry,
            );
            out.push((entry.path.clone(), doc));
            proof {
                let q = route@;
                let e2 = self.dist.pages@[j as int].1@;
                assert(spec_get(self.spec_dist(), q) == Some(e2));
                assert(out@[i as int].0@ == e2.path);
                assert(out@[i as int].1@ == spec_page_doc(
                    self.spec_head(),
                    self.spec_output()[i as int].1,
                    e2.scripts,
                    e2.styles,
                ));
                assert(spec_page_generated(
                    self.spec_cache(),
                    self.spec_dist(),
                    self.spec_head(),
                    self.spec_output()[i as int],
                    out@[i as int],
                ));
            }
            i += 1;
        }
        Ok(out)
    }
}

} // verus!
