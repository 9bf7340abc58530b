//! On-demand page rendering.
//!
//! When serving a site without pre-rendered files, each request's
//! page is assembled from the persisted manifest entry: the engine
//! renders the body and the shared head outside the library, and the
//! assembly here is the same one the static build uses.

use vstd::prelude::*;
use crate::dist_analyzer::PageEntry;
use crate::html_renderer::HtmlRenderer;
use crate::html_renderer::spec_page_doc;

verus! {

/// One page ready to assemble: the rendered head and body and the
/// route's manifest assets.
pub struct PageRenderer {
    head: String,
    body: String,
    entries: PageEntry,
}

impl PageRenderer {
    /// The head markup handed in.
    pub closed spec fn spec_head(self) -> Seq<char> {
        self.head@
    }

    /// The body markup handed in.
    pub closed spec fn spec_body(self) -> Seq<char> {
        self.body@
    }

    /// The route's assets handed in.
    pub closed spec fn spec_entries(self) -> crate::dist_analyzer::PageEntryView {
        self.entries@
    }

    /// Pairs the rendered markup with the route's assets.
    pub fn new(head: String, body: String, entries: PageEntry) -> (r: Self)
        ensures
            r.spec_head() == head@,
            r.spec_body() == body@,
            r.spec_entries() == entries@,
    {
        PageRenderer { head, body, entries }
    }

    /// Assembles the page document.
    pub fn render(&self) -> (r: String)
        ensures
            r@ == spec_page_doc(
                self.spec_head(),
                self.spec_body(),
                self.spec_entries().scripts,
                self.spec_entries().styles,
            ),
    {
        HtmlRenderer::new(self.head.as_str(), self.body.as_str()).render(&self.entries).text()
    }
}

} // verus!
