//! Page document rendering.
//!
//! A page document embeds the rendered body inside the root container
//! element and lists the route's assets as web-root-relative script
//! and link tags, all substituted into the built-in template.

use vstd::prelude::*;
use crate::dist_analyzer::PageEntry;
use crate::html::spec_default_template;
use crate::html::spec_html_doc;
use crate::html::HtmlBuilder;
use crate::html::HtmlOutput;
use crate::html::HtmlProps;
use crate::html::HtmlTemplate;

verus! {

/// The rendered body wrapped in the root container element.
pub open spec fn spec_root_div(body: Seq<char>) -> Seq<char> {
    "<div id='root'>"@ + body + "</div>"@
}

/// Asset paths rewritten to be web-root-relative.
pub open spec fn spec_web_paths(v: Seq<Seq<char>>) -> Seq<Seq<char>> {
    Seq::new(v.len(), |i: int| "/"@ + v[i])
}

/// Rewrites asset paths to be web-root-relative.
pub fn web_paths(v: &Vec<String>) -> (r: Vec<String>)
    ensures
        r@.len() == v@.len(),
        forall|i: int| 0 <= i < r@.len() ==> (#[trigger] r@[i])@ == "/"@ + v@[i]@,
{
    let n = v.len();
    let mut r: Vec<String> = Vec::new();
    let mut i: usize = 0;
    while i < n
        invariant
            n == v@.len(),
            0 <= i <= n,
            r@.len() == i,
            forall|j: int| 0 <= j < i ==> (#[trigger] r@[j])@ == "/"@ + v@[j]@,
        decreases n - i,
    {
        let mut p = "/".to_owned();
        p.append(v[i].as_str());
        r.push(p);
        i += 1;
    }
    r
}

/// The document of a page: the shared head, the body in the root
/// container, and the route's assets rewritten web-root-relative,
/// substituted into the built-in template.
pub open spec fn spec_page_doc(
    head: Seq<char>,
    body: Seq<char>,
    scripts: Seq<Seq<char>>,
    styles: Seq<Seq<char>>,
) -> Seq<char> {
    spec_html_doc(
        spec_default_template(),
        "en"@,
        head,
        spec_root_div(body),
        spec_web_paths(scripts),
        spec_web_paths(styles),
    )
}

/// Renders one page document from the shared head markup and the
/// page's rendered body.
pub struct HtmlRenderer {
    head: String,
    body: String,
}

impl HtmlRenderer {
    /// The head markup handed in.
    pub closed spec fn spec_head(self) -> Seq<char> {
        self.head@
    }

    /// The body markup handed in.
    pub closed spec fn spec_body(self) -> Seq<char> {
        self.body@
    }

    /// Remembers the head and body markup.
    pub fn new(head: &str, body: &str) -> (r: Self)
        ensures
            r.spec_head() == head@,
            r.spec_body() == body@,
    {
        HtmlRenderer { head: head.to_owned(), body: body.to_owned() }
    }

    /// Builds the page document around the route's assets.
    pub fn render(&self, page_entry: &PageEntry) -> (r: HtmlOutput)
        ensures
            r@ == spec_page_doc(
                self.spec_head(),
                self.spec_body(),
                page_entry@.scripts,
                page_entry@.styles,
            ),
    {
        let scripts = web_paths(&page_entry.scripts);
        let styles = web_paths(&page_entry.styles);
        let mut body = "<div id='root'>".to_owned();
        body.append(self.body.as_str());
        body.append("</div>");
        let props = HtmlProps::new().lang("en").head(self.head.as_str()).body(
            body.as_str(),
        ).scripts(scripts).styles(styles);
        let built = props.build();
        let out = HtmlBuilder::new(HtmlTemplate::default(), built).generate();
        proof {
            assert(crate::html::spec_strings(built.scripts@) =~= spec_web_paths(
                page_entry@.scripts,
            ));
            assert(crate::html::spec_strings(built.styles@) =~= spec_web_paths(
                page_entry@.styles,
            ));
            assert(built.body@ =~= spec_root_div(self.spec_body()));
        }
        out
    }
}

} // verus!
