//! Hydration-script generation.
//!
//! For every page, the client build synthesizes a script that imports
//! the shared application shell and the page component and hydrates
//! the server-rendered markup under a root element.  The script text
//! is a fixed template around the two import paths and the root
//! element's ID.

use vstd::prelude::*;
use crate::error::BuildError;
use crate::traits::Generate;

verus! {

/// The text of the hydration script for the shell at `app`, the page
/// at `page`, and the root element `root_id`.
pub open spec fn spec_hydrate_script(
    app: Seq<char>,
    page: Seq<char>,
    root_id: Seq<char>,
) -> Seq<char> {
    "import App from \""@ + app + "\"\nimport Page from \""@ + page
        + "\"\nimport { hydrateRoot } from \"react-dom/client\"\nimport React from \"react\"\n\nhydrateRoot(document.getElementById(\""@
        + root_id + "\"), <App Component={Page} />);\n"@
}

/// A hydration-script generator for one page.
#[derive(Debug)]
pub struct Hydrator {
    app_path: String,
    page_path: String,
    root_id: String,
}

impl Hydrator {
    /// The shell path handed in.
    pub closed spec fn spec_app(self) -> Seq<char> {
        self.app_path@
    }

    /// The page path handed in.
    pub closed spec fn spec_page(self) -> Seq<char> {
        self.page_path@
    }

    /// The root element ID handed in.
    pub closed spec fn spec_root_id(self) -> Seq<char> {
        self.root_id@
    }

    /// Remembers the import paths and the root element ID.
    pub fn new(app_path: &str, page_path: &str, root_id: &str) -> (s: Self)
        ensures
            s.spec_app() == app_path@,
            s.spec_page() == page_path@,
            s.spec_root_id() == root_id@,
    {
        Hydrator {
            app_path: app_path.to_owned(),
            page_path: page_path.to_owned(),
            root_id: root_id.to_owned(),
        }
    }
}

impl Generate for Hydrator {
    type Output = String;

    /// Renders the hydration template around the remembered paths and
    /// root ID.
    fn generate(&self) -> (r: Result<String, BuildError>)
        ensures
            r matches Ok(script) && script@ == spec_hydrate_script(
                self.spec_app(),
                self.spec_page(),
                self.spec_root_id(),
            ),
    {
        let mut out = "import App from \"".to_owned();
        out.append(self.app_path.as_str());
        out.append("\"\nimport Page from \"");
        out.append(self.page_path.as_str());
        out.append(
            "\"\nimport { hydrateRoot } from \"react-dom/client\"\nimport React from \"react\"\n\nhydrateRoot(document.getElementById(\"",
        );
        out.append(self.root_id.as_str());
        out.append("\"), <App Component={Page} />);\n");
        Ok(out)
    }
}

} // verus!
