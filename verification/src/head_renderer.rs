//! Head-script staging.
//!
//! The shared head markup is produced by a small script that imports
//! the project's head component and renders it to a string.  This
//! module synthesizes that script and stages it in the cache; loading
//! it into the engine and invoking `render_head` happen outside the
//! library, behind the load-once state.

use vstd::prelude::*;
use crate::cache_dir::CacheDir;
use crate::cache_dir::WriteAction;

verus! {

/// The text of the head-render script for the head component at
/// `path`.
pub open spec fn spec_head_script(path: Seq<char>) -> Seq<char> {
    "import Head from \""@ + path
        + "\"\nimport { renderToString } from \"react-dom/server\"\nimport React from \"react\"\n\nexport function render_head() {\n    return renderToString(<Head />);\n}\n"@
}

/// Stages the head-render script of one build session.
pub struct HeadRenderer {
    path: String,
}

impl HeadRenderer {
    /// The head component's path.
    pub closed spec fn spec_path(self) -> Seq<char> {
        self.path@
    }

    /// Remembers the head component's path.
    pub fn new(path: &str) -> (r: Self)
        ensures
            r.spec_path() == path@,
    {
        HeadRenderer { path: path.to_owned() }
    }

    /// The head-render script text.
    pub fn script(&self) -> (r: String)
        ensures
            r@ == spec_head_script(self.spec_path()),
    {
        let mut out = "import Head from \"".to_owned();
        out.append(self.path.as_str());
        out.append(
            "\"\nimport { renderToString } from \"react-dom/server\"\nimport React from \"react\"\n\nexport function render_head() {\n    return renderToString(<Head />);\n}\n",
        );
        out
    }

    /// Stages the script under `head.js` in the cache and returns the
    /// bundler entry map for it: the entry name `head` mapped to the
    /// staged path.
    pub fn bundling_target(&self, cache: &mut CacheDir) -> (r: (
        Vec<(String, String)>,
        WriteAction,
    ))
        ensures
            r.0@.len() == 1,
            r.0@[0].0@ == "head"@,
            r.0@[0].1@ == old(cache).spec_dir() + "/"@ + "head.js"@,
            final(cache).spec_dir() == old(cache).spec_dir(),
            final(cache).spec_content("head.js"@) == Some(
                vstd::utf8::encode_utf8(spec_head_script(self.spec_path())),
            ),
            forall|k: Seq<char>|
                k != "head.js"@ ==> final(cache).spec_content(k) == old(cache).spec_content(k),
    {
        let script = self.script();
        let (path, action) = cache.insert("head.js", script.as_str().as_bytes());
        let mut r: Vec<(String, String)> = Vec::new();
        r.push(("head".to_owned(), path));
        (r, action)
    }
}

} // verus!
