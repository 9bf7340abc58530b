//! Source-language classification for the transpiler.
//!
//! A source file's extension decides its language and whether it
//! holds JSX.  The classification is the library's; the actual
//! transpilation runs outside it.

use vstd::prelude::*;
use crate::paths::ext_of;
use crate::paths::spec_ext;
use crate::paths::str_eq;

verus! {

/// The language of a source file.
#[derive(Debug, PartialEq, Eq, Structural, Clone, Copy)]
pub enum Lang {
    TypeScript,
    JavaScript,
}

/// `f` names a TypeScript file.
pub open spec fn spec_is_typescript(f: Seq<char>) -> bool {
    spec_ext(f) == Some("ts"@) || spec_ext(f) == Some("tsx"@)
}

/// `f` names a file holding JSX.
pub open spec fn spec_is_react(f: Seq<char>) -> bool {
    spec_ext(f) == Some("tsx"@) || spec_ext(f) == Some("jsx"@)
}

/// One source file, classified.
#[derive(Debug)]
pub struct Compiler {
    pub filepath: String,
    pub lang: Lang,
    pub is_react: bool,
}

impl Compiler {
    /// Classifies the file at `filepath` by its extension.
    pub fn new(filepath: &str) -> (c: Self)
        ensures
            c.filepath@ == filepath@,
            c.lang == (if spec_is_typescript(filepath@) {
                Lang::TypeScript
            } else {
                Lang::JavaScript
            }),
            c.is_react == spec_is_react(filepath@),
    {
        let is_typescript: bool;
        let is_react: bool;
        match ext_of(filepath) {
            Some(e) => {
                let e = e.as_str();
                is_typescript = str_eq(e, "ts") || str_eq(e, "tsx");
                is_react = str_eq(e, "tsx") || str_eq(e, "jsx");
            },
            None => {
                is_typescript = false;
                is_react = false;
            },
        }
        Compiler {
            filepath: filepath.to_owned(),
            lang: if is_typescript {
                Lang::TypeScript
            } else {
                Lang::JavaScript
            },
            is_react,
        }
    }
}

} // verus!
