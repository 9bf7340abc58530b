//! Project scaffolding.
//!
//! A new project is created from one of two built-in templates —
//! JavaScript or TypeScript — with the project's name, version and
//! description substituted into the manifest file and the head
//! component.  Writing the files to disk happens outside the
//! library.

use vstd::prelude::*;
use crate::html::replace_all;
use crate::html::spec_replace;

verus! {

/// The scaffolding language.
#[derive(Debug, PartialEq, Eq, Structural, Clone, Copy)]
pub enum Template {
    Javascript,
    Typescript,
}

impl Template {
    /// The template named by `value`, when it names one.
    pub fn parse(value: &str) -> (r: Option<Template>)
        ensures
            r is Some <==> (value@ == "javascript"@ || value@ == "js"@ || value@ == "typescript"@
                || value@ == "ts"@),
            (value@ == "javascript"@ || value@ == "js"@) ==> r == Some(Template::Javascript),
            (value@ == "typescript"@ || value@ == "ts"@) ==> r == Some(Template::Typescript),
    {
        if crate::paths::str_eq(value, "javascript") || crate::paths::str_eq(value, "js") {
            proof {
                reveal_strlit("javascript");
                reveal_strlit("js");
                reveal_strlit("typescript");
                reveal_strlit("ts");
                assert("javascript"@[0] == 'j' && "typescript"@[0] == 't');
                assert("js"@[0] == 'j' && "ts"@[0] == 't');
                assert("javascript"@.len() == 10 && "js"@.len() == 2);
                assert("javascript"@ != "typescript"@ && "javascript"@ != "ts"@);
                assert("js"@ != "typescript"@ && "js"@ != "ts"@);
            }
            Some(Template::Javascript)
        } else if crate::paths::str_eq(value, "typescript") || crate::paths::str_eq(value, "ts") {
            proof {
                reveal_strlit("javascript");
                reveal_strlit("js");
                reveal_strlit("typescript");
                reveal_strlit("ts");
            }
            Some(Template::Typescript)
        } else {
            None
        }
    }

    /// The name of the template.
    pub fn to_string(&self) -> (r: String)
        ensures
            *self == Template::Javascript ==> r@ == "javascript"@,
            *self == Template::Typescript ==> r@ == "typescript"@,
    {
        match self {
            Template::Javascript => "javascript".to_owned(),
            Template::Typescript => "typescript".to_owned(),
        }
    }

    /// The component file extension of the template.
    pub fn ext(&self) -> (r: &'static str)
        ensures
            *self == Template::Javascript ==> r@ == "jsx"@,
            *self == Template::Typescript ==> r@ == "tsx"@,
    {
        match self {
            Template::Javascript => "jsx",
            Template::Typescript => "tsx",
        }
    }

    /// The extension of the template's component files.
    pub open spec fn spec_ext(self) -> Seq<char> {
        if self == Template::Javascript {
            "jsx"@
        } else {
            "tsx"@
        }
    }

    /// The files of a fresh project: the package manifest with name,
    /// version and description substituted; the shared shell and the
    /// index page exactly as the template holds them; and the shared
    /// head with name and version substituted.
    pub fn load(&self, creator: &Creator) -> (r: Vec<(String, String)>)
        ensures
            r@.len() == 4,
            r@[0].0@ == "package.json"@,
            r@[0].1@ == spec_replace(
                spec_replace(
                    spec_replace(spec_package_json(), "%NAME%"@, creator.project_name@),
                    "%VER%"@,
                    creator.version@,
                ),
                "%DESC%"@,
                creator.description@,
            ),
            r@[1].0@ == "src/_app."@ + self.spec_ext(),
            r@[1].1@ == spec_app_component(),
            r@[2].0@ == "src/_head."@ + self.spec_ext(),
            r@[2].1@ == spec_replace(
                spec_replace(spec_head_component(), "%NAME%"@, creator.project_name@),
                "%VER%"@,
                creator.version@,
            ),
            r@[3].0@ == "src/pages/index."@ + self.spec_ext(),
            r@[3].1@ == spec_index_component(),
    {
        let ext = self.ext();
        let mut r: Vec<(String, String)> = Vec::new();
        let package = replace_all(
            replace_all(
                replace_all(
                    "{\n  \"name\": \"%NAME%\",\n  \"version\": \"%VER%\",\n  \"description\": \"%DESC%\",\n  \"dependencies\": {\n    \"react\": \"latest\",\n    \"react-dom\": \"latest\"\n  }\n}\n",
                    "%NAME%",
                    creator.project_name.as_str(),
                ).as_str(),
                "%VER%",
                creator.version.as_str(),
            ).as_str(),
            "%DESC%",
            creator.description.as_str(),
        );
        r.push(("package.json".to_owned(), package));
        let mut app_name = "src/_app.".to_owned();
        app_name.append(ext);
        proof {
            assert(app_name@ =~= "src/_app."@ + self.spec_ext());
        }
        r.push(
            (
                app_name,
                "import React from \"react\"\n\nexport default function App({ Component }) {\n    return <Component />;\n}\n".to_owned(),
            ),
        );
        let head = replace_all(
            replace_all(
                "import React from \"react\"\n\nexport default function Head() {\n    return (\n        <>\n            <meta charSet=\"utf-8\" />\n            <title>%NAME% %VER%</title>\n        </>\n    );\n}\n",
                "%NAME%",
                creator.project_name.as_str(),
            ).as_str(),
            "%VER%",
            creator.version.as_str(),
        );
        let mut head_name = "src/_head.".to_owned();
        head_name.append(ext);
        proof {
            assert(head_name@ =~= "src/_head."@ + self.spec_ext());
        }
        r.push((head_name, head));
        let mut index_name = "src/pages/index.".to_owned();
        index_name.append(ext);
        proof {
            assert(index_name@ =~= "src/pages/index."@ + self.spec_ext());
        }
        r.push(
            (
                index_name,
                "import React from \"react\"\n\nexport default function Index() {\n    return <h1>Hello World!</h1>;\n}\n".to_owned(),
            ),
        );
        r
    }
}

/// The package manifest template.
pub open spec fn spec_package_json() -> Seq<char> {
    "{\n  \"name\": \"%NAME%\",\n  \"version\": \"%VER%\",\n  \"description\": \"%DESC%\",\n  \"dependencies\": {\n    \"react\": \"latest\",\n    \"react-dom\": \"latest\"\n  }\n}\n"@
}

/// The application shell template.
pub open spec fn spec_app_component() -> Seq<char> {
    "import React from \"react\"\n\nexport default function App({ Component }) {\n    return <Component />;\n}\n"@
}

/// The index page template.
pub open spec fn spec_index_component() -> Seq<char> {
    "import React from \"react\"\n\nexport default function Index() {\n    return <h1>Hello World!</h1>;\n}\n"@
}

/// The head component template.
pub open spec fn spec_head_component() -> Seq<char> {
    "import React from \"react\"\n\nexport default function Head() {\n    return (\n        <>\n            <meta charSet=\"utf-8\" />\n            <title>%NAME% %VER%</title>\n        </>\n    );\n}\n"@
}

/// A project to scaffold.
#[derive(Debug)]
pub struct Creator {
    pub project_name: String,
    pub version: String,
    pub description: String,
    pub template: Template,
}

impl Creator {
    /// Remembers the project's name, version, description and
    /// template; an unknown template name falls back to TypeScript.
    pub fn new(project_name: &str, version: &str, desc: &str, template: &str) -> (c: Self)
        ensures
            c.project_name@ == project_name@,
            c.version@ == version@,
            c.description@ == desc@,
    {
        let t = match Template::parse(template) {
            Some(t) => t,
            None => Template::Typescript,
        };
        Creator {
            project_name: project_name.to_owned(),
            version: version.to_owned(),
            description: desc.to_owned(),
            template: t,
        }
    }
}

} // verus!
