//! Source-tree analysis.
//!
//! A source tree holds routable pages under its `pages/` subdirectory
//! and two required singleton entries — the shared application shell
//! (`_app`) and the shared head markup (`_head`) — anywhere in the
//! tree.  The analyzer walks the tree once and classifies every script
//! file into one of those roles.

use vstd::prelude::*;
use crate::error::BuildError;
use crate::kv::find_key;
use crate::kv::spec_has_key;
use crate::kv::spec_keys_unique;
use crate::paths::ext_of;
use crate::paths::spec_ext;
use crate::paths::spec_stem;
use crate::paths::spec_strip_prefix;
use crate::paths::stem_of;
use crate::paths::str_eq;
use crate::paths::strip_prefix;
use crate::sys::walk_dir;
use vstd::pervasive::VecAdditionalExecFns;

verus! {

/// The resolved path of the `_app` special entry.
#[derive(Debug)]
pub struct App(pub String);

/// The resolved path of the `_head` special entry.
#[derive(Debug)]
pub struct Head(pub String);

/// `f` has one of the recognised script extensions.
pub open spec fn spec_is_script(f: Seq<char>) -> bool {
    ||| spec_ext(f) == Some("js"@)
    ||| spec_ext(f) == Some("jsx"@)
    ||| spec_ext(f) == Some("ts"@)
    ||| spec_ext(f) == Some("tsx"@)
}

/// The `pages/`-relative part of `f` under `root`, when `f` lies in
/// the `pages` subtree.
pub open spec fn spec_page_rel(root: Seq<char>, f: Seq<char>) -> Option<Seq<char>> {
    match spec_strip_prefix(f, root) {
        Option::None => Option::None,
        Option::Some(rest) => spec_strip_prefix(rest, "pages"@),
    }
}

/// `f` is a script file under `root` whose stem is `name`.
pub open spec fn spec_is_special(root: Seq<char>, f: Seq<char>, name: Seq<char>) -> bool {
    &&& spec_is_script(f)
    &&& (match spec_strip_prefix(f, root) {
        Option::None => false,
        Option::Some(rest) => rest.len() > 0,
    })
    &&& spec_stem(f) == name
}

/// `f` resolves the `_app` special entry of the tree under `root`.
pub open spec fn spec_is_app_entry(root: Seq<char>, f: Seq<char>) -> bool {
    spec_is_special(root, f, "_app"@)
}

/// `f` resolves the `_head` special entry of the tree under `root`.
pub open spec fn spec_is_head_entry(root: Seq<char>, f: Seq<char>) -> bool {
    spec_is_special(root, f, "_head"@)
}

/// `f` is a routable page of the tree under `root`: a script file in
/// the `pages` subtree that is not a special entry.
pub open spec fn spec_is_page_entry(root: Seq<char>, f: Seq<char>) -> bool {
    &&& spec_is_script(f)
    &&& spec_stem(f) != "_app"@
    &&& spec_stem(f) != "_head"@
    &&& spec_page_rel(root, f) is Some
}

/// What the analyzer found: the page map (route key, with extension,
/// to file path) and the two optional special entries.
#[derive(Debug)]
pub struct SourceDirContainer {
    pub pages: Vec<(String, String)>,
    pub specials: (Option<App>, Option<Head>),
}

impl SourceDirContainer {
    /// Packs an analysis result.
    pub fn new(pages: Vec<(String, String)>, specials: (Option<App>, Option<Head>)) -> (c: Self)
        ensures
            c.pages == pages,
            c.specials == specials,
    {
        SourceDirContainer { pages, specials }
    }

    /// Resolves the two special entries, or says which are missing.
    /// Succeeds exactly when both were found.
    pub fn specials(&self) -> (r: Result<(App, Head), BuildError>)
        ensures
            match r {
                Result::Ok((a, h)) => {
                    &&& self.specials.0 matches Some(sa) && sa.0@ == a.0@
                    &&& self.specials.1 matches Some(sh) && sh.0@ == h.0@
                },
                Result::Err(e) => {
                    &&& (self.specials.0 is None || self.specials.1 is None)
                    &&& e matches BuildError::MissingSpecialEntries { app, head } && app == (
                    self.specials.0 is None) && head == (self.specials.1 is None)
                },
            },
    {
        match (&self.specials.0, &self.specials.1) {
            (Some(a), Some(h)) => Ok((App(a.0.clone()), Head(h.0.clone()))),
            (a, h) => Err(
                BuildError::MissingSpecialEntries { app: a.is_none(), head: h.is_none() },
            ),
        }
    }

    /// The discovered pages, route key to file path.
    pub fn pages(&self) -> (r: Vec<(String, String)>)
        ensures
            r@.len() == self.pages@.len(),
            forall|j: int|
                0 <= j < r@.len() ==> r@[j].0@ == self.pages@[j].0@ && r@[j].1@
                    == self.pages@[j].1@,
    {
        let n = self.pages.len();
        let mut r: Vec<(String, String)> = Vec::new();
        let mut i: usize = 0;
        while i < n
            invariant
                n == self.pages@.len(),
                0 <= i <= n,
                r@.len() == i,
                forall|j: int|
                    0 <= j < i ==> r@[j].0@ == self.pages@[j].0@ && r@[j].1@
                        == self.pages@[j].1@,
            decreases n - i,
        {
            let k = self.pages[i].0.clone();
            let v = self.pages[i].1.clone();
            r.push((k, v));
            i += 1;
        }
        r
    }
}

/// `f` has one of the recognised script extensions.
pub fn is_script_file(f: &str) -> (r: bool)
    ensures
        r == spec_is_script(f@),
{
    match ext_of(f) {
        Some(e) => {
            let e = e.as_str();
            str_eq(e, "js") || str_eq(e, "jsx") || str_eq(e, "ts") || str_eq(e, "tsx")
        },
        None => false,
    }
}

/// Every page entry of `pages` comes from one of the first `m` walked
/// files and carries its `pages/`-relative route key.
pub open spec fn spec_pages_sound(
    root: Seq<char>,
    files: Seq<String>,
    m: int,
    pages: Seq<(String, String)>,
) -> bool {
    forall|j: int|
        0 <= j < pages.len() ==> spec_is_page_entry(root, (#[trigger] pages[j]).1@) && pages[j].0@
            == spec_page_rel(root, pages[j].1@).unwrap() && exists|i: int|
            0 <= i < m && (#[trigger] files[i])@ == pages[j].1@
}

/// Every page file among the first `m` walked files is represented in
/// `pages` under its route key.
pub open spec fn spec_pages_complete(
    root: Seq<char>,
    files: Seq<String>,
    m: int,
    pages: Seq<(String, String)>,
) -> bool {
    forall|i: int|
        0 <= i < m && spec_is_page_entry(root, (#[trigger] files[i])@) ==> spec_has_key(
            pages,
            spec_page_rel(root, files[i]@).unwrap(),
        )
}

/// The slot of the special entry named `name` holds the last matching
/// file among the first `m` walked files, or nothing when none match.
pub open spec fn spec_special_state(
    root: Seq<char>,
    files: Seq<String>,
    m: int,
    cur: Option<Seq<char>>,
    name: Seq<char>,
) -> bool {
    match cur {
        Option::Some(p) => exists|i: int|
            0 <= i < m && (#[trigger] files[i])@ == p && spec_is_special(root, files[i]@, name)
                && forall|i2: int|
                i < i2 < m ==> !spec_is_special(root, (#[trigger] files[i2])@, name),
        Option::None => forall|i: int|
            0 <= i < m ==> !spec_is_special(root, (#[trigger] files[i])@, name),
    }
}

/// The view of an optional special entry.
pub open spec fn spec_app_view(a: Option<App>) -> Option<Seq<char>> {
    match a {
        Option::Some(a) => Option::Some(a.0@),
        Option::None => Option::None,
    }
}

/// The view of an optional special entry.
pub open spec fn spec_head_view(h: Option<Head>) -> Option<Seq<char>> {
    match h {
        Option::Some(h) => Option::Some(h.0@),
        Option::None => Option::None,
    }
}

/// [`spec_analyze_post`] restricted to the first `m` walked files.
pub open spec fn spec_analyze_upto(
    root: Seq<char>,
    files: Seq<String>,
    m: int,
    c: SourceDirContainer,
) -> bool {
    &&& spec_pages_sound(root, files, m, c.pages@)
    &&& spec_pages_complete(root, files, m, c.pages@)
    &&& spec_keys_unique(c.pages@)
    &&& spec_special_state(root, files, m, spec_app_view(c.specials.0), "_app"@)
    &&& spec_special_state(root, files, m, spec_head_view(c.specials.1), "_head"@)
}

/// What the analyzer must say of its result `c`, given the walked
/// plain files `files` of the tree under `root`:
/// every page entry comes from a page file and carries its
/// `pages/`-relative route key; every page file is represented under
/// its route key; route keys are unique; and each special entry slot
/// holds the last matching file of the walk, or `None` when the walk
/// has none.
pub open spec fn spec_analyze_post(
    root: Seq<char>,
    files: Seq<String>,
    c: SourceDirContainer,
) -> bool {
    spec_analyze_upto(root, files, files.len() as int, c)
}

/// Classifies each of the walked `files` of the tree under `root`.
pub fn analyze_files(root: &str, files: &Vec<String>) -> (c: SourceDirContainer)
    ensures
        spec_analyze_post(root@, files@, c),
{
    let n = files.len();
    let mut pages: Vec<(String, String)> = Vec::new();
    let mut app: Option<App> = None;
    let mut head: Option<Head> = None;
    let mut i: usize = 0;
    while i < n
        invariant
            n == files@.len(),
            0 <= i <= n,
            spec_analyze_upto(
                root@,
                files@,
                i as int,
                SourceDirContainer { pages, specials: (app, head) },
            ),
        decreases n - i,
    {
        let f = files[i].as_str();
        let ghost fv = files@[i as int]@;
        let mut classified_page: bool = false;
        if is_script_file(f) {
            let rest_opt = strip_prefix(f, root);
            match rest_opt {
                Some(rest) => {
                    if rest.as_str().unicode_len() == 0 {
                        proof {
                            reveal_strlit("pages");
                            assert(!spec_is_special(root@, fv, "_app"@));
                            assert(!spec_is_special(root@, fv, "_head"@));
                            assert(spec_page_rel(root@, fv) is None);
                            assert(!spec_is_page_entry(root@, fv));
                        }
                    } else {
                    let stem = stem_of(f);
                    if str_eq(stem.as_str(), "_app") {
                        proof {
                            reveal_strlit("_app");
                            reveal_strlit("_head");
                            assert("_app"@.len() == 4);
                            assert("_head"@.len() == 5);
                            assert(spec_is_app_entry(root@, fv));
                            assert(!spec_is_special(root@, fv, "_head"@));
                        }
                        app = Some(App(files[i].clone()));
                    } else if str_eq(stem.as_str(), "_head") {
                        proof {
                            reveal_strlit("_app");
                            reveal_strlit("_head");
                            assert(spec_is_head_entry(root@, fv));
                            assert(!spec_is_special(root@, fv, "_app"@));
                        }
                        head = Some(Head(files[i].clone()));
                    } else {
                        match strip_prefix(rest.as_str(), "pages") {
                            Some(rel) => {
                                proof {
                                    assert(spec_is_page_entry(root@, fv));
                                    assert(spec_page_rel(root@, fv) == Some(rel@));
                                }
                                classified_page = true;
                                match find_key(&pages, rel.as_str()) {
                                    Some(j) => {
                                        let ghost prepages = pages@;
                                        pages.set(j, (rel, files[i].clone()));
                                        proof {
                                            assert(forall|k: int|
                                                0 <= k < pages@.len() && k != j ==> pages@[k] == (
                                                #[trigger] prepages[k]));
                                            assert(pages@[j as int].0@ == prepages[j as int].0@);
                                            assert(spec_keys_unique(pages@));
                                            assert(forall|k: Seq<char>|
                                                spec_has_key(prepages, k) ==> spec_has_key(
                                                    pages@,
                                                    k,
                                                ));
                                        }
                                    },
                                    None => {
                                        let ghost prepages = pages@;
                                        pages.push((rel, files[i].clone()));
                                        proof {
                                            assert(forall|k: int|
                                                0 <= k < prepages.len() ==> pages@[k] == (
                                                #[trigger] prepages[k]));
                                            assert(pages@[prepages.len() as int].0@ == rel@);
                                            assert(spec_keys_unique(pages@));
                                            assert(forall|k: Seq<char>|
                                                spec_has_key(prepages, k) ==> spec_has_key(
                                                    pages@,
                                                    k,
                                                ));
                                        }
                                    },
                                }
                            },
                            None => {
                                proof {
                                    assert(!spec_is_page_entry(root@, fv));
                                }
                            },
                        }
                    }
                    }
                },
                None => {
                    proof {
                        assert(!spec_is_special(root@, fv, "_app"@));
                        assert(!spec_is_special(root@, fv, "_head"@));
                        assert(!spec_is_page_entry(root@, fv));
                    }
                },
            }
        } else {
            proof {
                assert(!spec_is_script(fv));
            }
        }
        proof {
            if !classified_page && spec_is_page_entry(root@, fv) {
                assert(spec_has_key(pages@, spec_page_rel(root@, fv).unwrap()));
            }
            let m2 = i as int + 1;
            assert(spec_pages_sound(root@, files@, m2, pages@));
            assert(spec_pages_complete(root@, files@, m2, pages@));
            assert(spec_keys_unique(pages@));
            assert(spec_special_state(root@, files@, m2, spec_app_view(app), "_app"@));
            assert(spec_special_state(root@, files@, m2, spec_head_view(head), "_head"@));
        }
        i += 1;
    }
    SourceDirContainer { pages, specials: (app, head) }
}

/// Some walk of the disk classifies with these special entries
/// missing: the flags say which slots came out empty, and at least
/// one did.
pub open spec fn spec_some_walk_missing(root: Seq<char>, app: bool, head: bool) -> bool {
    &&& (app || head)
    &&& exists|files: Seq<String>, c: SourceDirContainer|
        #[trigger] spec_analyze_post(root, files, c) && app == (c.specials.0 is None) && head == (
        c.specials.1 is None)
}

/// A source tree to analyze.
#[derive(Debug)]
pub struct SourceDir(String);

impl SourceDir {
    /// The root path of the tree.
    pub closed spec fn spec_path(self) -> Seq<char> {
        self.0@
    }

    /// Points the analyzer at the tree under `path`.
    pub fn new(path: &str) -> (s: Self)
        ensures
            s.spec_path() == path@,
    {
        SourceDir(path.to_owned())
    }

    /// Walks the tree once and classifies its files.  What is found
    /// depends on the disk; whatever the walk yields, the result is a
    /// faithful classification of it, and the analysis fails exactly
    /// when a special entry is missing from the walked tree.
    pub fn analyze(&self) -> (r: Result<SourceDirContainer, BuildError>)
        ensures
            match r {
                Result::Ok(c) => {
                    &&& c.specials.0 is Some && c.specials.1 is Some
                    &&& exists|files: Seq<String>| spec_analyze_post(self.spec_path(), files, c)
                },
                Result::Err(e) => e matches BuildError::MissingSpecialEntries { app, head }
                    && spec_some_walk_missing(self.spec_path(), app, head),
            },
    {
        let walked = walk_dir(self.0.as_str());
        let mut files: Vec<String> = Vec::new();
        let n = walked.len();
        let mut i: usize = 0;
        while i < n
            invariant
                n == walked@.len(),
                0 <= i <= n,
            decreases n - i,
        {
            if walked[i].1 {
                files.push(walked[i].0.clone());
            }
            i += 1;
        }
        let c = analyze_files(self.0.as_str(), &files);
        if c.specials.0.is_some() && c.specials.1.is_some() {
            proof {
                assert(spec_analyze_post(self.spec_path(), files@, c));
            }
            Ok(c)
        } else {
            proof {
                assert(spec_analyze_post(self.spec_path(), files@, c));
                assert(spec_some_walk_missing(
                    self.spec_path(),
                    c.specials.0 is None,
                    c.specials.1 is None,
                ));
            }
            Err(
                BuildError::MissingSpecialEntries {
                    app: c.specials.0.is_none(),
                    head: c.specials.1.is_none(),
                },
            )
        }
    }
}

} // verus!
