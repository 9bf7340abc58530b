//! Bundler-output analysis.
//!
//! After the bundler has emitted its files, the `pages/` subtree of
//! the output directory is walked once and every script or style asset
//! is grouped under the route of its parent directory: the directory's
//! path relative to `pages/`, with the empty path standing for the
//! site root sentinel.

use vstd::prelude::*;
use crate::error::BuildError;
use crate::kv::find_key;
use crate::kv::lemma_get_at_index;
use crate::kv::lemma_get_push_all;
use crate::kv::lemma_get_some_key;
use crate::kv::lemma_get_update_all;
use crate::kv::spec_get;
use crate::kv::spec_keys_unique;
use crate::paths::ext_of;
use crate::paths::parent_of;
use crate::paths::route_of;
use crate::paths::spec_ext;
use crate::paths::spec_parent;
use crate::paths::spec_route_of;
use crate::paths::spec_strip_prefix;
use crate::paths::strip_prefix;
use crate::paths::str_eq;
use crate::sys::path_exists;
use crate::sys::walk_dir;
use vstd::pervasive::VecAdditionalExecFns;

verus! {

/// The assets of one route: emitted script files, emitted style
/// files, and the directory they live in.  The directory path is the
/// walked parent exactly as the walk spelled it — rooted at the
/// output directory the analyzer was pointed at, not resolved
/// against the disk; a consumer that needs the absolute form
/// resolves it at its own edge.
#[derive(Debug)]
pub struct PageEntry {
    pub scripts: Vec<String>,
    pub styles: Vec<String>,
    pub path: String,
}

impl PageEntry {
    /// A fresh entry for the directory at `path`, with no assets yet.
    pub fn new(path: String) -> (e: Self)
        ensures
            e.path@ == path@,
            e.scripts@.len() == 0,
            e.styles@.len() == 0,
    {
        PageEntry { scripts: Vec::new(), styles: Vec::new(), path }
    }

    /// Appends a script asset.
    pub fn push_script(&mut self, path: &str)
        ensures
            final(self).scripts@.len() == old(self).scripts@.len() + 1,
            forall|k: int|
                0 <= k < old(self).scripts@.len() ==> final(self).scripts@[k]
                    == old(self).scripts@[k],
            final(self).scripts@[old(self).scripts@.len() as int]@ == path@,
            final(self).styles == old(self).styles,
            final(self).path == old(self).path,
    {
        self.scripts.push(path.to_owned());
    }

    /// A copy of the entry with the same content.
    pub fn duplicate(&self) -> (r: Self)
        ensures
            r@ == self@,
    {
        let r = PageEntry {
            scripts: clone_strings(&self.scripts),
            styles: clone_strings(&self.styles),
            path: self.path.clone(),
        };
        proof {
            assert(r@.scripts =~= self@.scripts);
            assert(r@.styles =~= self@.styles);
        }
        r
    }

    /// Appends a style asset.
    pub fn push_style(&mut self, path: &str)
        ensures
            final(self).styles@.len() == old(self).styles@.len() + 1,
            forall|k: int|
                0 <= k < old(self).styles@.len() ==> final(self).styles@[k]
                    == old(self).styles@[k],
            final(self).styles@[old(self).styles@.len() as int]@ == path@,
            final(self).scripts == old(self).scripts,
            final(self).path == old(self).path,
    {
        self.styles.push(path.to_owned());
    }
}

/// The result of analyzing the output tree: route to asset group.
#[derive(Debug)]
pub struct DistDirContainer {
    pub pages: Vec<(String, PageEntry)>,
}

/// The mathematical content of a [`PageEntry`].
pub struct PageEntryView {
    pub scripts: Seq<Seq<char>>,
    pub styles: Seq<Seq<char>>,
    pub path: Seq<char>,
}

impl View for PageEntry {
    type V = PageEntryView;

    open spec fn view(&self) -> PageEntryView {
        PageEntryView {
            scripts: Seq::new(self.scripts@.len(), |i: int| self.scripts@[i]@),
            styles: Seq::new(self.styles@.len(), |i: int| self.styles@[i]@),
            path: self.path@,
        }
    }
}

/// An emitted script asset.
pub open spec fn spec_is_js(f: Seq<char>) -> bool {
    spec_ext(f) == Some("js"@)
}

/// An emitted style asset.
pub open spec fn spec_is_css(f: Seq<char>) -> bool {
    spec_ext(f) == Some("css"@)
}

/// The route an asset at `f` is grouped under, relative to the walked
/// `pages` root.
pub open spec fn spec_asset_route(root: Seq<char>, f: Seq<char>) -> Option<Seq<char>> {
    match spec_strip_prefix(spec_parent(f), root) {
        Option::None => Option::None,
        Option::Some(rel) => Option::Some(spec_route_of(rel)),
    }
}

/// `x` is one of the strings of `v`.
pub open spec fn spec_in_strings(v: Seq<Seq<char>>, x: Seq<char>) -> bool {
    exists|k: int| 0 <= k < v.len() && v[k] == x
}

/// The asset `f` is recorded in its place in `pages`: its route is a
/// key, and the file stands in that entry's script or style list.
pub open spec fn spec_asset_recorded(
    root: Seq<char>,
    pages: Seq<(String, PageEntry)>,
    f: Seq<char>,
    js: bool,
) -> bool {
    match spec_get(pages, spec_asset_route(root, f).unwrap()) {
        Option::None => false,
        Option::Some(e) => if js {
            spec_in_strings(e.scripts, f)
        } else {
            spec_in_strings(e.styles, f)
        },
    }
}

/// `idx` orders the list `v` along the walk: one strictly increasing
/// walk position below `m` per item, each holding that item.
pub open spec fn spec_order_witness(
    files: Seq<String>,
    m: int,
    v: Seq<Seq<char>>,
    idx: Seq<int>,
) -> bool {
    &&& idx.len() == v.len()
    &&& forall|a: int| 0 <= a < idx.len() ==> 0 <= #[trigger] idx[a] < m && files[idx[a]]@ == v[a]
    &&& forall|a: int, b: int| 0 <= a < b < idx.len() ==> idx[a] < idx[b]
}

/// The list `v` holds walked files in walk order: some strictly
/// increasing sequence of walk positions below `m` yields it.
pub open spec fn spec_listed_in_order(files: Seq<String>, m: int, v: Seq<Seq<char>>) -> bool {
    exists|idx: Seq<int>| #[trigger] spec_order_witness(files, m, v, idx)
}

/// A walk-order witness survives a longer walk.
proof fn lemma_order_witness_mono(files: Seq<String>, m1: int, m2: int, v: Seq<Seq<char>>)
    requires
        m1 <= m2,
        spec_listed_in_order(files, m1, v),
    ensures
        spec_listed_in_order(files, m2, v),
{
    let idx = choose|idx: Seq<int>| spec_order_witness(files, m1, v, idx);
    assert(spec_order_witness(files, m2, v, idx));
}

/// Appending the current walk entry keeps the list in walk order.
proof fn lemma_order_witness_push(files: Seq<String>, i: int, v: Seq<Seq<char>>)
    requires
        0 <= i < files.len(),
        spec_listed_in_order(files, i, v),
    ensures
        spec_listed_in_order(files, i + 1, v.push(files[i]@)),
{
    let idx = choose|idx: Seq<int>| spec_order_witness(files, i, v, idx);
    let idx2 = idx.push(i);
    assert forall|a: int| 0 <= a < idx2.len() implies 0 <= #[trigger] idx2[a] < i + 1 && files[
        idx2[a]
    ]@ == v.push(files[i]@)[a] by {
        if a < idx.len() {
            assert(idx2[a] == idx[a]);
            assert(v.push(files[i]@)[a] == v[a]);
        } else {
            assert(idx2[a] == i);
            assert(v.push(files[i]@)[a] == files[i]@);
        }
    }
    assert forall|a: int, b: int| 0 <= a < b < idx2.len() implies idx2[a] < idx2[b] by {
        if b < idx.len() {
            assert(idx2[a] == idx[a] && idx2[b] == idx[b]);
        } else {
            assert(idx2[a] == idx[a] && idx2[b] == i);
        }
    }
    assert(spec_order_witness(files, i + 1, v.push(files[i]@), idx2));
}

/// A one-item list of the current walk entry is in walk order, and so
/// is an empty list.
proof fn lemma_order_witness_base(files: Seq<String>, i: int)
    requires
        0 <= i < files.len(),
    ensures
        spec_listed_in_order(files, i + 1, seq![files[i]@]),
        spec_listed_in_order(files, i + 1, Seq::<Seq<char>>::empty()),
{
    let idx1: Seq<int> = seq![i];
    assert(spec_order_witness(files, i + 1, seq![files[i]@], idx1));
    let idx0: Seq<int> = Seq::empty();
    assert(spec_order_witness(files, i + 1, Seq::<Seq<char>>::empty(), idx0));
}

/// What the grouping must say of `pages`, given the first `m` walked
/// files of the tree under `root`: route keys are unique; every entry
/// was opened for a walked asset and records that asset's directory;
/// every recorded asset is a walked script or style file of that
/// entry's route, and each entry's lists follow the walk order; and
/// every walked script or style file is recorded under its route.
pub open spec fn spec_dist_upto(
    root: Seq<char>,
    files: Seq<String>,
    m: int,
    pages: Seq<(String, PageEntry)>,
) -> bool {
    &&& spec_keys_unique(pages)
    &&& forall|j: int|
        0 <= j < pages.len() ==> exists|i: int|
            0 <= i < m && spec_asset_route(root, (#[trigger] files[i])@) == Some(
                (#[trigger] pages[j]).0@,
            ) && pages[j].1.path@ == spec_parent(files[i]@)
    &&& forall|j: int, k: int|
        0 <= j < pages.len() && 0 <= k < (#[trigger] pages[j]).1@.scripts.len() ==> spec_is_js(
            #[trigger] pages[j].1@.scripts[k],
        ) && spec_asset_route(root, pages[j].1@.scripts[k]) == Some(pages[j].0@) && exists|i: int|
            0 <= i < m && (#[trigger] files[i])@ == pages[j].1@.scripts[k]
    &&& forall|j: int, k: int|
        0 <= j < pages.len() && 0 <= k < (#[trigger] pages[j]).1@.styles.len() ==> spec_is_css(
            #[trigger] pages[j].1@.styles[k],
        ) && spec_asset_route(root, pages[j].1@.styles[k]) == Some(pages[j].0@) && exists|i: int|
            0 <= i < m && (#[trigger] files[i])@ == pages[j].1@.styles[k]
    &&& forall|i: int|
        0 <= i < m && spec_is_js((#[trigger] files[i])@) && spec_asset_route(root, files[i]@)
            is Some ==> spec_asset_recorded(root, pages, files[i]@, true)
    &&& forall|i: int|
        0 <= i < m && spec_is_css((#[trigger] files[i])@) && spec_asset_route(root, files[i]@)
            is Some ==> spec_asset_recorded(root, pages, files[i]@, false)
    &&& forall|j: int|
        0 <= j < pages.len() ==> spec_listed_in_order(files, m, (#[trigger] pages[j]).1@.scripts)
    &&& forall|j: int|
        0 <= j < pages.len() ==> spec_listed_in_order(files, m, (#[trigger] pages[j]).1@.styles)
}

/// Some walk of the disk yields exactly this grouping.
pub open spec fn spec_some_walk_grouped(
    root: Seq<char>,
    pages: Seq<(String, PageEntry)>,
) -> bool {
    exists|files: Seq<String>| spec_dist_post(root, files, pages)
}

/// The full grouping statement over all walked files.
pub open spec fn spec_dist_post(
    root: Seq<char>,
    files: Seq<String>,
    pages: Seq<(String, PageEntry)>,
) -> bool {
    spec_dist_upto(root, files, files.len() as int, pages)
}

/// A string list extended at its end keeps its members.
proof fn lemma_in_extend(v1: Seq<Seq<char>>, v2: Seq<Seq<char>>, x: Seq<char>)
    requires
        v1.len() <= v2.len(),
        forall|k: int| 0 <= k < v1.len() ==> v2[k] == v1[k],
        spec_in_strings(v1, x),
    ensures
        spec_in_strings(v2, x),
{
    let k = choose|k: int| 0 <= k < v1.len() && v1[k] == x;
    assert(0 <= k < v2.len() && v2[k] == x);
}

/// Clones a list of strings.
fn clone_strings(v: &Vec<String>) -> (r: Vec<String>)
    ensures
        r@.len() == v@.len(),
        forall|i: int| 0 <= i < v@.len() ==> r@[i]@ == v@[i]@,
{
    let n = v.len();
    let mut r: Vec<String> = Vec::new();
    let mut i: usize = 0;
    while i < n
        invariant
            n == v@.len(),
            0 <= i <= n,
            r@.len() == i,
            forall|j: int| 0 <= j < i ==> r@[j]@ == v@[j]@,
        decreases n - i,
    {
        r.push(v[i].clone());
        i += 1;
    }
    r
}

/// Groups the walked plain files of the `pages` tree at `root` by the
/// route of their parent directory.
#[verifier::rlimit(100)]
pub fn analyze_dist_files(root: &str, files: &Vec<String>) -> (c: DistDirContainer)
    ensures
        spec_dist_post(root@, files@, c.pages@),
{
    let n = files.len();
    let mut pages: Vec<(String, PageEntry)> = Vec::new();
    let mut i: usize = 0;
    while i < n
        invariant
            n == files@.len(),
            0 <= i <= n,
            spec_dist_upto(root@, files@, i as int, pages@),
        decreases n - i,
    {
        let f = files[i].as_str();
        let ghost fv = files@[i as int]@;
        let is_js: bool;
        let is_css: bool;
        match ext_of(f) {
            Some(e) => {
                is_js = str_eq(e.as_str(), "js");
                is_css = str_eq(e.as_str(), "css");
            },
            None => {
                is_js = false;
                is_css = false;
            },
        }
        proof {
            assert(is_js == spec_is_js(fv));
            assert(is_css == spec_is_css(fv));
        }
        if is_js || is_css {
            let parent = parent_of(f);
            match strip_prefix(parent.as_str(), root) {
                Some(rel) => {
                    let route = route_of(rel.as_str());
                    proof {
                        assert(spec_asset_route(root@, fv) == Some(route@));
                    }
                    match find_key(&pages, route.as_str()) {
                        Some(j) => {
                            let key = pages[j].0.clone();
                            let path_s = pages[j].1.path.clone();
                            let mut scripts = clone_strings(&pages[j].1.scripts);
                            let mut styles = clone_strings(&pages[j].1.styles);
                            if is_js {
                                scripts.push(files[i].clone());
                            } else {
                                styles.push(files[i].clone());
                            }
                            let ghost pages0 = pages@;
                            pages.set(j, (key, PageEntry { scripts, styles, path: path_s }));
                            proof {
                                if is_js {
                                    assert(pages@[j as int].1@.scripts =~= pages0[
                                        j as int
                                    ].1@.scripts.push(fv));
                                    assert(pages@[j as int].1@.styles =~= pages0[
                                        j as int
                                    ].1@.styles);
                                } else {
                                    assert(pages@[j as int].1@.styles =~= pages0[
                                        j as int
                                    ].1@.styles.push(fv));
                                    assert(pages@[j as int].1@.scripts =~= pages0[
                                        j as int
                                    ].1@.scripts);
                                }
                                lemma_dist_step_update(
                                    root@,
                                    files@,
                                    i as int,
                                    pages0,
                                    pages@,
                                    j as int,
                                    is_js,
                                );
                            }
                        },
                        None => {
                            let mut scripts: Vec<String> = Vec::new();
                            let mut styles: Vec<String> = Vec::new();
                            if is_js {
                                scripts.push(files[i].clone());
                            } else {
                                styles.push(files[i].clone());
                            }
                            let ghost pages0 = pages@;
                            pages.push((route, PageEntry { scripts, styles, path: parent }));
                            proof {
                                let jn = pages0.len() as int;
                                if is_js {
                                    assert(pages@[jn].1@.scripts =~= seq![fv]);
                                } else {
                                    assert(pages@[jn].1@.styles =~= seq![fv]);
                                }
                                lemma_dist_step_push(root@, files@, i as int, pages0, pages@, is_js);
                            }
                        },
                    }
                },
                None => {},
            }
        }
        proof {
            assert forall|j2: int| 0 <= j2 < pages@.len() implies spec_listed_in_order(
                files@,
                i as int + 1,
                (#[trigger] pages@[j2]).1@.scripts,
            ) by {
                if spec_listed_in_order(files@, i as int, pages@[j2].1@.scripts) {
                    lemma_order_witness_mono(
                        files@,
                        i as int,
                        i as int + 1,
                        pages@[j2].1@.scripts,
                    );
                }
            }
            assert forall|j2: int| 0 <= j2 < pages@.len() implies spec_listed_in_order(
                files@,
                i as int + 1,
                (#[trigger] pages@[j2]).1@.styles,
            ) by {
                if spec_listed_in_order(files@, i as int, pages@[j2].1@.styles) {
                    lemma_order_witness_mono(
                        files@,
                        i as int,
                        i as int + 1,
                        pages@[j2].1@.styles,
                    );
                }
            }
        }
        i += 1;
    }
    DistDirContainer { pages }
}

/// One grouping step that appends the current asset to the existing
/// entry `j` extends the grouping invariant by one file.
#[verifier::rlimit(100)]
proof fn lemma_dist_step_update(
    root: Seq<char>,
    files: Seq<String>,
    i: int,
    pages0: Seq<(String, PageEntry)>,
    pages1: Seq<(String, PageEntry)>,
    j: int,
    is_js: bool,
)
    requires
        0 <= i < files.len(),
        spec_dist_upto(root, files, i, pages0),
        0 <= j < pages0.len(),
        forall|k: int| 0 <= k < j ==> (#[trigger] pages0[k]).0@ != pages0[j].0@,
        pages1.len() == pages0.len(),
        forall|k: int| 0 <= k < pages1.len() && k != j ==> pages1[k] == #[trigger] pages0[k],
        pages1[j].0@ == pages0[j].0@,
        pages1[j].1@.path == pages0[j].1@.path,
        spec_asset_route(root, files[i]@) == Some(pages0[j].0@),
        is_js == spec_is_js(files[i]@),
        !is_js ==> spec_is_css(files[i]@),
        is_js ==> pages1[j].1@.scripts == pages0[j].1@.scripts.push(files[i]@) && pages1[j].1@.styles
            == pages0[j].1@.styles,
        !is_js ==> pages1[j].1@.styles == pages0[j].1@.styles.push(files[i]@) && pages1[j].1@.scripts
            == pages0[j].1@.scripts,
    ensures
        spec_dist_upto(root, files, i + 1, pages1),
{
    let m2 = i + 1;
    let key = pages0[j].0@;
    assert forall|a: int, b: int| 0 <= a < b < pages1.len() implies pages1[a].0@ != pages1[
        b
    ].0@ by {
        assert(pages0[a].0@ != pages0[b].0@);
        if a != j {
            assert(pages1[a] == pages0[a]);
        }
        if b != j {
            assert(pages1[b] == pages0[b]);
        }
    }
    lemma_get_at_index(pages0, key, j);
    lemma_get_update_all(pages0, j, pages1[j]);
    assert(pages0.update(j, pages1[j]) =~= pages1);
    assert(spec_get(pages1, key) == Some(pages1[j].1@));
    assert forall|j2: int| 0 <= j2 < pages1.len() implies exists|i2: int|
        0 <= i2 < m2 && spec_asset_route(root, (#[trigger] files[i2])@) == Some(
            (#[trigger] pages1[j2]).0@,
        ) && pages1[j2].1.path@ == spec_parent(files[i2]@) by {
        if j2 != j {
            assert(pages1[j2] == pages0[j2]);
        }
        let w = choose|i2: int|
            0 <= i2 < i && spec_asset_route(root, (#[trigger] files[i2])@) == Some(pages0[j2].0@)
                && pages0[j2].1.path@ == spec_parent(files[i2]@);
        assert(0 <= w < m2 && spec_asset_route(root, files[w]@) == Some(pages1[j2].0@)
            && pages1[j2].1.path@ == spec_parent(files[w]@));
    }
    assert forall|j2: int, k: int|
        0 <= j2 < pages1.len() && 0 <= k < (#[trigger] pages1[j2]).1@.scripts.len()
            implies spec_is_js(#[trigger] pages1[j2].1@.scripts[k]) && spec_asset_route(
            root,
            pages1[j2].1@.scripts[k],
        ) == Some(pages1[j2].0@) && exists|i2: int|
            0 <= i2 < m2 && (#[trigger] files[i2])@ == pages1[j2].1@.scripts[k] by {
        if j2 == j && is_js && k == pages0[j].1@.scripts.len() {
            assert(pages1[j2].1@.scripts[k] == files[i]@);
            assert((#[trigger] files[i])@ == pages1[j2].1@.scripts[k]);
        } else {
            if j2 != j {
                assert(pages1[j2] == pages0[j2]);
            }
            assert(pages1[j2].1@.scripts[k] == pages0[j2].1@.scripts[k]);
        }
    }
    assert forall|j2: int, k: int|
        0 <= j2 < pages1.len() && 0 <= k < (#[trigger] pages1[j2]).1@.styles.len()
            implies spec_is_css(#[trigger] pages1[j2].1@.styles[k]) && spec_asset_route(
            root,
            pages1[j2].1@.styles[k],
        ) == Some(pages1[j2].0@) && exists|i2: int|
            0 <= i2 < m2 && (#[trigger] files[i2])@ == pages1[j2].1@.styles[k] by {
        if j2 == j && !is_js && k == pages0[j].1@.styles.len() {
            assert(pages1[j2].1@.styles[k] == files[i]@);
            assert((#[trigger] files[i])@ == pages1[j2].1@.styles[k]);
        } else {
            if j2 != j {
                assert(pages1[j2] == pages0[j2]);
            }
            assert(pages1[j2].1@.styles[k] == pages0[j2].1@.styles[k]);
        }
    }
    assert forall|i2: int|
        0 <= i2 < m2 && spec_is_js((#[trigger] files[i2])@) && spec_asset_route(root, files[i2]@)
            is Some implies spec_asset_recorded(root, pages1, files[i2]@, true) by {
        let rt = spec_asset_route(root, files[i2]@).unwrap();
        if i2 == i {
            assert(rt == key);
            let kk = pages0[j].1@.scripts.len() as int;
            assert(0 <= kk < pages1[j].1@.scripts.len() && pages1[j].1@.scripts[kk] == files[i]@);
            assert(spec_in_strings(pages1[j].1@.scripts, files[i]@));
        } else {
            if rt == key {
                assert(spec_get(pages0, rt) == Some(pages0[j].1@));
                if is_js {
                    lemma_in_extend(pages0[j].1@.scripts, pages1[j].1@.scripts, files[i2]@);
                }
            } else {
                assert(spec_get(pages1, rt) == spec_get(pages0, rt));
            }
        }
    }
    assert forall|i2: int|
        0 <= i2 < m2 && spec_is_css((#[trigger] files[i2])@) && spec_asset_route(root, files[i2]@)
            is Some implies spec_asset_recorded(root, pages1, files[i2]@, false) by {
        let rt = spec_asset_route(root, files[i2]@).unwrap();
        if i2 == i {
            assert(!is_js) by {
                reveal_strlit("js");
                reveal_strlit("css");
                assert("js"@.len() == 2);
                assert("css"@.len() == 3);
            }
            assert(rt == key);
            let kk = pages0[j].1@.styles.len() as int;
            assert(0 <= kk < pages1[j].1@.styles.len() && pages1[j].1@.styles[kk] == files[i]@);
            assert(spec_in_strings(pages1[j].1@.styles, files[i]@));
        } else {
            if rt == key {
                assert(spec_get(pages0, rt) == Some(pages0[j].1@));
                if !is_js {
                    lemma_in_extend(pages0[j].1@.styles, pages1[j].1@.styles, files[i2]@);
                }
            } else {
                assert(spec_get(pages1, rt) == spec_get(pages0, rt));
            }
        }
    }

    assert forall|j2: int| 0 <= j2 < pages1.len() implies spec_listed_in_order(
        files,
        m2,
        (#[trigger] pages1[j2]).1@.scripts,
    ) by {
        if j2 == j && is_js {
            lemma_order_witness_push(files, i, pages0[j].1@.scripts);
        } else {
            if j2 != j {
                assert(pages1[j2] == pages0[j2]);
            }
            assert(pages1[j2].1@.scripts == pages0[j2].1@.scripts);
            lemma_order_witness_mono(files, i, m2, pages0[j2].1@.scripts);
        }
    }
    assert forall|j2: int| 0 <= j2 < pages1.len() implies spec_listed_in_order(
        files,
        m2,
        (#[trigger] pages1[j2]).1@.styles,
    ) by {
        if j2 == j && !is_js {
            lemma_order_witness_push(files, i, pages0[j].1@.styles);
        } else {
            if j2 != j {
                assert(pages1[j2] == pages0[j2]);
            }
            assert(pages1[j2].1@.styles == pages0[j2].1@.styles);
            lemma_order_witness_mono(files, i, m2, pages0[j2].1@.styles);
        }
    }
}

/// One grouping step that opens a fresh entry for the current asset
/// extends the grouping invariant by one file.
#[verifier::rlimit(100)]
proof fn lemma_dist_step_push(
    root: Seq<char>,
    files: Seq<String>,
    i: int,
    pages0: Seq<(String, PageEntry)>,
    pages1: Seq<(String, PageEntry)>,
    is_js: bool,
)
    requires
        0 <= i < files.len(),
        spec_dist_upto(root, files, i, pages0),
        pages1.len() == pages0.len() + 1,
        forall|k: int| 0 <= k < pages0.len() ==> pages1[k] == #[trigger] pages0[k],
        forall|k: int|
            0 <= k < pages0.len() ==> (#[trigger] pages0[k]).0@ != pages1[pages0.len() as int].0@,
        spec_asset_route(root, files[i]@) == Some(pages1[pages0.len() as int].0@),
        pages1[pages0.len() as int].1@.path == spec_parent(files[i]@),
        is_js == spec_is_js(files[i]@),
        !is_js ==> spec_is_css(files[i]@),
        is_js ==> pages1[pages0.len() as int].1@.scripts == seq![files[i]@] && pages1[
            pages0.len() as int
        ].1@.styles.len() == 0,
        !is_js ==> pages1[pages0.len() as int].1@.styles == seq![files[i]@] && pages1[
            pages0.len() as int
        ].1@.scripts.len() == 0,
    ensures
        spec_dist_upto(root, files, i + 1, pages1),
{
    let m2 = i + 1;
    let jn = pages0.len() as int;
    let key = pages1[jn].0@;
    assert forall|a: int, b: int| 0 <= a < b < pages1.len() implies pages1[a].0@ != pages1[
        b
    ].0@ by {
        assert(pages1[a] == pages0[a]);
        if b == jn {
            assert(pages0[a].0@ != pages1[jn].0@);
        } else {
            assert(pages1[b] == pages0[b]);
            assert(pages0[a].0@ != pages0[b].0@);
        }
    }
    lemma_get_push_all(pages0, pages1[jn]);
    assert(pages0.push(pages1[jn]) =~= pages1);
    assert(spec_get(pages1, key) == Some(pages1[jn].1@));
    assert forall|j2: int| 0 <= j2 < pages1.len() implies exists|i2: int|
        0 <= i2 < m2 && spec_asset_route(root, (#[trigger] files[i2])@) == Some(
            (#[trigger] pages1[j2]).0@,
        ) && pages1[j2].1.path@ == spec_parent(files[i2]@) by {
        if j2 == jn {
            assert(0 <= i < m2 && spec_asset_route(root, files[i]@) == Some(pages1[j2].0@)
                && pages1[j2].1.path@ == spec_parent(files[i]@));
        } else {
            assert(pages1[j2] == pages0[j2]);
            let w = choose|i2: int|
                0 <= i2 < i && spec_asset_route(root, (#[trigger] files[i2])@) == Some(
                    pages0[j2].0@,
                ) && pages0[j2].1.path@ == spec_parent(files[i2]@);
            assert(0 <= w < m2 && spec_asset_route(root, files[w]@) == Some(pages1[j2].0@)
                && pages1[j2].1.path@ == spec_parent(files[w]@));
        }
    }
    assert forall|j2: int, k: int|
        0 <= j2 < pages1.len() && 0 <= k < (#[trigger] pages1[j2]).1@.scripts.len()
            implies spec_is_js(#[trigger] pages1[j2].1@.scripts[k]) && spec_asset_route(
            root,
            pages1[j2].1@.scripts[k],
        ) == Some(pages1[j2].0@) && exists|i2: int|
            0 <= i2 < m2 && (#[trigger] files[i2])@ == pages1[j2].1@.scripts[k] by {
        if j2 == jn {
            assert(is_js && k == 0);
            assert((#[trigger] files[i])@ == pages1[j2].1@.scripts[k]);
        } else {
            assert(pages1[j2] == pages0[j2]);
        }
    }
    assert forall|j2: int, k: int|
        0 <= j2 < pages1.len() && 0 <= k < (#[trigger] pages1[j2]).1@.styles.len()
            implies spec_is_css(#[trigger] pages1[j2].1@.styles[k]) && spec_asset_route(
            root,
            pages1[j2].1@.styles[k],
        ) == Some(pages1[j2].0@) && exists|i2: int|
            0 <= i2 < m2 && (#[trigger] files[i2])@ == pages1[j2].1@.styles[k] by {
        if j2 == jn {
            assert(!is_js && k == 0);
            assert((#[trigger] files[i])@ == pages1[j2].1@.styles[k]);
        } else {
            assert(pages1[j2] == pages0[j2]);
        }
    }
    assert forall|i2: int|
        0 <= i2 < m2 && spec_is_js((#[trigger] files[i2])@) && spec_asset_route(root, files[i2]@)
            is Some implies spec_asset_recorded(root, pages1, files[i2]@, true) by {
        let rt = spec_asset_route(root, files[i2]@).unwrap();
        if i2 == i {
            assert(rt == key);
            assert(pages1[jn].1@.scripts[0] == files[i]@);
            assert(spec_in_strings(pages1[jn].1@.scripts, files[i]@));
        } else {
            assert(spec_asset_recorded(root, pages0, files[i2]@, true));
            assert(rt != key) by {
                if rt == key {
                    assert(spec_get(pages0, rt) is Some);
                    lemma_get_some_key(pages0, rt);
                }
            }
            assert(spec_get(pages1, rt) == spec_get(pages0, rt));
        }
    }
    assert forall|i2: int|
        0 <= i2 < m2 && spec_is_css((#[trigger] files[i2])@) && spec_asset_route(root, files[i2]@)
            is Some implies spec_asset_recorded(root, pages1, files[i2]@, false) by {
        let rt = spec_asset_route(root, files[i2]@).unwrap();
        if i2 == i {
            assert(!is_js) by {
                reveal_strlit("js");
                reveal_strlit("css");
                assert("js"@.len() == 2);
                assert("css"@.len() == 3);
            }
            assert(rt == key);
            assert(pages1[jn].1@.styles[0] == files[i]@);
            assert(spec_in_strings(pages1[jn].1@.styles, files[i]@));
        } else {
            assert(spec_asset_recorded(root, pages0, files[i2]@, false));
            assert(rt != key) by {
                if rt == key {
                    assert(spec_get(pages0, rt) is Some);
                    lemma_get_some_key(pages0, rt);
                }
            }
            assert(spec_get(pages1, rt) == spec_get(pages0, rt));
        }
    }

    assert forall|j2: int| 0 <= j2 < pages1.len() implies spec_listed_in_order(
        files,
        m2,
        (#[trigger] pages1[j2]).1@.scripts,
    ) by {
        if j2 == jn {
            lemma_order_witness_base(files, i);
            if is_js {
                assert(pages1[jn].1@.scripts =~= seq![files[i]@]);
            } else {
                assert(pages1[jn].1@.scripts =~= Seq::<Seq<char>>::empty());
            }
        } else {
            assert(pages1[j2] == pages0[j2]);
            lemma_order_witness_mono(files, i, m2, pages0[j2].1@.scripts);
        }
    }
    assert forall|j2: int| 0 <= j2 < pages1.len() implies spec_listed_in_order(
        files,
        m2,
        (#[trigger] pages1[j2]).1@.styles,
    ) by {
        if j2 == jn {
            lemma_order_witness_base(files, i);
            if is_js {
                assert(pages1[jn].1@.styles =~= Seq::<Seq<char>>::empty());
            } else {
                assert(pages1[jn].1@.styles =~= seq![files[i]@]);
            }
        } else {
            assert(pages1[j2] == pages0[j2]);
            lemma_order_witness_mono(files, i, m2, pages0[j2].1@.styles);
        }
    }
}

/// A bundler output tree to analyze.
#[derive(Debug)]
pub struct DistDir(String);

impl DistDir {
    /// The root path of the output tree.
    pub closed spec fn spec_path(self) -> Seq<char> {
        self.0@
    }

    /// Points the analyzer at the output tree under `path`, which must
    /// exist on disk.
    pub fn new(path: &str) -> (r: Result<Self, BuildError>)
        ensures
            r matches Ok(d) ==> d.spec_path() == path@,
            r matches Err(e) ==> e matches BuildError::PathNotFound(p) && p@ == path@,
    {
        if path_exists(path) {
            Ok(DistDir(path.to_owned()))
        } else {
            Err(BuildError::PathNotFound(path.to_owned()))
        }
    }

    /// Walks the `pages/` subtree of the output directory and groups
    /// its assets by route.  The walk and the grouping are total, so
    /// this always succeeds; what is found depends on the disk, and
    /// whatever the walk yields, the grouping is faithful to it.
    pub fn analyze(&self) -> (r: Result<DistDirContainer, BuildError>)
        ensures
            r is Ok,
            r matches Ok(c) ==> spec_some_walk_grouped(self.spec_path() + "/pages"@, c.pages@),
    {
        let mut pages_path = self.0.clone();
        pages_path.append("/pages");
        let walked = walk_dir(pages_path.as_str());
        let mut files: Vec<String> = Vec::new();
        let n = walked.len();
        let mut i: usize = 0;
        while i < n
            invariant
                n == walked@.len(),
                0 <= i <= n,
            decreases n - i,
        {
            if walked[i].1 {
                files.push(walked[i].0.clone());
            }
            i += 1;
        }
        let c = analyze_dist_files(pages_path.as_str(), &files);
        proof {
            assert(spec_dist_post(self.spec_path() + "/pages"@, files@, c.pages@));
            assert(spec_some_walk_grouped(self.spec_path() + "/pages"@, c.pages@));
        }
        Ok(c)
    }
}

} // verus!
