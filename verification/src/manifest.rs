//! The persisted manifest.
//!
//! The manifest maps each route to its bundled assets and the staged
//! render script that serves it, together with the shared head script
//! and the cache directory.  Once written it is the only thing the
//! serving phase reads: nothing else crosses the build/serve
//! boundary, so the file format round-trips exactly.

use vstd::prelude::*;
use crate::dist_analyzer::PageEntry;
use crate::dist_analyzer::PageEntryView;
use crate::json::scan_i64;
use crate::json::scan_lit;
use crate::json::scan_string;
use crate::json::scan_strarr;
use crate::json::spec_int_text;
use crate::json::spec_lit_at;
use crate::json::spec_quote;
use crate::json::spec_scan_int;
use crate::json::spec_scan_string;
use crate::json::spec_scan_strarr;
use crate::json::spec_strarr;
use crate::json::spec_views_of;
use crate::json::int_to_string;
use crate::json::quote_str;
use crate::json::write_strarr;
use crate::json::lemma_scan_quote;
use crate::json::lemma_scan_int_text;
use crate::json::lemma_scan_strarr_text;
use crate::json::lemma_scan_string_advances;
use crate::json::spec_digit_val;
use crate::error::BuildError;
use crate::cache_dir::CacheDir;
use crate::dist_analyzer::DistDirContainer;
use crate::dist_analyzer::spec_asset_route;
use crate::kv::find_key;
use crate::kv::lemma_get_at_index;
use crate::kv::lemma_get_none;
use crate::kv::lemma_get_push_all;
use crate::kv::lemma_get_update_all;
use crate::kv::spec_get;
use crate::paths::parent_of;
use crate::paths::route_of;
use crate::paths::strip_prefix;
use crate::sys::canonical_path;
use crate::targets::Targets;
use crate::targets::spec_target_views;

verus! {

/// One route's manifest entry: the render-function ID, the bundled
/// assets, and the staged render script.
#[derive(Debug)]
pub struct ManifestRouteEntry {
    pub id: i64,
    pub page_entry: PageEntry,
    pub renderer: String,
}

/// The mathematical content of a [`ManifestRouteEntry`].
pub struct ManifestRouteEntryView {
    pub id: int,
    pub page_entry: PageEntryView,
    pub renderer: Seq<char>,
}

impl View for ManifestRouteEntry {
    type V = ManifestRouteEntryView;

    open spec fn view(&self) -> ManifestRouteEntryView {
        ManifestRouteEntryView {
            id: self.id as int,
            page_entry: self.page_entry@,
            renderer: self.renderer@,
        }
    }
}

impl ManifestRouteEntry {
    /// Packs one route's entry.
    pub fn new(id: i64, page_entry: PageEntry, renderer: String) -> (e: Self)
        ensures
            e@.id == id as int,
            e@.page_entry == page_entry@,
            e@.renderer == renderer@,
    {
        ManifestRouteEntry { id, page_entry, renderer }
    }
}

/// The entries shared by all routes: the head script and the cache
/// directory.
#[derive(Debug)]
pub struct GlobalEntry {
    pub head: String,
    pub cache: String,
}

/// The mathematical content of a [`GlobalEntry`].
pub struct GlobalEntryView {
    pub head: Seq<char>,
    pub cache: Seq<char>,
}

impl View for GlobalEntry {
    type V = GlobalEntryView;

    open spec fn view(&self) -> GlobalEntryView {
        GlobalEntryView { head: self.head@, cache: self.cache@ }
    }
}

impl GlobalEntry {
    /// Packs the shared entries.
    pub fn new(head: String, cache: String) -> (g: Self)
        ensures
            g@.head == head@,
            g@.cache == cache@,
    {
        GlobalEntry { head, cache }
    }
}

/// The mathematical content of a [`Manifest`].
pub struct ManifestView {
    pub head: Seq<char>,
    pub cache: Seq<char>,
    pub routes: Seq<(Seq<char>, ManifestRouteEntryView)>,
}

/// The persisted route map.
#[derive(Debug)]
pub struct Manifest {
    pub global: GlobalEntry,
    routes: Vec<(String, ManifestRouteEntry)>,
}

impl View for Manifest {
    type V = ManifestView;

    closed spec fn view(&self) -> ManifestView {
        ManifestView {
            head: self.global.head@,
            cache: self.global.cache@,
            routes: Seq::new(self.routes@.len(), |i: int| (self.routes@[i].0@, self.routes@[i].1@)),
        }
    }
}

// ---------------------------------------------------------------
// the written form
// ---------------------------------------------------------------

/// The written form of one route's entry.
pub open spec fn spec_entry_text(route: Seq<char>, e: ManifestRouteEntryView) -> Seq<char> {
    spec_quote(route) + ": {\"id\": "@ + spec_int_text(e.id) + ", \"page_entry\": {\"scripts\": "@
        + spec_strarr(e.page_entry.scripts) + ", \"styles\": "@ + spec_strarr(e.page_entry.styles)
        + ", \"path\": "@ + spec_quote(e.page_entry.path) + "}, \"renderer\": "@ + spec_quote(
        e.renderer,
    ) + "}"@
}

/// The comma-joined route entries of the manifest body.
pub open spec fn spec_routes_items(routes: Seq<(Seq<char>, ManifestRouteEntryView)>) -> Seq<char>
    decreases routes.len(),
{
    if routes.len() == 0 {
        Seq::empty()
    } else if routes.len() == 1 {
        spec_entry_text(routes[0].0, routes[0].1)
    } else {
        spec_entry_text(routes[0].0, routes[0].1) + ",\n"@ + spec_routes_items(routes.skip(1))
    }
}

/// The written form of the route map.
pub open spec fn spec_routes_text(routes: Seq<(Seq<char>, ManifestRouteEntryView)>) -> Seq<char> {
    seq!['{'] + spec_routes_items(routes) + seq!['}']
}

/// The written form of the whole manifest.
pub open spec fn spec_manifest_text(m: ManifestView) -> Seq<char> {
    "{\n  \"global\": {\n    \"head\": "@ + spec_quote(m.head) + ",\n    \"cache\": "@
        + spec_quote(m.cache) + "\n  },\n  \"routes\": "@ + spec_routes_text(m.routes) + "\n}"@
}

/// Writes one route's entry.
pub fn write_entry(route: &str, e: &ManifestRouteEntry) -> (r: String)
    ensures
        r@ == spec_entry_text(route@, e@),
{
    let mut out = quote_str(route);
    out.append(": {\"id\": ");
    out.append(int_to_string(e.id).as_str());
    out.append(", \"page_entry\": {\"scripts\": ");
    out.append(write_strarr(&e.page_entry.scripts).as_str());
    out.append(", \"styles\": ");
    out.append(write_strarr(&e.page_entry.styles).as_str());
    out.append(", \"path\": ");
    out.append(quote_str(e.page_entry.path.as_str()).as_str());
    out.append("}, \"renderer\": ");
    out.append(quote_str(e.renderer.as_str()).as_str());
    out.append("}");
    proof {
        assert(e@.page_entry.scripts =~= spec_views_of(e.page_entry.scripts@));
        assert(e@.page_entry.styles =~= spec_views_of(e.page_entry.styles@));
        assert(out@ =~= spec_entry_text(route@, e@));
    }
    out
}

/// Joining distributes over splitting the last route off.
pub proof fn lemma_routes_items_snoc(
    routes: Seq<(Seq<char>, ManifestRouteEntryView)>,
    x: (Seq<char>, ManifestRouteEntryView),
)
    ensures
        spec_routes_items(routes.push(x)) == if routes.len() == 0 {
            spec_entry_text(x.0, x.1)
        } else {
            spec_routes_items(routes) + ",\n"@ + spec_entry_text(x.0, x.1)
        },
    decreases routes.len(),
{
    let w = routes.push(x);
    if routes.len() == 0 {
        assert(w.len() == 1);
        assert(w[0] == x);
    } else {
        assert(w[0] == routes[0]);
        assert(w.skip(1) =~= routes.skip(1).push(x));
        lemma_routes_items_snoc(routes.skip(1), x);
        if routes.len() == 1 {
            assert(routes.skip(1).len() == 0);
            assert(spec_routes_items(w) =~= spec_entry_text(routes[0].0, routes[0].1) + ",\n"@
                + spec_entry_text(x.0, x.1));
            assert(spec_routes_items(routes) == spec_entry_text(routes[0].0, routes[0].1));
        } else {
            assert(spec_routes_items(w) == spec_entry_text(w[0].0, w[0].1) + ",\n"@
                + spec_routes_items(w.skip(1)));
            assert(spec_routes_items(routes) == spec_entry_text(routes[0].0, routes[0].1) + ",\n"@
                + spec_routes_items(routes.skip(1)));
            assert(spec_routes_items(w) =~= spec_routes_items(routes) + ",\n"@ + spec_entry_text(
                x.0,
                x.1,
            ));
        }
    }
}

impl Manifest {
    /// An empty manifest with the given shared entries: every route
    /// lookup on it misses.
    pub fn new(global: GlobalEntry) -> (m: Self)
        ensures
            m@.head == global@.head,
            m@.cache == global@.cache,
            m@.routes =~= Seq::<(Seq<char>, ManifestRouteEntryView)>::empty(),
            forall|q: Seq<char>| m.spec_route_get(q) is None,
    {
        let m = Manifest { global, routes: Vec::new() };
        proof {
            assert forall|q: Seq<char>| m.spec_route_get(q) is None by {
                lemma_get_none(m.routes@, q);
            }
        }
        m
    }

    /// Serializes the manifest to its written JSON form.
    pub fn to_json(&self) -> (r: String)
        ensures
            r@ == spec_manifest_text(self@),
    {
        let mut out = "{\n  \"global\": {\n    \"head\": ".to_owned();
        out.append(quote_str(self.global.head.as_str()).as_str());
        out.append(",\n    \"cache\": ");
        out.append(quote_str(self.global.cache.as_str()).as_str());
        out.append("\n  },\n  \"routes\": {");
        let n = self.routes.len();
        let mut i: usize = 0;
        proof {
            assert(self@.routes.subrange(0, 0) =~= Seq::<(
                Seq<char>,
                ManifestRouteEntryView,
            )>::empty());
            assert(spec_routes_items(self@.routes.subrange(0, 0)) =~= Seq::<char>::empty());
            assert(out@ =~= "{\n  \"global\": {\n    \"head\": "@ + spec_quote(self@.head)
                + ",\n    \"cache\": "@ + spec_quote(self@.cache) + "\n  },\n  \"routes\": "@
                + seq!['{'] + spec_routes_items(self@.routes.subrange(0, 0))) by {
                reveal_strlit("{");
                reveal_strlit("\n  },\n  \"routes\": {");
                reveal_strlit("\n  },\n  \"routes\": ");
            }
        }
        while i < n
            invariant
                n == self.routes@.len(),
                0 <= i <= n,
                out@ == "{\n  \"global\": {\n    \"head\": "@ + spec_quote(self@.head)
                    + ",\n    \"cache\": "@ + spec_quote(self@.cache)
                    + "\n  },\n  \"routes\": "@ + seq!['{'] + spec_routes_items(
                    self@.routes.subrange(0, i as int),
                ),
            decreases n - i,
        {
            let ghost pre = out@;
            if i > 0 {
                out.append(",\n");
            }
            let entry = write_entry(self.routes[i].0.as_str(), &self.routes[i].1);
            out.append(entry.as_str());
            proof {
                reveal_strlit(",\n");
                let rv = self@.routes;
                assert(rv.subrange(0, i + 1) =~= rv.subrange(0, i as int).push(rv[i as int]));
                lemma_routes_items_snoc(rv.subrange(0, i as int), rv[i as int]);
                assert(rv[i as int].0 == self.routes@[i as int].0@);
                assert(rv[i as int].1 == self.routes@[i as int].1@);
                assert(out@ =~= "{\n  \"global\": {\n    \"head\": "@ + spec_quote(self@.head)
                    + ",\n    \"cache\": "@ + spec_quote(self@.cache)
                    + "\n  },\n  \"routes\": "@ + seq!['{'] + spec_routes_items(
                    rv.subrange(0, i + 1),
                ));
            }
            i += 1;
        }
        out.append("}\n}");
        proof {
            reveal_strlit("}\n}");
            reveal_strlit("\n}");
            assert(self@.routes.subrange(0, n as int) =~= self@.routes);
            assert(out@ =~= spec_manifest_text(self@));
        }
        out
    }
}

// ---------------------------------------------------------------
// scanning the written form
// ---------------------------------------------------------------

/// Advances past `lit` when it stands at `i`.
pub open spec fn spec_after_lit(s: Seq<char>, i: int, lit: Seq<char>) -> Option<int> {
    if spec_lit_at(s, i, lit) {
        Option::Some(i + lit.len() as int)
    } else {
        Option::None
    }
}

/// Scans one route's entry.
pub open spec fn spec_scan_entry(s: Seq<char>, i: int) -> Option<
    ((Seq<char>, ManifestRouteEntryView), int),
> {
    match spec_scan_string(s, i) {
        Option::None => Option::None,
        Option::Some((route, j1)) => match spec_after_lit(s, j1, ": {\"id\": "@) {
            Option::None => Option::None,
            Option::Some(j2) => match spec_scan_int(s, j2) {
                Option::None => Option::None,
                Option::Some((id, j3)) => match spec_after_lit(
                    s,
                    j3,
                    ", \"page_entry\": {\"scripts\": "@,
                ) {
                    Option::None => Option::None,
                    Option::Some(j4) => match spec_scan_strarr(s, j4) {
                        Option::None => Option::None,
                        Option::Some((scripts, j5)) => match spec_after_lit(
                            s,
                            j5,
                            ", \"styles\": "@,
                        ) {
                            Option::None => Option::None,
                            Option::Some(j6) => match spec_scan_strarr(s, j6) {
                                Option::None => Option::None,
                                Option::Some((styles, j7)) => match spec_after_lit(
                                    s,
                                    j7,
                                    ", \"path\": "@,
                                ) {
                                    Option::None => Option::None,
                                    Option::Some(j8) => match spec_scan_string(s, j8) {
                                        Option::None => Option::None,
                                        Option::Some((path, j9)) => match spec_after_lit(
                                            s,
                                            j9,
                                            "}, \"renderer\": "@,
                                        ) {
                                            Option::None => Option::None,
                                            Option::Some(j10) => match spec_scan_string(s, j10) {
                                                Option::None => Option::None,
                                                Option::Some((renderer, j11)) => match
                                                    spec_after_lit(s, j11, "}"@) {
                                                    Option::None => Option::None,
                                                    Option::Some(j12) => Option::Some(
                                                        (
                                                            (
                                                                route,
                                                                ManifestRouteEntryView {
                                                                    id,
                                                                    page_entry: PageEntryView {
                                                                        scripts,
                                                                        styles,
                                                                        path,
                                                                    },
                                                                    renderer,
                                                                },
                                                            ),
                                                            j12,
                                                        ),
                                                    ),
                                                },
                                            },
                                        },
                                    },
                                },
                            },
                        },
                    },
                },
            },
        },
    }
}

/// A successful entry scan lands strictly past where it started.
pub proof fn lemma_scan_entry_advances(s: Seq<char>, i: int)
    ensures
        spec_scan_entry(s, i) matches Some((e, j)) ==> i < j <= s.len(),
{
    lemma_scan_string_advances(s, i);
    if spec_scan_entry(s, i) is Some {
        let (route, j1) = spec_scan_string(s, i).unwrap();
        let j2 = spec_after_lit(s, j1, ": {\"id\": "@).unwrap();
        let (id, j3) = spec_scan_int(s, j2).unwrap();
        lemma_scan_int_bounds(s, j2);
        let j4 = spec_after_lit(s, j3, ", \"page_entry\": {\"scripts\": "@).unwrap();
        let (sc, j5) = spec_scan_strarr(s, j4).unwrap();
        lemma_scan_strarr_bounds(s, j4);
        let j6 = spec_after_lit(s, j5, ", \"styles\": "@).unwrap();
        let (st, j7) = spec_scan_strarr(s, j6).unwrap();
        lemma_scan_strarr_bounds(s, j6);
        let j8 = spec_after_lit(s, j7, ", \"path\": "@).unwrap();
        let (p, j9) = spec_scan_string(s, j8).unwrap();
        lemma_scan_string_advances(s, j8);
        let j10 = spec_after_lit(s, j9, "}, \"renderer\": "@).unwrap();
        let (rd, j11) = spec_scan_string(s, j10).unwrap();
        lemma_scan_string_advances(s, j10);
    }
}

/// A successful integer scan stays inside the text and moves forward.
pub proof fn lemma_scan_int_bounds(s: Seq<char>, i: int)
    ensures
        spec_scan_int(s, i) matches Some((v, j)) ==> i < j <= s.len(),
{
    lemma_run_end_bounds(s, i);
    lemma_run_end_bounds(s, i + 1);
}

/// The digit run end never runs left nor past the text.
pub proof fn lemma_run_end_bounds(s: Seq<char>, i: int)
    ensures
        i <= crate::json::spec_digit_run_end(s, i),
        i <= s.len() ==> crate::json::spec_digit_run_end(s, i) <= s.len(),
    decreases s.len() - i,
{
    if 0 <= i < s.len() && spec_digit_val(s[i]) >= 0 {
        lemma_run_end_bounds(s, i + 1);
    }
}

/// A successful array scan stays inside the text and moves forward.
pub proof fn lemma_scan_strarr_bounds(s: Seq<char>, i: int)
    ensures
        spec_scan_strarr(s, i) matches Some((v, j)) ==> i < j <= s.len(),
{
    if 0 <= i < s.len() && s[i] == '[' {
        if !(i + 1 < s.len() && s[i + 1] == ']') {
            lemma_scan_arr_items_bounds(s, i + 1);
        }
    }
}

/// A successful item-list scan stays inside the text and moves
/// forward.
pub proof fn lemma_scan_arr_items_bounds(s: Seq<char>, i: int)
    ensures
        crate::json::spec_scan_arr_items(s, i) matches Some((v, j)) ==> i < j <= s.len(),
    decreases s.len() - i,
{
    lemma_scan_string_advances(s, i);
    if spec_scan_string(s, i) is Some {
        let (x, j1) = spec_scan_string(s, i).unwrap();
        if !(j1 < s.len() && s[j1] == ']') {
            if j1 + 1 < s.len() && s[j1] == ',' && s[j1 + 1] == ' ' {
                lemma_scan_arr_items_bounds(s, j1 + 2);
            }
        }
    }
}

/// Scans the non-empty entry list of the route map, up to and
/// including the closing brace.
pub open spec fn spec_scan_routes_items(s: Seq<char>, i: int) -> Option<
    (Seq<(Seq<char>, ManifestRouteEntryView)>, int),
>
    decreases s.len() - i,
    via spec_scan_routes_items_dec
{
    match spec_scan_entry(s, i) {
        Option::None => Option::None,
        Option::Some((e, j)) => if j < s.len() && s[j] == '}' {
            Option::Some((seq![e], j + 1))
        } else if j + 1 < s.len() && s[j] == ',' && s[j + 1] == '\n' {
            match spec_scan_routes_items(s, j + 2) {
                Option::Some((xs, k)) => Option::Some((seq![e] + xs, k)),
                Option::None => Option::None,
            }
        } else {
            Option::None
        },
    }
}

#[via_fn]
proof fn spec_scan_routes_items_dec(s: Seq<char>, i: int) {
    lemma_scan_entry_advances(s, i);
}

/// Scans the route map.
pub open spec fn spec_scan_routes(s: Seq<char>, i: int) -> Option<
    (Seq<(Seq<char>, ManifestRouteEntryView)>, int),
> {
    if 0 <= i < s.len() && s[i] == '{' {
        if i + 1 < s.len() && s[i + 1] == '}' {
            Option::Some((Seq::empty(), i + 2))
        } else {
            spec_scan_routes_items(s, i + 1)
        }
    } else {
        Option::None
    }
}

/// Scans a whole manifest document.
pub open spec fn spec_scan_manifest(s: Seq<char>, i: int) -> Option<(ManifestView, int)> {
    match spec_after_lit(s, i, "{\n  \"global\": {\n    \"head\": "@) {
        Option::None => Option::None,
        Option::Some(j1) => match spec_scan_string(s, j1) {
            Option::None => Option::None,
            Option::Some((head, j2)) => match spec_after_lit(s, j2, ",\n    \"cache\": "@) {
                Option::None => Option::None,
                Option::Some(j3) => match spec_scan_string(s, j3) {
                    Option::None => Option::None,
                    Option::Some((cache, j4)) => match spec_after_lit(
                        s,
                        j4,
                        "\n  },\n  \"routes\": "@,
                    ) {
                        Option::None => Option::None,
                        Option::Some(j5) => match spec_scan_routes(s, j5) {
                            Option::None => Option::None,
                            Option::Some((routes, j6)) => match spec_after_lit(s, j6, "\n}"@) {
                                Option::None => Option::None,
                                Option::Some(j7) => Option::Some(
                                    (ManifestView { head, cache, routes }, j7),
                                ),
                            },
                        },
                    },
                },
            },
        },
    }
}

/// Scans one route's entry, mirroring [`spec_scan_entry`]; fails
/// also when the entry's ID does not fit a signed 64-bit word.
pub fn scan_entry(s: &str, i: usize) -> (r: Option<((String, ManifestRouteEntry), usize)>)
    ensures
        match r {
            Option::Some(((route, e), j)) => spec_scan_entry(s@, i as int) == Some(
                ((route@, e@), j as int),
            ) && j <= s@.len(),
            Option::None => (match spec_scan_entry(s@, i as int) {
                Option::Some(((route, e), _)) => e.id > i64::MAX || e.id < i64::MIN,
                Option::None => true,
            }),
        },
{
    let (route, j1) = match scan_string(s, i) {
        Some(x) => x,
        None => {
            return None;
        },
    };
    let j2 = match scan_lit(s, j1, ": {\"id\": ") {
        Some(x) => x,
        None => {
            return None;
        },
    };
    let (id, j3) = match scan_i64(s, j2) {
        Some(x) => x,
        None => {
            return None;
        },
    };
    let j4 = match scan_lit(s, j3, ", \"page_entry\": {\"scripts\": ") {
        Some(x) => x,
        None => {
            return None;
        },
    };
    let (scripts, j5) = match scan_strarr(s, j4) {
        Some(x) => x,
        None => {
            return None;
        },
    };
    let j6 = match scan_lit(s, j5, ", \"styles\": ") {
        Some(x) => x,
        None => {
            return None;
        },
    };
    let (styles, j7) = match scan_strarr(s, j6) {
        Some(x) => x,
        None => {
            return None;
        },
    };
    let j8 = match scan_lit(s, j7, ", \"path\": ") {
        Some(x) => x,
        None => {
            return None;
        },
    };
    let (path, j9) = match scan_string(s, j8) {
        Some(x) => x,
        None => {
            return None;
        },
    };
    let j10 = match scan_lit(s, j9, "}, \"renderer\": ") {
        Some(x) => x,
        None => {
            return None;
        },
    };
    let (renderer, j11) = match scan_string(s, j10) {
        Some(x) => x,
        None => {
            return None;
        },
    };
    let j12 = match scan_lit(s, j11, "}") {
        Some(x) => x,
        None => {
            return None;
        },
    };
    let e = ManifestRouteEntry {
        id,
        page_entry: PageEntry { scripts, styles, path },
        renderer,
    };
    proof {
        assert(e@.page_entry.scripts =~= spec_views_of(e.page_entry.scripts@));
        assert(e@.page_entry.styles =~= spec_views_of(e.page_entry.styles@));
    }
    Some(((route, e), j12))
}

/// Every entry's ID fits a signed 64-bit word.
pub open spec fn spec_ids_fit(routes: Seq<(Seq<char>, ManifestRouteEntryView)>) -> bool {
    forall|k: int|
        0 <= k < routes.len() ==> i64::MIN <= (#[trigger] routes[k]).1.id <= i64::MAX
}

/// Scans the non-empty entry list of the route map, mirroring
/// [`spec_scan_routes_items`].
#[verifier::rlimit(100)]
pub fn scan_routes_items(s: &str, i: usize) -> (r: Option<
    (Vec<(String, ManifestRouteEntry)>, usize),
>)
    ensures
        match r {
            Option::Some((v, j)) => spec_scan_routes_items(s@, i as int) == Some(
                (Seq::new(v@.len(), |k: int| (v@[k].0@, v@[k].1@)), j as int),
            ) && j <= s@.len(),
            Option::None => (match spec_scan_routes_items(s@, i as int) {
                Option::Some((routes, _)) => !spec_ids_fit(routes),
                Option::None => true,
            }),
        },
    decreases s@.len() - i,
{
    let n = s.unicode_len();
    match scan_entry(s, i) {
        Some((e, j)) => {
            if j < n && s.get_char(j) == '}' {
                let mut v: Vec<(String, ManifestRouteEntry)> = Vec::new();
                v.push(e);
                proof {
                    assert(Seq::new(v@.len(), |k: int| (v@[k].0@, v@[k].1@)) =~= seq![
                        spec_scan_entry(s@, i as int).unwrap().0,
                    ]);
                    assert(spec_scan_routes_items(s@, i as int) == Some(
                        (Seq::new(v@.len(), |k: int| (v@[k].0@, v@[k].1@)), j as int + 1),
                    ));
                }
                Some((v, j + 1))
            } else if n > 0 && j < n - 1 && s.get_char(j) == ',' && s.get_char(j + 1) == '\n' {
                proof {
                    lemma_scan_entry_advances(s@, i as int);
                }
                match scan_routes_items(s, j + 2) {
                    Some((rest, k)) => {
                        let mut v = rest;
                        v.insert(0, e);
                        proof {
                            assert(Seq::new(v@.len(), |k2: int| (v@[k2].0@, v@[k2].1@)) =~= seq![
                                spec_scan_entry(s@, i as int).unwrap().0,
                            ] + spec_scan_routes_items(s@, j as int + 2).unwrap().0);
                            assert(spec_scan_routes_items(s@, i as int) == Some(
                                (Seq::new(v@.len(), |k2: int| (v@[k2].0@, v@[k2].1@)), k as int),
                            ));
                        }
                        Some((v, k))
                    },
                    None => {
                        proof {
                            match spec_scan_routes_items(s@, j as int + 2) {
                                Option::Some((xs, _k2)) => {
                                    assert(!spec_ids_fit(xs));
                                    let kbad = choose|kb: int|
                                        0 <= kb < xs.len() && !(i64::MIN <= (
                                        #[trigger] xs[kb]).1.id <= i64::MAX);
                                    match spec_scan_routes_items(s@, i as int) {
                                        Option::Some((routes, _)) => {
                                            assert(routes == seq![
                                                spec_scan_entry(s@, i as int).unwrap().0,
                                            ] + xs);
                                            assert(routes[kbad + 1] == xs[kbad]);
                                            assert(!spec_ids_fit(routes));
                                        },
                                        Option::None => {},
                                    }
                                },
                                Option::None => {},
                            }
                        }
                        None
                    },
                }
            } else {
                None
            }
        },
        None => {
            proof {
                match spec_scan_entry(s@, i as int) {
                    Option::Some((ep, _j)) => {
                        match spec_scan_routes_items(s@, i as int) {
                            Option::Some((routes, _)) => {
                                assert(routes[0] == ep);
                                assert(!(i64::MIN <= routes[0].1.id <= i64::MAX));
                                assert(!spec_ids_fit(routes));
                            },
                            Option::None => {},
                        }
                    },
                    Option::None => {},
                }
            }
            None
        },
    }
}

/// Scans the route map, mirroring [`spec_scan_routes`].
pub fn scan_routes(s: &str, i: usize) -> (r: Option<(Vec<(String, ManifestRouteEntry)>, usize)>)
    ensures
        match r {
            Option::Some((v, j)) => spec_scan_routes(s@, i as int) == Some(
                (Seq::new(v@.len(), |k: int| (v@[k].0@, v@[k].1@)), j as int),
            ) && j <= s@.len(),
            Option::None => (match spec_scan_routes(s@, i as int) {
                Option::Some((routes, _)) => !spec_ids_fit(routes),
                Option::None => true,
            }),
        },
{
    let n = s.unicode_len();
    if i < n && s.get_char(i) == '{' {
        if i + 1 < n && s.get_char(i + 1) == '}' {
            let v: Vec<(String, ManifestRouteEntry)> = Vec::new();
            proof {
                assert(Seq::new(v@.len(), |k: int| (v@[k].0@, v@[k].1@)) =~= Seq::<(
                    Seq<char>,
                    ManifestRouteEntryView,
                )>::empty());
            }
            Some((v, i + 2))
        } else {
            scan_routes_items(s, i + 1)
        }
    } else {
        None
    }
}

impl Manifest {
    /// Reads a manifest back from its written JSON form.  Succeeds
    /// exactly on a full document whose IDs fit, and reproduces the
    /// scanned content.
    pub fn from_json(s: &str) -> (r: Result<Manifest, BuildError>)
        ensures
            match r {
                Result::Ok(m) => spec_scan_manifest(s@, 0) == Some((m@, s@.len() as int)),
                Result::Err(e) => e matches BuildError::ManifestMalformed && (match
                    spec_scan_manifest(s@, 0) {
                    Option::Some((v, j)) => j != s@.len() || !spec_ids_fit(v.routes),
                    Option::None => true,
                }),
            },
    {
        let n = s.unicode_len();
        let j1 = match scan_lit(s, 0, "{\n  \"global\": {\n    \"head\": ") {
            Some(x) => x,
            None => {
                return Err(BuildError::ManifestMalformed);
            },
        };
        let (head, j2) = match scan_string(s, j1) {
            Some(x) => x,
            None => {
                return Err(BuildError::ManifestMalformed);
            },
        };
        let j3 = match scan_lit(s, j2, ",\n    \"cache\": ") {
            Some(x) => x,
            None => {
                return Err(BuildError::ManifestMalformed);
            },
        };
        let (cache, j4) = match scan_string(s, j3) {
            Some(x) => x,
            None => {
                return Err(BuildError::ManifestMalformed);
            },
        };
        let j5 = match scan_lit(s, j4, "\n  },\n  \"routes\": ") {
            Some(x) => x,
            None => {
                return Err(BuildError::ManifestMalformed);
            },
        };
        let (routes, j6) = match scan_routes(s, j5) {
            Some(x) => x,
            None => {
                proof {
                    match spec_scan_routes(s@, j5 as int) {
                        Option::Some((rts, _)) => {
                            match spec_scan_manifest(s@, 0) {
                                Option::Some((v, _)) => {
                                    assert(v.routes == rts);
                                    assert(!spec_ids_fit(v.routes));
                                },
                                Option::None => {},
                            }
                        },
                        Option::None => {},
                    }
                }
                return Err(BuildError::ManifestMalformed);
            },
        };
        let j7 = match scan_lit(s, j6, "\n}") {
            Some(x) => x,
            None => {
                return Err(BuildError::ManifestMalformed);
            },
        };
        if j7 != n {
            return Err(BuildError::ManifestMalformed);
        }
        let m = Manifest { global: GlobalEntry { head, cache }, routes };
        proof {
            assert(m@.routes =~= spec_scan_routes(s@, j5 as int).unwrap().0);
            assert(spec_scan_manifest(s@, 0) == Some((m@, s@.len() as int)));
        }
        Ok(m)
    }
}

// ---------------------------------------------------------------
// the round trip
// ---------------------------------------------------------------

/// A piece of a placed text is itself placed at its offset.
proof fn lemma_piece_at(s: Seq<char>, i: int, t: Seq<char>, o: int, p: Seq<char>)
    requires
        0 <= i,
        i + t.len() <= s.len(),
        s.subrange(i, i + t.len() as int) == t,
        0 <= o,
        o + p.len() <= t.len(),
        forall|k: int| 0 <= k < p.len() ==> t[o + k] == p[k],
    ensures
        s.subrange(i + o, i + o + p.len() as int) == p,
        forall|k: int| 0 <= k < p.len() ==> s[i + o + k] == p[k],
{
    assert forall|k: int| 0 <= k < p.len() implies s[i + o + k] == p[k] by {
        assert(s.subrange(i, i + t.len() as int)[o + k] == s[i + o + k]);
        assert(t[o + k] == p[k]);
    }
    assert forall|k: int| 0 <= k < p.len() implies s.subrange(i + o, i + o + p.len() as int)[k]
        == p[k] by {
        assert(s[i + o + k] == p[k]);
    }
    assert(s.subrange(i + o, i + o + p.len() as int) =~= p);
}

/// Scanning a written route entry from its own start yields the
/// route and entry back and stops right after it.
pub proof fn lemma_scan_entry_text(
    s: Seq<char>,
    i: int,
    route: Seq<char>,
    e: ManifestRouteEntryView,
)
    requires
        0 <= i,
        i + spec_entry_text(route, e).len() <= s.len(),
        s.subrange(i, i + spec_entry_text(route, e).len() as int) == spec_entry_text(route, e),
    ensures
        spec_scan_entry(s, i) == Some(((route, e), i + spec_entry_text(route, e).len() as int)),
{
    let t = spec_entry_text(route, e);
    let q = spec_quote(route);
    let l1 = ": {\"id\": "@;
    let it = spec_int_text(e.id);
    let l2 = ", \"page_entry\": {\"scripts\": "@;
    let a1 = spec_strarr(e.page_entry.scripts);
    let l3 = ", \"styles\": "@;
    let a2 = spec_strarr(e.page_entry.styles);
    let l4 = ", \"path\": "@;
    let qp = spec_quote(e.page_entry.path);
    let l5 = "}, \"renderer\": "@;
    let qr = spec_quote(e.renderer);
    let l6 = "}"@;
    let o1 = q.len() as int;
    let o2 = o1 + l1.len();
    let o3 = o2 + it.len();
    let o4 = o3 + l2.len();
    let o5 = o4 + a1.len();
    let o6 = o5 + l3.len();
    let o7 = o6 + a2.len();
    let o8 = o7 + l4.len();
    let o9 = o8 + qp.len();
    let o10 = o9 + l5.len();
    let o11 = o10 + qr.len();
    let o12 = o11 + l6.len();
    assert(t.len() == o12);
    assert forall|k: int| 0 <= k < q.len() implies t[0 + k] == q[k] by {}
    lemma_piece_at(s, i, t, 0, q);
    assert forall|k: int| 0 <= k < l1.len() implies t[o1 + k] == l1[k] by {}
    lemma_piece_at(s, i, t, o1, l1);
    assert forall|k: int| 0 <= k < it.len() implies t[o2 + k] == it[k] by {}
    lemma_piece_at(s, i, t, o2, it);
    assert forall|k: int| 0 <= k < l2.len() implies t[o3 + k] == l2[k] by {}
    lemma_piece_at(s, i, t, o3, l2);
    assert forall|k: int| 0 <= k < a1.len() implies t[o4 + k] == a1[k] by {}
    lemma_piece_at(s, i, t, o4, a1);
    assert forall|k: int| 0 <= k < l3.len() implies t[o5 + k] == l3[k] by {}
    lemma_piece_at(s, i, t, o5, l3);
    assert forall|k: int| 0 <= k < a2.len() implies t[o6 + k] == a2[k] by {}
    lemma_piece_at(s, i, t, o6, a2);
    assert forall|k: int| 0 <= k < l4.len() implies t[o7 + k] == l4[k] by {}
    lemma_piece_at(s, i, t, o7, l4);
    assert forall|k: int| 0 <= k < qp.len() implies t[o8 + k] == qp[k] by {}
    lemma_piece_at(s, i, t, o8, qp);
    assert forall|k: int| 0 <= k < l5.len() implies t[o9 + k] == l5[k] by {}
    lemma_piece_at(s, i, t, o9, l5);
    assert forall|k: int| 0 <= k < qr.len() implies t[o10 + k] == qr[k] by {}
    lemma_piece_at(s, i, t, o10, qr);
    assert forall|k: int| 0 <= k < l6.len() implies t[o11 + k] == l6[k] by {}
    lemma_piece_at(s, i, t, o11, l6);

    lemma_scan_quote(s, i, route);
    assert(spec_scan_string(s, i) == Some((route, i + o1)));
    assert(spec_lit_at(s, i + o1, l1));
    assert(spec_after_lit(s, i + o1, l1) == Some(i + o2));
    assert(l2.len() > 0 && l2[0] == ',') by {
        reveal_strlit(", \"page_entry\": {\"scripts\": ");
    }
    assert(s[i + o3] == l2[0]);
    assert(spec_digit_val(s[i + o3]) < 0);
    lemma_scan_int_text(s, i + o2, e.id);
    assert(spec_scan_int(s, i + o2) == Some((e.id, i + o3)));
    assert(spec_after_lit(s, i + o3, l2) == Some(i + o4));
    lemma_scan_strarr_text(s, i + o4, e.page_entry.scripts);
    assert(spec_after_lit(s, i + o5, l3) == Some(i + o6));
    lemma_scan_strarr_text(s, i + o6, e.page_entry.styles);
    assert(spec_after_lit(s, i + o7, l4) == Some(i + o8));
    lemma_scan_quote(s, i + o8, e.page_entry.path);
    assert(spec_after_lit(s, i + o9, l5) == Some(i + o10));
    lemma_scan_quote(s, i + o10, e.renderer);
    assert(spec_after_lit(s, i + o11, l6) == Some(i + o12));
    assert(spec_scan_entry(s, i) == Some(((route, e), i + o12)));
}

/// Item-list form of the route-map round trip: the joined entries
/// stand at `i` with the closing brace right after them.
pub proof fn lemma_scan_routes_items_text(
    s: Seq<char>,
    i: int,
    v: Seq<(Seq<char>, ManifestRouteEntryView)>,
)
    requires
        v.len() > 0,
        0 <= i,
        i + spec_routes_items(v).len() + 1 <= s.len(),
        forall|k: int|
            0 <= k < spec_routes_items(v).len() ==> s[i + k] == spec_routes_items(v)[k],
        s[i + spec_routes_items(v).len() as int] == '}',
    ensures
        spec_scan_routes_items(s, i) == Some((v, i + spec_routes_items(v).len() as int + 1)),
    decreases v.len(),
{
    let items = spec_routes_items(v);
    let e0 = spec_entry_text(v[0].0, v[0].1);
    if v.len() == 1 {
        assert(items == e0);
        assert forall|k: int| 0 <= k < e0.len() implies s.subrange(i, i + e0.len() as int)[k]
            == e0[k] by {
            assert(s[i + k] == items[k]);
        }
        assert(s.subrange(i, i + e0.len() as int) =~= e0);
        lemma_scan_entry_text(s, i, v[0].0, v[0].1);
        assert(s[i + e0.len() as int] == '}');
        assert(seq![(v[0].0, v[0].1)] =~= v);
    } else {
        let rest = v.skip(1);
        let ri = spec_routes_items(rest);
        assert(items == e0 + ",\n"@ + ri);
        assert(items.len() == e0.len() + 2 + ri.len()) by {
            reveal_strlit(",\n");
        }
        assert forall|k: int| 0 <= k < e0.len() implies s.subrange(i, i + e0.len() as int)[k]
            == e0[k] by {
            assert(s[i + k] == items[k]);
            assert(items[k] == e0[k]);
        }
        assert(s.subrange(i, i + e0.len() as int) =~= e0);
        lemma_scan_entry_text(s, i, v[0].0, v[0].1);
        let j = i + e0.len() as int;
        assert(s[j] == ',') by {
            reveal_strlit(",\n");
            assert(items[e0.len() as int] == ',');
        }
        assert(s[j + 1] == '\n') by {
            reveal_strlit(",\n");
            assert(items[e0.len() as int + 1] == '\n');
        }
        assert(s[j] != '}');
        assert forall|k: int| 0 <= k < ri.len() implies s[j + 2 + k] == ri[k] by {
            assert(s[i + (e0.len() + 2 + k)] == items[e0.len() + 2 + k]);
            assert(items[e0.len() + 2 + k] == ri[k]);
        }
        assert(s[j + 2 + ri.len() as int] == '}');
        lemma_scan_routes_items_text(s, j + 2, rest);
        assert(seq![(v[0].0, v[0].1)] + rest =~= v);
    }
}

/// Scanning a written route map from its own start yields the routes
/// back and stops right after the closing brace.
pub proof fn lemma_scan_routes_text(
    s: Seq<char>,
    i: int,
    v: Seq<(Seq<char>, ManifestRouteEntryView)>,
)
    requires
        0 <= i,
        i + spec_routes_text(v).len() <= s.len(),
        s.subrange(i, i + spec_routes_text(v).len() as int) == spec_routes_text(v),
    ensures
        spec_scan_routes(s, i) == Some((v, i + spec_routes_text(v).len() as int)),
{
    let t = spec_routes_text(v);
    let items = spec_routes_items(v);
    assert(t.len() == items.len() + 2);
    assert(s.subrange(i, i + t.len() as int)[0] == s[i]);
    assert(t[0] == '{');
    assert(s[i] == '{');
    assert(s.subrange(i, i + t.len() as int)[t.len() - 1] == s[i + t.len() - 1]);
    assert(t[t.len() - 1] == '}');
    if v.len() == 0 {
        assert(items.len() == 0);
        assert(s[i + 1] == '}');
    } else {
        assert(s.subrange(i, i + t.len() as int)[1] == s[i + 1]);
        assert(t[1] == items[0]);
        assert(items[0] == spec_entry_text(v[0].0, v[0].1)[0]);
        assert(spec_entry_text(v[0].0, v[0].1)[0] == spec_quote(v[0].0)[0]);
        assert(spec_quote(v[0].0)[0] == '"');
        assert(s[i + 1] == '"');
        assert(s[i + 1] != '}');
        assert forall|k: int| 0 <= k < items.len() implies s[i + 1 + k] == items[k] by {
            assert(s.subrange(i, i + t.len() as int)[1 + k] == s[i + 1 + k]);
            assert(t[1 + k] == items[k]);
        }
        assert(s[i + 1 + items.len() as int] == '}');
        lemma_scan_routes_items_text(s, i + 1, v);
    }
}

/// Law: the manifest JSON round-trips.  Scanning the written form of
/// any manifest content yields that content back, consuming the whole
/// text.
#[verifier::rlimit(100)]
pub proof fn lemma_manifest_round_trip(m: ManifestView)
    ensures
        spec_scan_manifest(spec_manifest_text(m), 0) == Some(
            (m, spec_manifest_text(m).len() as int),
        ),
{
    let s = spec_manifest_text(m);
    let l1 = "{\n  \"global\": {\n    \"head\": "@;
    let qh = spec_quote(m.head);
    let l2 = ",\n    \"cache\": "@;
    let qc = spec_quote(m.cache);
    let l3 = "\n  },\n  \"routes\": "@;
    let rt = spec_routes_text(m.routes);
    let l4 = "\n}"@;
    let o1 = l1.len() as int;
    let o2 = o1 + qh.len();
    let o3 = o2 + l2.len();
    let o4 = o3 + qc.len();
    let o5 = o4 + l3.len();
    let o6 = o5 + rt.len();
    let o7 = o6 + l4.len();
    assert(s.len() == o7);
    assert(s.subrange(0, o1) =~= l1);
    assert(s.subrange(o1, o2) =~= qh);
    assert(s.subrange(o2, o3) =~= l2);
    assert(s.subrange(o3, o4) =~= qc);
    assert(s.subrange(o4, o5) =~= l3);
    assert(s.subrange(o5, o6) =~= rt);
    assert(s.subrange(o6, o7) =~= l4);
    assert(spec_lit_at(s, 0, l1));
    assert(spec_after_lit(s, 0, l1) == Some(o1));
    lemma_scan_quote(s, o1, m.head);
    assert(spec_lit_at(s, o2, l2));
    assert(spec_after_lit(s, o2, l2) == Some(o3));
    lemma_scan_quote(s, o3, m.cache);
    assert(spec_lit_at(s, o4, l3));
    assert(spec_after_lit(s, o4, l3) == Some(o5));
    lemma_scan_routes_text(s, o5, m.routes);
    assert(spec_lit_at(s, o6, l4));
    assert(spec_after_lit(s, o6, l4) == Some(o7));
    assert(spec_scan_manifest(s, 0) == Some(
        (ManifestView { head: m.head, cache: m.cache, routes: m.routes }, o7),
    ));
    assert(ManifestView { head: m.head, cache: m.cache, routes: m.routes } == m);
}

// ---------------------------------------------------------------
// building and reading the route map
// ---------------------------------------------------------------

impl Manifest {
    /// The entry stored under a route.
    pub closed spec fn spec_route_get(self, route: Seq<char>) -> Option<ManifestRouteEntryView> {
        spec_get(self.routes@, route)
    }

    /// Stores an entry under `route`, handing back the entry the
    /// route held before, if any.
    pub fn insert(
        &mut self,
        route: &str,
        id: i64,
        page_entry: &PageEntry,
        renderer: String,
    ) -> (r: Option<ManifestRouteEntry>)
        ensures
            final(self)@.head == old(self)@.head,
            final(self)@.cache == old(self)@.cache,
            final(self).spec_route_get(route@) == Some(
                ManifestRouteEntryView {
                    id: id as int,
                    page_entry: page_entry@,
                    renderer: renderer@,
                },
            ),
            forall|q: Seq<char>|
                q != route@ ==> final(self).spec_route_get(q) == old(self).spec_route_get(q),
            match r {
                Option::Some(prev) => old(self).spec_route_get(route@) == Some(prev@),
                Option::None => old(self).spec_route_get(route@) is None,
            },
            match old(self).spec_route_get(route@) {
                Option::None => final(self)@.routes == old(self)@.routes.push(
                    (
                        route@,
                        ManifestRouteEntryView {
                            id: id as int,
                            page_entry: page_entry@,
                            renderer: renderer@,
                        },
                    ),
                ),
                Option::Some(_) => final(self)@.routes.len() == old(self)@.routes.len()
                    && exists|i: int|
                    {
                        &&& 0 <= i < old(self)@.routes.len()
                        &&& old(self)@.routes[i].0 == route@
                        &&& forall|j: int| 0 <= j < i ==> old(self)@.routes[j].0 != route@
                        &&& final(self)@.routes == old(self)@.routes.update(
                            i,
                            (
                                route@,
                                ManifestRouteEntryView {
                                    id: id as int,
                                    page_entry: page_entry@,
                                    renderer: renderer@,
                                },
                            ),
                        )
                    },
            },
    {
        let entry = ManifestRouteEntry::new(id, page_entry.duplicate(), renderer);
        let ghost newview = entry@;
        match find_key(&self.routes, route) {
            Some(i) => {
                proof {
                    lemma_get_at_index(self.routes@, route@, i as int);
                }
                let ghost pre = self.routes@;
                let prev = self.routes.remove(i);
                self.routes.insert(i, (route.to_owned(), entry));
                proof {
                    assert(self.routes@ =~= pre.update(i as int, self.routes@[i as int]));
                    lemma_get_update_all(pre, i as int, self.routes@[i as int]);
                    let rv = Seq::new(pre.len(), |k: int| (pre[k].0@, pre[k].1@));
                    assert(Seq::new(
                        self.routes@.len(),
                        |k: int| (self.routes@[k].0@, self.routes@[k].1@),
                    ) =~= rv.update(i as int, (route@, newview)));
                    assert(rv[i as int].0 == route@);
                    assert(forall|j: int| 0 <= j < i ==> rv[j].0 != route@);
                    let ghost ii = i as int;
                    assert({
                        &&& 0 <= ii < rv.len()
                        &&& rv[ii].0 == route@
                        &&& forall|j: int| 0 <= j < ii ==> rv[j].0 != route@
                        &&& Seq::new(
                            self.routes@.len(),
                            |k: int| (self.routes@[k].0@, self.routes@[k].1@),
                        ) == rv.update(ii, (route@, newview))
                    });
                }
                Some(prev.1)
            },
            None => {
                proof {
                    lemma_get_none(self.routes@, route@);
                }
                let ghost pre = self.routes@;
                self.routes.push((route.to_owned(), entry));
                proof {
                    lemma_get_push_all(pre, self.routes@[pre.len() as int]);
                    assert(Seq::new(
                        self.routes@.len(),
                        |k: int| (self.routes@[k].0@, self.routes@[k].1@),
                    ) =~= Seq::new(pre.len(), |k: int| (pre[k].0@, pre[k].1@)).push(
                        (route@, newview),
                    ));
                }
                None
            },
        }
    }

    /// The entry stored under a route, if any.
    pub fn get(&self, route: &str) -> (r: Option<&ManifestRouteEntry>)
        ensures
            match r {
                Option::Some(e) => self.spec_route_get(route@) == Some(e@),
                Option::None => self.spec_route_get(route@) is None,
            },
    {
        match find_key(&self.routes, route) {
            Some(i) => {
                proof {
                    lemma_get_at_index(self.routes@, route@, i as int);
                }
                Some(&self.routes[i].1)
            },
            None => {
                proof {
                    lemma_get_none(self.routes@, route@);
                }
                None
            },
        }
    }
}

// ---------------------------------------------------------------
// reconciliation
// ---------------------------------------------------------------

/// The route a staged target path belongs to, derived with the same
/// rule that groups the bundler output: the target's parent directory
/// relative to the cache's `pages` tree.
pub open spec fn spec_target_route(cache_dir: Seq<char>, path: Seq<char>) -> Option<Seq<char>> {
    spec_asset_route(cache_dir + "/pages"@, path)
}

/// Every target reconciles: its route derives and the bundler output
/// has an asset group for it.
pub open spec fn spec_all_reconcile(
    cache_dir: Seq<char>,
    tv: Seq<(Seq<char>, i64)>,
    dp: Seq<(String, PageEntry)>,
) -> bool {
    forall|k: int|
        0 <= k < tv.len() ==> ((#[trigger] spec_target_route(cache_dir, tv[k].0)) matches Some(q)
            && spec_get(dp, q) is Some)
}

/// What reconciliation says of a produced manifest, with `rv` the
/// resolved renderer path of each target: the manifest's routes come
/// exactly from the targets, each entry carrying a target's ID, its
/// resolved renderer path, and the bundler's asset group for that
/// route.
pub open spec fn spec_reconciled_with(
    cache_dir: Seq<char>,
    tv: Seq<(Seq<char>, i64)>,
    rv: Seq<Seq<char>>,
    dp: Seq<(String, PageEntry)>,
    m: ManifestView,
) -> bool {
    &&& rv.len() == tv.len()
    &&& m.cache == cache_dir
    &&& forall|j: int, k: int| 0 <= j < k < m.routes.len() ==> m.routes[j].0 != m.routes[k].0
    &&& forall|j: int|
        0 <= j < m.routes.len() ==> exists|k: int|
            {
                &&& 0 <= k < tv.len()
                &&& spec_target_route(cache_dir, (#[trigger] tv[k]).0) == Some(
                    (#[trigger] m.routes[j]).0,
                )
                &&& m.routes[j].1.id == tv[k].1
                &&& m.routes[j].1.renderer == rv[k]
                &&& spec_get(dp, m.routes[j].0) == Some(m.routes[j].1.page_entry)
            }
    &&& forall|k: int|
        0 <= k < tv.len() ==> spec_target_route(cache_dir, (#[trigger] tv[k]).0) is Some
            && exists|j: int|
            0 <= j < m.routes.len() && (#[trigger] m.routes[j]).0 == spec_target_route(
                cache_dir,
                tv[k].0,
            ).unwrap()
}

/// Reconciled with respect to some sequence of resolved renderer
/// paths, one per target: what holds of the manifest whatever the
/// disk resolved each staged path to.
pub open spec fn spec_reconciled_resolved(
    cache_dir: Seq<char>,
    tv: Seq<(Seq<char>, i64)>,
    dp: Seq<(String, PageEntry)>,
    m: ManifestView,
) -> bool {
    exists|rv: Seq<Seq<char>>| #[trigger] spec_reconciled_with(cache_dir, tv, rv, dp, m)
}

/// Reconciles the build session's targets against the bundler output
/// into the persisted manifest.
pub struct ManifestGenerator {
    targets: Targets,
    dist: DistDirContainer,
    cache_dir: String,
}

impl ManifestGenerator {
    /// The targets handed in.
    pub closed spec fn spec_targets(self) -> Seq<(Seq<char>, i64)> {
        self.targets.spec_entries()
    }

    /// The bundler output handed in.
    pub closed spec fn spec_dist(self) -> Seq<(String, PageEntry)> {
        self.dist.pages@
    }

    /// The cache directory handed in.
    pub closed spec fn spec_cache_dir(self) -> Seq<char> {
        self.cache_dir@
    }

    /// Pairs the session's targets with the cache they were staged in
    /// and the analyzed bundler output.
    pub fn new(targets: Targets, cache: &CacheDir, dist: DistDirContainer) -> (g: Self)
        ensures
            g.spec_targets() == targets.spec_entries(),
            g.spec_dist() == dist.pages@,
            g.spec_cache_dir() == cache.spec_dir(),
    {
        let cache_dir = cache.dir_path();
        ManifestGenerator { targets, dist, cache_dir }
    }

    /// Builds the manifest.  The head path and every target's staged
    /// path are resolved against the disk, then every target's route
    /// is derived and looked up in the bundler output.  Fails with
    /// the reconciliation error exactly when some target's route does
    /// not derive or has no asset group, and with the
    /// canonicalization error when the disk cannot resolve a path; on
    /// success the manifest is reconciled with respect to the
    /// resolved paths.
    pub fn generate(&self, head: &str) -> (r: Result<Manifest, BuildError>)
        ensures
            match r {
                Result::Ok(m) => spec_reconciled_resolved(
                    self.spec_cache_dir(),
                    self.spec_targets(),
                    self.spec_dist(),
                    m@,
                ),
                Result::Err(e) => {
                    &&& (e matches BuildError::RouteReconciliationFailed(_) || e matches
                        BuildError::PathCanonicalizationFailed(_))
                    &&& e matches BuildError::RouteReconciliationFailed(_)
                        ==> !spec_all_reconcile(
                        self.spec_cache_dir(),
                        self.spec_targets(),
                        self.spec_dist(),
                    )
                },
            },
            spec_all_reconcile(self.spec_cache_dir(), self.spec_targets(), self.spec_dist())
                ==> !(r matches Err(e) && e matches BuildError::RouteReconciliationFailed(_)),
    {
        let head_abs = match canonical_path(head) {
            Some(h) => h,
            None => {
                return Err(BuildError::PathCanonicalizationFailed(head.to_owned()));
            },
        };
        let entries = self.targets.iter();
        let n = entries.len();
        let mut renderers: Vec<String> = Vec::new();
        let mut k: usize = 0;
        while k < n
            invariant
                n == entries@.len(),
                0 <= k <= n,
                renderers@.len() == k,
            decreases n - k,
        {
            let abs = match canonical_path(entries[k].0.as_str()) {
                Some(a) => a,
                None => {
                    return Err(BuildError::PathCanonicalizationFailed(entries[k].0.clone()));
                },
            };
            renderers.push(abs);
            k += 1;
        }
        proof {
            assert(spec_target_views(entries@) == self.spec_targets());
            assert(renderers@.len() == self.spec_targets().len());
        }
        match self.generate_resolved(head_abs, &renderers) {
            Ok(m) => {
                proof {
                    assert(spec_reconciled_with(
                        self.spec_cache_dir(),
                        self.spec_targets(),
                        spec_views_of(renderers@),
                        self.spec_dist(),
                        m@,
                    ));
                    assert(spec_reconciled_resolved(
                        self.spec_cache_dir(),
                        self.spec_targets(),
                        self.spec_dist(),
                        m@,
                    ));
                }
                Ok(m)
            },
            Err(e) => Err(e),
        }
    }

    /// Reconciles with the resolved paths already in hand: the head's
    /// absolute path and one resolved renderer path per target.
    /// Nothing here touches the disk, so this succeeds exactly when
    /// every target reconciles.
    pub fn generate_resolved(&self, head_abs: String, renderers: &Vec<String>) -> (r: Result<
        Manifest,
        BuildError,
    >)
        requires
            renderers@.len() == self.spec_targets().len(),
        ensures
            match r {
                Result::Ok(m) => m@.head == head_abs@ && spec_reconciled_with(
                    self.spec_cache_dir(),
                    self.spec_targets(),
                    spec_views_of(renderers@),
                    self.spec_dist(),
                    m@,
                ),
                Result::Err(e) => e matches BuildError::RouteReconciliationFailed(_)
                    && !spec_all_reconcile(
                    self.spec_cache_dir(),
                    self.spec_targets(),
                    self.spec_dist(),
                ),
            },
            spec_all_reconcile(self.spec_cache_dir(), self.spec_targets(), self.spec_dist())
                ==> r is Ok,
    {
        let global = GlobalEntry::new(head_abs, self.cache_dir.clone());
        let mut m = Manifest::new(global);
        let mut pages_root = self.cache_dir.clone();
        pages_root.append("/pages");
        let entries = self.targets.iter();
        let n = entries.len();
        let ghost tv = self.spec_targets();
        let ghost rv = spec_views_of(renderers@);
        let mut k: usize = 0;
        while k < n
            invariant
                n == entries@.len(),
                n == renderers@.len(),
                0 <= k <= n,
                tv == self.spec_targets(),
                rv == spec_views_of(renderers@),
                rv.len() == tv.len(),
                spec_target_views(entries@) == tv,
                pages_root@ == self.spec_cache_dir() + "/pages"@,
                m@.cache == self.spec_cache_dir(),
                m@.head == head_abs@,
                forall|j2: int, k2: int|
                    0 <= j2 < k2 < m@.routes.len() ==> m@.routes[j2].0 != m@.routes[k2].0,
                forall|j2: int|
                    0 <= j2 < m@.routes.len() ==> exists|k2: int|
                        {
                            &&& 0 <= k2 < tv.len()
                            &&& spec_target_route(
                                self.spec_cache_dir(),
                                (#[trigger] tv[k2]).0,
                            ) == Some((#[trigger] m@.routes[j2]).0)
                            &&& m@.routes[j2].1.id == tv[k2].1
                            &&& m@.routes[j2].1.renderer == rv[k2]
                            &&& spec_get(self.spec_dist(), m@.routes[j2].0) == Some(
                                m@.routes[j2].1.page_entry,
                            )
                        },
                forall|k2: int|
                    0 <= k2 < k ==> spec_target_route(self.spec_cache_dir(), (#[trigger] tv[
                        k2
                    ]).0) is Some && exists|j2: int|
                        0 <= j2 < m@.routes.len() && (#[trigger] m@.routes[j2]).0
                            == spec_target_route(self.spec_cache_dir(), tv[k2].0).unwrap(),
            decreases n - k,
        {
            let path = entries[k].0.as_str();
            let id = entries[k].1;
            proof {
                assert(tv[k as int].0 == entries@[k as int].0@);
                assert(tv[k as int].1 == entries@[k as int].1);
                assert(rv[k as int] == renderers@[k as int]@);
            }
            let parent = parent_of(path);
            let route = match strip_prefix(parent.as_str(), pages_root.as_str()) {
                Some(rel) => route_of(rel.as_str()),
                None => {
                    proof {
                        assert(spec_target_route(self.spec_cache_dir(), tv[k as int].0)
                            is None);
                        assert(!spec_all_reconcile(
                            self.spec_cache_dir(),
                            tv,
                            self.spec_dist(),
                        ));
                    }
                    return Err(BuildError::RouteReconciliationFailed(parent));
                },
            };
            proof {
                assert(spec_target_route(self.spec_cache_dir(), tv[k as int].0) == Some(
                    route@,
                ));
            }
            let page_entry = match find_key(&self.dist.pages, route.as_str()) {
                Some(j) => {
                    proof {
                        lemma_get_at_index(self.dist.pages@, route@, j as int);
                    }
                    &self.dist.pages[j].1
                },
                None => {
                    proof {
                        lemma_get_none(self.dist.pages@, route@);
                        assert(!spec_all_reconcile(
                            self.spec_cache_dir(),
                            tv,
                            self.spec_dist(),
                        ));
                    }
                    return Err(BuildError::RouteReconciliationFailed(route));
                },
            };
            let ghost mpre = m@;
            proof {
                crate::kv::lemma_get_iff_has_key(m.routes@, route@);
                assert forall|j2: int| 0 <= j2 < m.routes@.len() implies (#[trigger] m@.routes[
                    j2
                ]).0 == m.routes@[j2].0@ by {}
                if m.spec_route_get(route@) is Some {
                    let j2 = choose|j2: int|
                        0 <= j2 < m.routes@.len() && (#[trigger] m.routes@[j2]).0@ == route@;
                    assert(m@.routes[j2].0 == route@);
                    assert(spec_has_key_view(m@.routes, route@));
                } else {
                    assert forall|j2: int| 0 <= j2 < m@.routes.len() implies (#[trigger] m@.routes[
                        j2
                    ]).0 != route@ by {
                        assert(m.routes@[j2].0@ == m@.routes[j2].0);
                    }
                    assert(!spec_has_key_view(m@.routes, route@));
                }
            }
            m.insert(route.as_str(), id, page_entry, renderers[k].clone());
            proof {
                lemma_generator_step(
                    self.spec_cache_dir(),
                    tv,
                    rv,
                    self.spec_dist(),
                    mpre,
                    m@,
                    k as int,
                    route@,
                );
            }
            k += 1;
        }
        Ok(m)
    }
}

/// `routes` holds `key`.
pub open spec fn spec_has_key_view(
    routes: Seq<(Seq<char>, ManifestRouteEntryView)>,
    key: Seq<char>,
) -> bool {
    exists|j: int| 0 <= j < routes.len() && (#[trigger] routes[j]).0 == key
}

/// One reconciliation step keeps the manifest invariant.
#[verifier::rlimit(100)]
proof fn lemma_generator_step(
    cache_dir: Seq<char>,
    tv: Seq<(Seq<char>, i64)>,
    rv: Seq<Seq<char>>,
    dp: Seq<(String, PageEntry)>,
    pre: ManifestView,
    post: ManifestView,
    k: int,
    route: Seq<char>,
)
    requires
        rv.len() == tv.len(),
        0 <= k < tv.len(),
        spec_target_route(cache_dir, tv[k].0) == Some(route),
        spec_get(dp, route) is Some,
        forall|j2: int, k2: int| 0 <= j2 < k2 < pre.routes.len() ==> pre.routes[j2].0 != pre.routes[
            k2
        ].0,
        forall|j2: int|
            0 <= j2 < pre.routes.len() ==> exists|k2: int|
                {
                    &&& 0 <= k2 < tv.len()
                    &&& spec_target_route(cache_dir, (#[trigger] tv[k2]).0) == Some(
                        (#[trigger] pre.routes[j2]).0,
                    )
                    &&& pre.routes[j2].1.id == tv[k2].1
                    &&& pre.routes[j2].1.renderer == rv[k2]
                    &&& spec_get(dp, pre.routes[j2].0) == Some(pre.routes[j2].1.page_entry)
                },
        forall|k2: int|
            0 <= k2 < k ==> spec_target_route(cache_dir, (#[trigger] tv[k2]).0) is Some
                && exists|j2: int|
                0 <= j2 < pre.routes.len() && (#[trigger] pre.routes[j2]).0 == spec_target_route(
                    cache_dir,
                    tv[k2].0,
                ).unwrap(),
        ({
            let nv = ManifestRouteEntryView {
                id: tv[k].1 as int,
                page_entry: spec_get(dp, route).unwrap(),
                renderer: rv[k],
            };
            if spec_has_key_view(pre.routes, route) {
                post.routes.len() == pre.routes.len() && exists|i: int|
                    {
                        &&& 0 <= i < pre.routes.len()
                        &&& pre.routes[i].0 == route
                        &&& post.routes == pre.routes.update(i, (route, nv))
                    }
            } else {
                post.routes == pre.routes.push((route, nv))
            }
        }),
    ensures
        forall|j2: int, k2: int| 0 <= j2 < k2 < post.routes.len() ==> post.routes[j2].0
            != post.routes[k2].0,
        forall|j2: int|
            0 <= j2 < post.routes.len() ==> exists|k2: int|
                {
                    &&& 0 <= k2 < tv.len()
                    &&& spec_target_route(cache_dir, (#[trigger] tv[k2]).0) == Some(
                        (#[trigger] post.routes[j2]).0,
                    )
                    &&& post.routes[j2].1.id == tv[k2].1
                    &&& post.routes[j2].1.renderer == rv[k2]
                    &&& spec_get(dp, post.routes[j2].0) == Some(post.routes[j2].1.page_entry)
                },
        forall|k2: int|
            0 <= k2 < k + 1 ==> spec_target_route(cache_dir, (#[trigger] tv[k2]).0) is Some
                && exists|j2: int|
                0 <= j2 < post.routes.len() && (#[trigger] post.routes[j2]).0
                    == spec_target_route(cache_dir, tv[k2].0).unwrap(),
{
    let nv = ManifestRouteEntryView {
        id: tv[k].1 as int,
        page_entry: spec_get(dp, route).unwrap(),
        renderer: rv[k],
    };
    if spec_has_key_view(pre.routes, route) {
        let i = choose|i: int|
            {
                &&& 0 <= i < pre.routes.len()
                &&& pre.routes[i].0 == route
                &&& post.routes == pre.routes.update(i, (route, nv))
            };
        assert forall|j2: int, k2: int|
            0 <= j2 < k2 < post.routes.len() implies post.routes[j2].0 != post.routes[k2].0 by {
            if j2 != i {
                assert(post.routes[j2] == pre.routes[j2]);
            }
            if k2 != i {
                assert(post.routes[k2] == pre.routes[k2]);
            }
        }
        assert forall|j2: int| 0 <= j2 < post.routes.len() implies exists|k2: int|
            {
                &&& 0 <= k2 < tv.len()
                &&& spec_target_route(cache_dir, (#[trigger] tv[k2]).0) == Some(
                    (#[trigger] post.routes[j2]).0,
                )
                &&& post.routes[j2].1.id == tv[k2].1
                &&& post.routes[j2].1.renderer == rv[k2]
                &&& spec_get(dp, post.routes[j2].0) == Some(post.routes[j2].1.page_entry)
            } by {
            if j2 == i {
                assert(post.routes[j2] == (route, nv));
                assert(0 <= k < tv.len() && spec_target_route(cache_dir, tv[k].0) == Some(
                    post.routes[j2].0,
                ) && post.routes[j2].1.id == tv[k].1 && post.routes[j2].1.renderer == rv[k]
                    && spec_get(dp, post.routes[j2].0) == Some(post.routes[j2].1.page_entry));
            } else {
                assert(post.routes[j2] == pre.routes[j2]);
            }
        }
        assert forall|k2: int| 0 <= k2 < k + 1 implies spec_target_route(
            cache_dir,
            (#[trigger] tv[k2]).0,
        ) is Some && exists|j2: int|
            0 <= j2 < post.routes.len() && (#[trigger] post.routes[j2]).0 == spec_target_route(
                cache_dir,
                tv[k2].0,
            ).unwrap() by {
            if k2 == k {
                assert(post.routes[i].0 == route);
            } else {
                let j2 = choose|j2: int|
                    0 <= j2 < pre.routes.len() && (#[trigger] pre.routes[j2]).0
                        == spec_target_route(cache_dir, tv[k2].0).unwrap();
                if j2 == i {
                    assert(post.routes[i].0 == pre.routes[i].0);
                } else {
                    assert(post.routes[j2] == pre.routes[j2]);
                }
            }
        }
    } else {
        let jn = pre.routes.len() as int;
        assert(post.routes[jn] == (route, nv));
        assert forall|j2: int, k2: int|
            0 <= j2 < k2 < post.routes.len() implies post.routes[j2].0 != post.routes[k2].0 by {
            if k2 == jn {
                assert(post.routes[j2] == pre.routes[j2]);
                assert(!spec_has_key_view(pre.routes, route));
                assert(pre.routes[j2].0 != route);
            } else {
                assert(post.routes[j2] == pre.routes[j2]);
                assert(post.routes[k2] == pre.routes[k2]);
            }
        }
        assert forall|j2: int| 0 <= j2 < post.routes.len() implies exists|k2: int|
            {
                &&& 0 <= k2 < tv.len()
                &&& spec_target_route(cache_dir, (#[trigger] tv[k2]).0) == Some(
                    (#[trigger] post.routes[j2]).0,
                )
                &&& post.routes[j2].1.id == tv[k2].1
                &&& post.routes[j2].1.renderer == rv[k2]
                &&& spec_get(dp, post.routes[j2].0) == Some(post.routes[j2].1.page_entry)
            } by {
            if j2 == jn {
                assert(0 <= k < tv.len() && spec_target_route(cache_dir, tv[k].0) == Some(
                    post.routes[j2].0,
                ) && post.routes[j2].1.id == tv[k].1 && post.routes[j2].1.renderer == rv[k]
                    && spec_get(dp, post.routes[j2].0) == Some(post.routes[j2].1.page_entry));
            } else {
                assert(post.routes[j2] == pre.routes[j2]);
            }
        }
        assert forall|k2: int| 0 <= k2 < k + 1 implies spec_target_route(
            cache_dir,
            (#[trigger] tv[k2]).0,
        ) is Some && exists|j2: int|
            0 <= j2 < post.routes.len() && (#[trigger] post.routes[j2]).0 == spec_target_route(
                cache_dir,
                tv[k2].0,
            ).unwrap() by {
            if k2 == k {
                assert(post.routes[jn].0 == route);
            } else {
                let j2 = choose|j2: int|
                    0 <= j2 < pre.routes.len() && (#[trigger] pre.routes[j2]).0
                        == spec_target_route(cache_dir, tv[k2].0).unwrap();
                assert(post.routes[j2] == pre.routes[j2]);
            }
        }
    }
}

} // verus!
