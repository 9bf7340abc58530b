//! Path and route string rules.
//!
//! Every place in the pipeline that turns a file path into a route, or a
//! route into a generated-script path, goes through the functions of this
//! module, so that the independently walked trees (source, cache, dist)
//! derive their route names by one shared rule.
//!
//! A path here is a plain string whose segments are separated by `'/'`.

use vstd::prelude::*;

verus! {

/// Index of the first character of the file-name part of `s`: the
/// position right after the last `'/'`, or `0` when `s` has none.
pub open spec fn spec_name_start(s: Seq<char>) -> int
    decreases s.len(),
{
    if s.len() == 0 {
        0
    } else if s[s.len() - 1] == '/' {
        s.len() as int
    } else {
        spec_name_start(s.drop_last())
    }
}

/// The file-name start lies inside the path.
pub proof fn lemma_name_start_bounds(s: Seq<char>)
    ensures
        0 <= spec_name_start(s) <= s.len(),
    decreases s.len(),
{
    if s.len() > 0 && s[s.len() - 1] != '/' {
        lemma_name_start_bounds(s.drop_last());
    }
}

/// Index of the last occurrence of `c` in `s`, or `-1` when absent.
pub open spec fn spec_last_index_of(s: Seq<char>, c: char) -> int
    decreases s.len(),
{
    if s.len() == 0 {
        -1
    } else if s[s.len() - 1] == c {
        s.len() - 1
    } else {
        spec_last_index_of(s.drop_last(), c)
    }
}

/// The last-occurrence index lies inside the string or is absent.
pub proof fn lemma_last_index_of_bounds(s: Seq<char>, c: char)
    ensures
        -1 <= spec_last_index_of(s, c) < s.len(),
    decreases s.len(),
{
    if s.len() > 0 && s[s.len() - 1] != c {
        lemma_last_index_of_bounds(s.drop_last(), c);
    }
}

/// The file-name part of `s`: everything after the last `'/'`.
pub open spec fn spec_file_name(s: Seq<char>) -> Seq<char> {
    s.subrange(spec_name_start(s), s.len() as int)
}

/// The parent of `s`: everything before the last `'/'`, empty when `s`
/// has no `'/'`.
pub open spec fn spec_parent(s: Seq<char>) -> Seq<char> {
    let k = spec_name_start(s);
    if k == 0 {
        Seq::empty()
    } else {
        s.subrange(0, k - 1)
    }
}

/// Index where the extension of the file name of `s` begins (the last
/// `'.'` of the file name), or the length of `s` when the file name has
/// no extension.  A `'.'` that starts the file name does not begin an
/// extension.
pub open spec fn spec_stem_end(s: Seq<char>) -> int {
    let k = spec_name_start(s);
    let d = spec_last_index_of(spec_file_name(s), '.');
    if d <= 0 {
        s.len() as int
    } else {
        k + d
    }
}

/// `s` without its extension (unchanged when it has none).
pub open spec fn spec_strip_ext(s: Seq<char>) -> Seq<char> {
    s.subrange(0, spec_stem_end(s))
}

/// The file stem of `s`: its file name without the extension.
pub open spec fn spec_stem(s: Seq<char>) -> Seq<char> {
    s.subrange(spec_name_start(s), spec_stem_end(s))
}

/// The extension of `s`, without its leading `'.'`, or `None`.
pub open spec fn spec_ext(s: Seq<char>) -> Option<Seq<char>> {
    let k = spec_name_start(s);
    let d = spec_last_index_of(spec_file_name(s), '.');
    if d <= 0 {
        None
    } else {
        Some(s.subrange(k + d + 1, s.len() as int))
    }
}

/// `s` with its extension replaced by `e` (or `.e` appended when `s`
/// has no extension).
pub open spec fn spec_with_ext(s: Seq<char>, e: Seq<char>) -> Seq<char> {
    spec_strip_ext(s) + seq!['.'] + e
}

/// The cache-relative script path of a page route: a route whose stem
/// is not `index` is sent to `<route-without-ext>/index.<e>`; a route
/// whose stem is `index` only has its extension replaced.
pub open spec fn spec_setup_page_path(page: Seq<char>, e: Seq<char>) -> Seq<char> {
    if spec_stem(page) == "index"@ {
        spec_with_ext(page, e)
    } else {
        spec_strip_ext(page) + "/index."@ + e
    }
}

/// Segment-wise prefix stripping: `Some` of the remainder when `pre`
/// is a segment prefix of `p`.
pub open spec fn spec_strip_prefix(p: Seq<char>, pre: Seq<char>) -> Option<Seq<char>> {
    if pre.len() == 0 {
        Some(p)
    } else if p == pre {
        Some(Seq::empty())
    } else if p.len() > pre.len() && p.subrange(0, pre.len() as int) == pre && p[
        pre.len() as int
    ] == '/' {
        Some(p.subrange(pre.len() as int + 1, p.len() as int))
    } else {
        None
    }
}

/// The route of a path relative to a `pages` tree: the empty relative
/// path is the site root, written with the `#root` sentinel.
pub open spec fn spec_route_of(rel: Seq<char>) -> Seq<char> {
    if rel.len() == 0 {
        "#root"@
    } else {
        rel
    }
}

/// `s` with every `'$'` replaced by `':'` (dynamic route segments, as
/// the HTTP router spells them).
pub open spec fn spec_dollar_to_colon(s: Seq<char>) -> Seq<char> {
    Seq::new(s.len(), |i: int| if s[i] == '$' { ':' } else { s[i] })
}

/// The URL a route is served under: `/` for the root sentinel, else
/// `/` followed by the route with `'$'` segments spelled `':'`.
pub open spec fn spec_route_to_url(route: Seq<char>) -> Seq<char> {
    if route == "#root"@ {
        "/"@
    } else {
        "/"@ + spec_dollar_to_colon(route)
    }
}

/// Law: the script-path rule of a page route.  A route whose stem is
/// `index` keeps its place and only trades its extension; any other
/// route moves into a directory of its own stem, and the route is
/// still recoverable: the new path's directory is the route without
/// its extension.
pub proof fn lemma_setup_page_path_rule(page: Seq<char>, e: Seq<char>)
    ensures
        spec_stem(page) == "index"@ ==> spec_setup_page_path(page, e) == spec_strip_ext(page)
            + seq!['.'] + e,
        spec_stem(page) != "index"@ ==> spec_setup_page_path(page, e) == spec_strip_ext(page)
            + "/index."@ + e,
{
}

/// Character-wise string equality.
pub fn str_eq(a: &str, b: &str) -> (r: bool)
    ensures
        r == (a@ == b@),
{
    let na = a.unicode_len();
    let nb = b.unicode_len();
    if na != nb {
        return false;
    }
    let mut i: usize = 0;
    while i < na
        invariant
            na == a@.len(),
            na == b@.len(),
            0 <= i <= na,
            forall|j: int| 0 <= j < i ==> a@[j] == b@[j],
        decreases na - i,
    {
        if a.get_char(i) != b.get_char(i) {
            return false;
        }
        i += 1;
    }
    proof {
        assert(a@ =~= b@);
    }
    true
}

/// Index of the first character of the file-name part of `s`.
pub fn name_start(s: &str) -> (r: usize)
    ensures
        r as int == spec_name_start(s@),
        r <= s@.len(),
{
    let n = s.unicode_len();
    let mut r: usize = 0;
    let mut i: usize = 0;
    while i < n
        invariant
            n == s@.len(),
            0 <= i <= n,
            r <= i,
            r as int == spec_name_start(s@.subrange(0, i as int)),
        decreases n - i,
    {
        let c = s.get_char(i);
        proof {
            let t = s@.subrange(0, i + 1);
            assert(t.drop_last() =~= s@.subrange(0, i as int));
            assert(t[t.len() - 1] == s@[i as int]);
        }
        if c == '/' {
            r = i + 1;
        }
        i += 1;
    }
    proof {
        assert(s@.subrange(0, n as int) =~= s@);
    }
    r
}

/// Index of the last occurrence of `c` in `s`, if any.
pub fn last_index_of(s: &str, c: char) -> (r: Option<usize>)
    ensures
        match r {
            Some(i) => i as int == spec_last_index_of(s@, c) && i < s@.len(),
            None => spec_last_index_of(s@, c) == -1,
        },
{
    let n = s.unicode_len();
    let mut r: Option<usize> = None;
    let mut i: usize = 0;
    while i < n
        invariant
            n == s@.len(),
            0 <= i <= n,
            match r {
                Some(k) => k < i && k as int == spec_last_index_of(s@.subrange(0, i as int), c),
                None => spec_last_index_of(s@.subrange(0, i as int), c) == -1,
            },
        decreases n - i,
    {
        let d = s.get_char(i);
        proof {
            let t = s@.subrange(0, i + 1);
            assert(t.drop_last() =~= s@.subrange(0, i as int));
            assert(t[t.len() - 1] == s@[i as int]);
        }
        if d == c {
            r = Some(i);
        }
        i += 1;
    }
    proof {
        assert(s@.subrange(0, n as int) =~= s@);
    }
    r
}

/// Index where the extension of the file name of `s` begins, or the
/// length of `s` when there is none.
pub fn stem_end(s: &str) -> (r: usize)
    ensures
        r as int == spec_stem_end(s@),
        spec_name_start(s@) <= r <= s@.len(),
{
    let n = s.unicode_len();
    let k = name_start(s);
    let f = s.substring_char(k, n);
    let d = last_index_of(f, '.');
    proof {
        lemma_name_start_bounds(s@);
        assert(f@ =~= spec_file_name(s@));
    }
    match d {
        Some(d) if d > 0 => k + d,
        _ => n,
    }
}

/// The parent of `s`: everything before the last `'/'`.
pub fn parent_of(s: &str) -> (r: String)
    ensures
        r@ == spec_parent(s@),
{
    let k = name_start(s);
    if k == 0 {
        String::new()
    } else {
        s.substring_char(0, k - 1).to_owned()
    }
}

/// The file stem of `s`.
pub fn stem_of(s: &str) -> (r: String)
    ensures
        r@ == spec_stem(s@),
{
    let k = name_start(s);
    let e = stem_end(s);
    s.substring_char(k, e).to_owned()
}

/// The extension of `s`, without its leading `'.'`.
pub fn ext_of(s: &str) -> (r: Option<String>)
    ensures
        match r {
            Some(e) => spec_ext(s@) == Some(e@),
            None => spec_ext(s@) is None,
        },
{
    let n = s.unicode_len();
    let e = stem_end(s);
    if e == n {
        proof {
            lemma_name_start_bounds(s@);
            lemma_last_index_of_bounds(spec_file_name(s@), '.');
            assert(spec_file_name(s@).len() == n - spec_name_start(s@));
            assert(spec_last_index_of(spec_file_name(s@), '.') <= 0);
            assert(spec_ext(s@) is None);
        }
        None
    } else {
        proof {
            lemma_name_start_bounds(s@);
            lemma_last_index_of_bounds(spec_file_name(s@), '.');
            assert(s@.subrange(e + 1, n as int) =~= spec_ext(s@).unwrap());
        }
        Some(s.substring_char(e + 1, n).to_owned())
    }
}

/// The cache-relative script path of a page route (see
/// [`spec_setup_page_path`]).
pub fn setup_page_path(page: &str, ext: &str) -> (r: String)
    ensures
        r@ == spec_setup_page_path(page@, ext@),
{
    let e = stem_end(page);
    let k = name_start(page);
    let base = page.substring_char(0, e);
    let stem = page.substring_char(k, e);
    let mut out = base.to_owned();
    if str_eq(stem, "index") {
        out.append(".");
        out.append(ext);
        proof {
            reveal_strlit(".");
            assert(out@ =~= spec_with_ext(page@, ext@));
        }
    } else {
        out.append("/index.");
        out.append(ext);
        proof {
            assert(out@ =~= spec_strip_ext(page@) + "/index."@ + ext@);
        }
    }
    out
}

/// Segment-wise prefix stripping (see [`spec_strip_prefix`]).
pub fn strip_prefix(p: &str, pre: &str) -> (r: Option<String>)
    ensures
        match r {
            Some(t) => spec_strip_prefix(p@, pre@) == Some(t@),
            None => spec_strip_prefix(p@, pre@) is None,
        },
{
    let np = p.unicode_len();
    let npre = pre.unicode_len();
    if npre == 0 {
        return Some(p.to_owned());
    }
    if str_eq(p, pre) {
        return Some(String::new());
    }
    if np > npre {
        let head = p.substring_char(0, npre);
        if str_eq(head, pre) && p.get_char(npre) == '/' {
            return Some(p.substring_char(npre + 1, np).to_owned());
        }
    }
    None
}

/// The route of a `pages`-relative path (see [`spec_route_of`]).
pub fn route_of(rel: &str) -> (r: String)
    ensures
        r@ == spec_route_of(rel@),
{
    if rel.unicode_len() == 0 {
        "#root".to_owned()
    } else {
        rel.to_owned()
    }
}

/// The URL a route is served under (see [`spec_route_to_url`]).
pub fn route_to_url(route: &str) -> (r: String)
    ensures
        r@ == spec_route_to_url(route@),
{
    let mut out = "/".to_owned();
    if str_eq(route, "#root") {
        return out;
    }
    let n = route.unicode_len();
    let mut i: usize = 0;
    while i < n
        invariant
            n == route@.len(),
            0 <= i <= n,
            out@ == "/"@ + spec_dollar_to_colon(route@).subrange(0, i as int),
        decreases n - i,
    {
        let c = route.get_char(i);
        if c == '$' {
            out.append(":");
            proof {
                reveal_strlit(":");
            }
        } else {
            out.append(route.substring_char(i, i + 1));
        }
        proof {
            assert(out@ =~= "/"@ + spec_dollar_to_colon(route@).subrange(0, i + 1));
        }
        i += 1;
    }
    proof {
        assert(spec_dollar_to_colon(route@).subrange(0, n as int) =~= spec_dollar_to_colon(
            route@,
        ));
    }
    out
}

} // verus!
