//! The bundler invocation, as data.
//!
//! The external bundling script runs inside the script engine; it is
//! loaded at most once per process and invoked with a serialized map
//! of entry names to source paths plus the output directory.  This
//! module holds the verified side of that exchange: the load-once
//! state, and the exact texts handed to the engine.  The engine calls
//! themselves happen outside the library.

use vstd::prelude::*;
use crate::json::spec_quote;
use crate::json::quote_str;

verus! {

/// Whether the bundling script has been loaded into the engine.
#[derive(Debug)]
pub struct BundleSciptLoadingState(bool);

impl BundleSciptLoadingState {
    /// The recorded state.
    pub closed spec fn spec_loaded(self) -> bool {
        self.0
    }

    /// A fresh, not-yet-loaded state.
    pub fn new() -> (s: Self)
        ensures
            !s.spec_loaded(),
    {
        BundleSciptLoadingState(false)
    }

    /// Records that the script is loaded.
    pub fn loaded(&mut self)
        ensures
            final(self).spec_loaded(),
    {
        self.0 = true;
    }

    /// Whether the script is loaded.
    pub fn is_loaded(&self) -> (r: bool)
        ensures
            r == self.spec_loaded(),
    {
        self.0
    }
}

/// What kind of output the bundler is asked for.
#[derive(Debug, PartialEq, Eq, Structural, Clone, Copy)]
pub enum BundlingType {
    Web,
    Library,
}

impl BundlingType {
    /// The name the bundling script knows this kind under.
    pub fn to_string(&self) -> (r: String)
        ensures
            *self == BundlingType::Web ==> r@ == "web"@,
            *self == BundlingType::Library ==> r@ == "library"@,
    {
        match self {
            BundlingType::Web => "web".to_owned(),
            BundlingType::Library => "library".to_owned(),
        }
    }
}

/// The serialized entry map handed to the bundling function: a JSON
/// object of entry names to source paths, in order.
pub open spec fn spec_targets_json_items(v: Seq<(Seq<char>, Seq<char>)>) -> Seq<char>
    decreases v.len(),
{
    if v.len() == 0 {
        Seq::empty()
    } else if v.len() == 1 {
        spec_quote(v[0].0) + ": "@ + spec_quote(v[0].1)
    } else {
        spec_quote(v[0].0) + ": "@ + spec_quote(v[0].1) + ", "@ + spec_targets_json_items(
            v.skip(1),
        )
    }
}

/// The whole serialized entry map.
pub open spec fn spec_targets_json(v: Seq<(Seq<char>, Seq<char>)>) -> Seq<char> {
    seq!['{'] + spec_targets_json_items(v) + seq!['}']
}

/// Joining distributes over splitting the last pair off.
proof fn lemma_targets_json_items_snoc(v: Seq<(Seq<char>, Seq<char>)>, x: (Seq<char>, Seq<char>))
    ensures
        spec_targets_json_items(v.push(x)) == if v.len() == 0 {
            spec_quote(x.0) + ": "@ + spec_quote(x.1)
        } else {
            spec_targets_json_items(v) + ", "@ + spec_quote(x.0) + ": "@ + spec_quote(x.1)
        },
    decreases v.len(),
{
    let w = v.push(x);
    if v.len() == 0 {
        assert(w.len() == 1);
        assert(w[0] == x);
    } else {
        assert(w[0] == v[0]);
        assert(w.skip(1) =~= v.skip(1).push(x));
        lemma_targets_json_items_snoc(v.skip(1), x);
        if v.len() == 1 {
            assert(v.skip(1).len() == 0);
            assert(spec_targets_json_items(w) =~= spec_targets_json_items(v) + ", "@ + spec_quote(
                x.0,
            ) + ": "@ + spec_quote(x.1));
        } else {
            assert(spec_targets_json_items(w) =~= spec_targets_json_items(v) + ", "@ + spec_quote(
                x.0,
            ) + ": "@ + spec_quote(x.1));
        }
    }
}

/// Serializes an entry map for the bundling function.
pub fn targets_json(v: &Vec<(String, String)>) -> (r: String)
    ensures
        r@ == spec_targets_json(Seq::new(v@.len(), |i: int| (v@[i].0@, v@[i].1@))),
{
    let ghost vv = Seq::new(v@.len(), |i: int| (v@[i].0@, v@[i].1@));
    let n = v.len();
    let mut out = "{".to_owned();
    let mut i: usize = 0;
    proof {
        reveal_strlit("{");
        assert(vv.subrange(0, 0) =~= Seq::<(Seq<char>, Seq<char>)>::empty());
        assert(out@ =~= seq!['{'] + spec_targets_json_items(vv.subrange(0, 0)));
    }
    while i < n
        invariant
            n == v@.len(),
            0 <= i <= n,
            vv == Seq::new(v@.len(), |k: int| (v@[k].0@, v@[k].1@)),
            out@ == seq!['{'] + spec_targets_json_items(vv.subrange(0, i as int)),
        decreases n - i,
    {
        let ghost pre = out@;
        if i > 0 {
            out.append(", ");
        }
        out.append(quote_str(v[i].0.as_str()).as_str());
        out.append(": ");
        out.append(quote_str(v[i].1.as_str()).as_str());
        proof {
            reveal_strlit(", ");
            reveal_strlit(": ");
            assert(vv.subrange(0, i + 1) =~= vv.subrange(0, i as int).push(vv[i as int]));
            lemma_targets_json_items_snoc(vv.subrange(0, i as int), vv[i as int]);
            assert(out@ =~= seq!['{'] + spec_targets_json_items(vv.subrange(0, i + 1)));
        }
        i += 1;
    }
    out.append("}");
    proof {
        reveal_strlit("}");
        assert(vv.subrange(0, n as int) =~= vv);
        assert(out@ =~= spec_targets_json(vv));
    }
    out
}

/// A prepared bundler invocation: the entry map and the output
/// directory.
#[derive(Debug)]
pub struct WebBundler {
    pub targets: Vec<(String, String)>,
    pub dist_path: String,
}

impl WebBundler {
    /// Pairs an entry map with its output directory.
    pub fn new(targets: Vec<(String, String)>, dist_path: &str) -> (b: Self)
        ensures
            b.targets == targets,
            b.dist_path@ == dist_path@,
    {
        WebBundler { targets, dist_path: dist_path.to_owned() }
    }

    /// The two arguments of the bundling function: the serialized
    /// entry map and the output directory.
    pub fn bundling_args(&self) -> (r: (String, String))
        ensures
            r.0@ == spec_targets_json(
                Seq::new(self.targets@.len(), |i: int| (self.targets@[i].0@, self.targets@[i].1@)),
            ),
            r.1@ == self.dist_path@,
    {
        (targets_json(&self.targets), self.dist_path.clone())
    }
}

} // verus!
