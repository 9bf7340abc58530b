//! Association lists keyed by strings.
//!
//! The pipeline's maps (routes to files, routes to asset groups, routes
//! to manifest entries) are kept as vectors of pairs whose keys are
//! unique; this module holds the shared lookup helper.

use vstd::prelude::*;
use crate::paths::str_eq;

verus! {

/// All keys of `s` are distinct.
pub open spec fn spec_keys_unique<V>(s: Seq<(String, V)>) -> bool {
    forall|j: int, k: int| 0 <= j < k < s.len() ==> s[j].0@ != s[k].0@
}

/// `s` holds `key`.
pub open spec fn spec_has_key<V>(s: Seq<(String, V)>, key: Seq<char>) -> bool {
    exists|j: int| 0 <= j < s.len() && s[j].0@ == key
}

/// The value view stored under `key` (first match wins).
pub open spec fn spec_get<V: View>(s: Seq<(String, V)>, key: Seq<char>) -> Option<V::V>
    decreases s.len(),
{
    if s.len() == 0 {
        None
    } else if s[0].0@ == key {
        Some(s[0].1@)
    } else {
        spec_get(s.skip(1), key)
    }
}

/// A first match at position `i` decides the lookup.
pub proof fn lemma_get_at_index<V: View>(s: Seq<(String, V)>, key: Seq<char>, i: int)
    requires
        0 <= i < s.len(),
        s[i].0@ == key,
        forall|j: int| 0 <= j < i ==> s[j].0@ != key,
    ensures
        spec_get(s, key) == Some(s[i].1@),
    decreases i,
{
    if i > 0 {
        assert(forall|j: int| 0 <= j < i - 1 ==> s.skip(1)[j].0@ != key);
        assert(s.skip(1)[i - 1] == s[i]);
        lemma_get_at_index(s.skip(1), key, i - 1);
    }
}

/// A key held by no entry looks up to `None`.
pub proof fn lemma_get_none<V: View>(s: Seq<(String, V)>, key: Seq<char>)
    requires
        forall|j: int| 0 <= j < s.len() ==> s[j].0@ != key,
    ensures
        spec_get(s, key) is None,
    decreases s.len(),
{
    if s.len() > 0 {
        assert(forall|j: int| 0 <= j < s.len() - 1 ==> s.skip(1)[j].0@ != key);
        lemma_get_none(s.skip(1), key);
    }
}

/// Updating the entry at `i` in place (same key) leaves every other
/// key's lookup unchanged, and redirects that key to the new value
/// when `i` was the first match.
pub proof fn lemma_get_update<V: View>(s: Seq<(String, V)>, i: int, e: (String, V), key: Seq<char>)
    requires
        0 <= i < s.len(),
        e.0@ == s[i].0@,
    ensures
        key != e.0@ ==> spec_get(s.update(i, e), key) == spec_get(s, key),
        (forall|j: int| 0 <= j < i ==> s[j].0@ != e.0@) ==> spec_get(s.update(i, e), e.0@)
            == Some(e.1@),
    decreases i,
{
    if i == 0 {
        assert(s.update(0, e).skip(1) =~= s.skip(1));
    } else {
        assert(s.update(i, e).skip(1) =~= s.skip(1).update(i - 1, e));
        assert(s.skip(1)[i - 1] == s[i]);
        lemma_get_update(s.skip(1), i - 1, e, key);
        if forall|j: int| 0 <= j < i ==> s[j].0@ != e.0@ {
            assert(forall|j: int| 0 <= j < i - 1 ==> s.skip(1)[j].0@ != e.0@);
        }
    }
}

/// Appending an entry leaves every other key's lookup unchanged, and
/// gives the appended key its value when it was absent.
pub proof fn lemma_get_push<V: View>(s: Seq<(String, V)>, e: (String, V), key: Seq<char>)
    ensures
        key != e.0@ ==> spec_get(s.push(e), key) == spec_get(s, key),
        (forall|j: int| 0 <= j < s.len() ==> s[j].0@ != e.0@) ==> spec_get(s.push(e), e.0@)
            == Some(e.1@),
    decreases s.len(),
{
    if s.len() == 0 {
        assert(s.push(e)[0] == e);
        assert(s.push(e).skip(1) =~= Seq::<(String, V)>::empty());
        assert(spec_get(s.push(e).skip(1), key) is None);
        if key != e.0@ {
            assert(spec_get(s.push(e), key) is None);
            assert(spec_get(s, key) is None);
        }
    } else {
        assert(s.push(e)[0] == s[0]);
        assert(s.push(e).skip(1) =~= s.skip(1).push(e));
        lemma_get_push(s.skip(1), e, key);
        if key != e.0@ {
            if s[0].0@ == key {
                assert(spec_get(s.push(e), key) == Some(s[0].1@));
                assert(spec_get(s, key) == Some(s[0].1@));
            } else {
                assert(spec_get(s.push(e), key) == spec_get(s.skip(1).push(e), key));
                assert(spec_get(s, key) == spec_get(s.skip(1), key));
            }
        }
        if forall|j: int| 0 <= j < s.len() ==> s[j].0@ != e.0@ {
            assert(forall|j: int| 0 <= j < s.len() - 1 ==> s.skip(1)[j].0@ != e.0@);
            assert(s[0].0@ != e.0@);
            assert(spec_get(s.push(e), e.0@) == spec_get(s.skip(1).push(e), e.0@));
        }
    }
}

/// A successful lookup names a key that some entry holds.
pub proof fn lemma_get_some_key<V: View>(s: Seq<(String, V)>, key: Seq<char>)
    requires
        spec_get(s, key) is Some,
    ensures
        exists|j: int| 0 <= j < s.len() && (#[trigger] s[j]).0@ == key,
    decreases s.len(),
{
    if s.len() > 0 {
        if s[0].0@ == key {
            assert(0 <= 0 < s.len() && s[0].0@ == key);
        } else {
            lemma_get_some_key(s.skip(1), key);
            let j = choose|j: int| 0 <= j < s.skip(1).len() && (#[trigger] s.skip(1)[j]).0@ == key;
            assert(s.skip(1)[j] == s[j + 1]);
            assert(0 <= j + 1 < s.len() && s[j + 1].0@ == key);
        }
    }
}

/// A lookup succeeds exactly when some entry holds the key.
pub proof fn lemma_get_iff_has_key<V: View>(s: Seq<(String, V)>, key: Seq<char>)
    ensures
        spec_get(s, key) is Some <==> exists|j: int| 0 <= j < s.len() && (#[trigger] s[j]).0@
            == key,
    decreases s.len(),
{
    if s.len() > 0 {
        lemma_get_iff_has_key(s.skip(1), key);
        if s[0].0@ == key {
            assert(0 <= 0 < s.len() && s[0].0@ == key);
        } else {
            if spec_get(s, key) is Some {
                let j = choose|j: int|
                    0 <= j < s.skip(1).len() && (#[trigger] s.skip(1)[j]).0@ == key;
                assert(s.skip(1)[j] == s[j + 1]);
                assert(0 <= j + 1 < s.len() && s[j + 1].0@ == key);
            }
            if exists|j: int| 0 <= j < s.len() && (#[trigger] s[j]).0@ == key {
                let j = choose|j: int| 0 <= j < s.len() && (#[trigger] s[j]).0@ == key;
                assert(j != 0);
                assert(s.skip(1)[j - 1] == s[j]);
                assert(0 <= j - 1 < s.skip(1).len() && s.skip(1)[j - 1].0@ == key);
            }
        }
    }
}

/// A successful lookup's value is held by some entry with that key.
pub proof fn lemma_get_in_entries<V: View>(s: Seq<(String, V)>, key: Seq<char>)
    ensures
        spec_get(s, key) matches Some(v) ==> exists|j: int|
            0 <= j < s.len() && (#[trigger] s[j]).0@ == key && s[j].1@ == v,
    decreases s.len(),
{
    if s.len() > 0 {
        if s[0].0@ == key {
            assert(0 <= 0 < s.len() && s[0].0@ == key && s[0].1@ == spec_get(s, key).unwrap());
        } else {
            lemma_get_in_entries(s.skip(1), key);
            if spec_get(s, key) is Some {
                let j = choose|j: int|
                    0 <= j < s.skip(1).len() && (#[trigger] s.skip(1)[j]).0@ == key && s.skip(
                        1,
                    )[j].1@ == spec_get(s.skip(1), key).unwrap();
                assert(s.skip(1)[j] == s[j + 1]);
                assert(0 <= j + 1 < s.len() && s[j + 1].0@ == key && s[j + 1].1@ == spec_get(
                    s,
                    key,
                ).unwrap());
            }
        }
    }
}

/// Replacing the first match of a key in place, over all lookups.
pub proof fn lemma_get_update_all<V: View>(s: Seq<(String, V)>, i: int, e: (String, V))
    requires
        0 <= i < s.len(),
        e.0@ == s[i].0@,
        forall|j: int| 0 <= j < i ==> s[j].0@ != e.0@,
    ensures
        spec_get(s.update(i, e), e.0@) == Some(e.1@),
        forall|k: Seq<char>| k != e.0@ ==> spec_get(s.update(i, e), k) == spec_get(s, k),
{
    lemma_get_update(s, i, e, e.0@);
    assert forall|k: Seq<char>| k != e.0@ implies spec_get(s.update(i, e), k) == spec_get(
        s,
        k,
    ) by {
        lemma_get_update(s, i, e, k);
    }
}

/// Appending an absent key, over all lookups.
pub proof fn lemma_get_push_all<V: View>(s: Seq<(String, V)>, e: (String, V))
    requires
        forall|j: int| 0 <= j < s.len() ==> s[j].0@ != e.0@,
    ensures
        spec_get(s.push(e), e.0@) == Some(e.1@),
        forall|k: Seq<char>| k != e.0@ ==> spec_get(s.push(e), k) == spec_get(s, k),
{
    lemma_get_push(s, e, e.0@);
    assert forall|k: Seq<char>| k != e.0@ implies spec_get(s.push(e), k) == spec_get(s, k) by {
        lemma_get_push(s, e, k);
    }
}

/// Position of the first entry of `entries` whose key is `key`.
pub fn find_key<V>(entries: &Vec<(String, V)>, key: &str) -> (r: Option<usize>)
    ensures
        match r {
            Some(i) => i < entries@.len() && entries@[i as int].0@ == key@ && forall|j: int|
                0 <= j < i ==> entries@[j].0@ != key@,
            None => !spec_has_key(entries@, key@),
        },
{
    let n = entries.len();
    let mut i: usize = 0;
    while i < n
        invariant
            n == entries@.len(),
            0 <= i <= n,
            forall|j: int| 0 <= j < i ==> entries@[j].0@ != key@,
        decreases n - i,
    {
        if str_eq(entries[i].0.as_str(), key) {
            return Some(i);
        }
        i += 1;
    }
    None
}

} // verus!
