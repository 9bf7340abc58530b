//! The content-aware cache store.
//!
//! A `CacheDir` is the staging area for generated artifacts before they
//! reach the bundler.  It owns one directory for the whole build
//! session: every write goes through [`CacheDir::insert`], which keeps
//! an in-memory record of what each relative path holds, decides
//! whether the file on disk must be (re)written, and registers the
//! entry in the session index.  The index, not a re-walk of the
//! directory, is the authority for what this session wrote.
//!
//! The store itself performs no disk writes; each `insert` reports the
//! [`WriteAction`] the caller must apply to the directory.

use vstd::prelude::*;
use vstd::pervasive::VecAdditionalExecFns;
use vstd::slice::slice_to_vec;
use crate::kv::find_key;
use crate::kv::lemma_get_at_index;
use crate::kv::lemma_get_none;
use crate::kv::lemma_get_push_all;
use crate::kv::lemma_get_update_all;
use crate::kv::spec_get;
use crate::sys::walk_dir;
use crate::paths::spec_strip_prefix;

verus! {

/// What an insert asks the caller to do to the directory.
#[derive(Debug, Clone, Copy, PartialEq, Eq, Structural)]
pub enum WriteAction {
    /// The path was new this session: create parent directories and
    /// write the bytes.
    Created,
    /// The path held different bytes: overwrite them.
    Rewritten,
    /// The path already holds exactly these bytes: write nothing.
    Unchanged,
}

/// A session-scoped, idempotent cache directory.
#[derive(Debug)]
pub struct CacheDir {
    dir_path: String,
    entries_in_scope: Vec<(String, String)>,
    contents: Vec<(String, Vec<u8>)>,
}

/// The views of an entry list.
pub open spec fn spec_pairs(s: Seq<(String, String)>) -> Seq<(Seq<char>, Seq<char>)> {
    Seq::new(s.len(), |i: int| (s[i].0@, s[i].1@))
}

/// Full relation between a store before and after one `insert` of
/// `buf` at `pathname`, returning `r`.
pub open spec fn spec_insert_post(
    pre: CacheDir,
    post: CacheDir,
    pathname: Seq<char>,
    buf: Seq<u8>,
    r: (String, WriteAction),
) -> bool {
    &&& post.spec_dir() == pre.spec_dir()
    &&& r.0@ == pre.spec_dir() + "/"@ + pathname
    &&& post.spec_content(pathname) == Some(buf)
    &&& forall|k: Seq<char>| k != pathname ==> post.spec_content(k) == pre.spec_content(k)
    &&& post.spec_entry(pathname) == Some(r.0@)
    &&& forall|k: Seq<char>| k != pathname ==> post.spec_entry(k) == pre.spec_entry(k)
    &&& r.1 == (match pre.spec_content(pathname) {
        Option::None => WriteAction::Created,
        Option::Some(b) => if b == buf {
            WriteAction::Unchanged
        } else {
            WriteAction::Rewritten
        },
    })
    &&& (match pre.spec_entry(pathname) {
        Option::None => post.spec_entry_views() == pre.spec_entry_views().push(
            (pathname, r.0@),
        ),
        Option::Some(_) => post.spec_entry_views().len() == pre.spec_entry_views().len()
            && exists|i: int|
            {
                &&& 0 <= i < pre.spec_entry_views().len()
                &&& pre.spec_entry_views()[i].0 == pathname
                &&& forall|j: int| 0 <= j < i ==> pre.spec_entry_views()[j].0 != pathname
                &&& post.spec_entry_views() == pre.spec_entry_views().update(i, (pathname, r.0@))
            },
    })
}

impl CacheDir {
    /// The directory this store owns.
    pub closed spec fn spec_dir(self) -> Seq<char> {
        self.dir_path@
    }

    /// The bytes this session has inserted at a relative path.
    pub closed spec fn spec_content(self, key: Seq<char>) -> Option<Seq<u8>> {
        spec_get(self.contents@, key)
    }

    /// The full path registered for a relative path.
    pub closed spec fn spec_entry(self, key: Seq<char>) -> Option<Seq<char>> {
        spec_get(self.entries_in_scope@, key)
    }

    /// The session index, in insertion order.
    pub closed spec fn spec_entry_views(self) -> Seq<(Seq<char>, Seq<char>)> {
        spec_pairs(self.entries_in_scope@)
    }

    /// Opens a store over the given directory with an empty session
    /// index.
    pub fn new(path: &str) -> (c: Self)
        ensures
            c.spec_dir() == path@,
            c.spec_entry_views() =~= Seq::<(Seq<char>, Seq<char>)>::empty(),
            forall|k: Seq<char>| c.spec_content(k) is None,
            forall|k: Seq<char>| c.spec_entry(k) is None,
    {
        let c = CacheDir {
            dir_path: path.to_owned(),
            entries_in_scope: Vec::new(),
            contents: Vec::new(),
        };
        proof {
            assert forall|k: Seq<char>| c.spec_content(k) is None by {
                lemma_get_none(c.contents@, k);
            }
            assert forall|k: Seq<char>| c.spec_entry(k) is None by {
                lemma_get_none(c.entries_in_scope@, k);
            }
        }
        c
    }

    /// Stages `buf` at the relative path `pathname`.  Returns the full
    /// path of the staged file together with the disk action owed:
    /// nothing when the same bytes are already staged there, an
    /// overwrite when different bytes are, a fresh write otherwise.
    #[verifier::rlimit(60)]
    pub fn insert(&mut self, pathname: &str, buf: &[u8]) -> (r: (String, WriteAction))
        ensures
            spec_insert_post(*old(self), *final(self), pathname@, buf@, r),
    {
        let mut abs = self.dir_path.clone();
        abs.append("/");
        abs.append(pathname);

        let action: WriteAction;
        match find_key(&self.contents, pathname) {
            Some(i) => {
                proof {
                    lemma_get_at_index(self.contents@, pathname@, i as int);
                }
                if bytes_eq(self.contents[i].1.as_slice(), buf) {
                    action = WriteAction::Unchanged;
                } else {
                    action = WriteAction::Rewritten;
                }
                let nv = slice_to_vec(buf);
                let ghost pre = self.contents@;
                self.contents.set(i, (pathname.to_owned(), nv));
                proof {
                    lemma_get_update_all(pre, i as int, self.contents@[i as int]);
                }
            },
            None => {
                action = WriteAction::Created;
                proof {
                    lemma_get_none(self.contents@, pathname@);
                }
                let ghost pre = self.contents@;
                self.contents.push((pathname.to_owned(), slice_to_vec(buf)));
                proof {
                    lemma_get_push_all(pre, self.contents@[pre.len() as int]);
                }
            },
        }

        match find_key(&self.entries_in_scope, pathname) {
            Some(i) => {
                proof {
                    lemma_get_at_index(self.entries_in_scope@, pathname@, i as int);
                }
                let ghost pre = self.entries_in_scope@;
                self.entries_in_scope.set(i, (pathname.to_owned(), abs.clone()));
                proof {
                    lemma_get_update_all(pre, i as int, self.entries_in_scope@[i as int]);
                    assert(spec_pairs(self.entries_in_scope@) =~= spec_pairs(pre).update(
                        i as int,
                        (pathname@, abs@),
                    ));
                    assert(spec_pairs(pre)[i as int].0 == pathname@);
                    assert(forall|j: int| 0 <= j < i ==> spec_pairs(pre)[j].0 != pathname@);
                    let ghost ii = i as int;
                    assert({
                        &&& 0 <= ii < spec_pairs(pre).len()
                        &&& spec_pairs(pre)[ii].0 == pathname@
                        &&& forall|j: int| 0 <= j < ii ==> spec_pairs(pre)[j].0 != pathname@
                        &&& spec_pairs(self.entries_in_scope@) == spec_pairs(pre).update(
                            ii,
                            (pathname@, abs@),
                        )
                    });
                }
            },
            None => {
                proof {
                    lemma_get_none(self.entries_in_scope@, pathname@);
                }
                let ghost pre = self.entries_in_scope@;
                self.entries_in_scope.push((pathname.to_owned(), abs.clone()));
                proof {
                    lemma_get_push_all(pre, self.entries_in_scope@[pre.len() as int]);
                    assert(spec_pairs(self.entries_in_scope@) =~= spec_pairs(pre).push(
                        (pathname@, abs@),
                    ));
                }
            },
        }

        proof {
            let pre0 = *old(self);
            let post0 = *self;
            let rr = (abs, action);
            assert(post0.spec_dir() == pre0.spec_dir());
            assert(rr.0@ == pre0.spec_dir() + "/"@ + pathname@);
            assert(post0.spec_content(pathname@) == Some(buf@));
            assert(forall|k: Seq<char>|
                k != pathname@ ==> post0.spec_content(k) == pre0.spec_content(k));
            assert(post0.spec_entry(pathname@) == Some(rr.0@));
            assert(forall|k: Seq<char>|
                k != pathname@ ==> post0.spec_entry(k) == pre0.spec_entry(k));
            assert(rr.1 == (match pre0.spec_content(pathname@) {
                Option::None => WriteAction::Created,
                Option::Some(b) => if b == buf@ {
                    WriteAction::Unchanged
                } else {
                    WriteAction::Rewritten
                },
            }));
            assert((match pre0.spec_entry(pathname@) {
                Option::None => post0.spec_entry_views() == pre0.spec_entry_views().push(
                    (pathname@, rr.0@),
                ),
                Option::Some(_) => post0.spec_entry_views().len() == pre0.spec_entry_views().len()
                    && exists|i: int|
                    {
                        &&& 0 <= i < pre0.spec_entry_views().len()
                        &&& pre0.spec_entry_views()[i].0 == pathname@
                        &&& forall|j: int| 0 <= j < i ==> pre0.spec_entry_views()[j].0 != pathname@
                        &&& post0.spec_entry_views() == pre0.spec_entry_views().update(
                            i,
                            (pathname@, rr.0@),
                        )
                    },
            }));
            assert(spec_insert_post(pre0, post0, pathname@, buf@, rr));
        }
        (abs, action)
    }

    /// The path of the cache directory.
    pub fn dir_path(&self) -> (r: String)
        ensures
            r@ == self.spec_dir(),
    {
        self.dir_path.clone()
    }

    /// The session index: every relative path inserted through this
    /// store, with the full path it was staged at.
    pub fn entries_in_scope(&self) -> (r: Vec<(String, String)>)
        ensures
            spec_pairs(r@) =~= self.spec_entry_views(),
    {
        let n = self.entries_in_scope.len();
        let mut r: Vec<(String, String)> = Vec::new();
        let mut i: usize = 0;
        while i < n
            invariant
                n == self.entries_in_scope@.len(),
                0 <= i <= n,
                r@.len() == i,
                forall|j: int|
                    0 <= j < i ==> r@[j].0@ == self.entries_in_scope@[j].0@ && r@[j].1@
                        == self.entries_in_scope@[j].1@,
            decreases n - i,
        {
            let k = self.entries_in_scope[i].0.clone();
            let v = self.entries_in_scope[i].1.clone();
            r.push((k, v));
            i += 1;
        }
        proof {
            assert(spec_pairs(r@) =~= self.spec_entry_views());
        }
        r
    }

    /// The bytes staged at a relative path this session, if any.
    pub fn content_of(&self, pathname: &str) -> (r: Option<Vec<u8>>)
        ensures
            match r {
                Option::Some(b) => self.spec_content(pathname@) == Some(b@),
                Option::None => self.spec_content(pathname@) is None,
            },
    {
        match find_key(&self.contents, pathname) {
            Some(i) => {
                proof {
                    lemma_get_at_index(self.contents@, pathname@, i as int);
                }
                Some(slice_to_vec(self.contents[i].1.as_slice()))
            },
            None => {
                proof {
                    lemma_get_none(self.contents@, pathname@);
                }
                None
            },
        }
    }

    /// Every plain file currently under the cache directory, by
    /// walking the disk.  What is found depends on the disk; each
    /// result lies under the directory, as long as the directory path
    /// does not end in a separator.
    pub fn all_entries(&self) -> (r: Vec<String>)
        ensures
            self.spec_dir().len() > 0 && self.spec_dir()[self.spec_dir().len() - 1] != '/'
                ==> forall|i: int|
                0 <= i < r@.len() ==> spec_strip_prefix(#[trigger] r@[i]@, self.spec_dir())
                    is Some,
    {
        let walked = walk_dir(self.dir_path.as_str());
        let mut r: Vec<String> = Vec::new();
        let n = walked.len();
        let mut i: usize = 0;
        while i < n
            invariant
                n == walked@.len(),
                0 <= i <= n,
                self.spec_dir().len() > 0 && self.spec_dir()[self.spec_dir().len() - 1] != '/'
                    ==> forall|j: int|
                    0 <= j < walked@.len() ==> spec_strip_prefix(
                        #[trigger] walked@[j].0@,
                        self.spec_dir(),
                    ) is Some,
                self.spec_dir().len() > 0 && self.spec_dir()[self.spec_dir().len() - 1] != '/'
                    ==> forall|j: int|
                    0 <= j < r@.len() ==> spec_strip_prefix(#[trigger] r@[j]@, self.spec_dir())
                        is Some,
            decreases n - i,
        {
            if walked[i].1 {
                let p = walked[i].0.clone();
                r.push(p);
            }
            i += 1;
        }
        r
    }
}

/// Byte-slice equality.
pub fn bytes_eq(a: &[u8], b: &[u8]) -> (r: bool)
    ensures
        r == (a@ == b@),
{
    let na = a.len();
    let nb = b.len();
    if na != nb {
        return false;
    }
    let mut i: usize = 0;
    while i < na
        invariant
            na == a@.len(),
            na == b@.len(),
            0 <= i <= na,
            forall|j: int| 0 <= j < i ==> a@[j] == b@[j],
        decreases na - i,
    {
        if a[i] != b[i] {
            return false;
        }
        i += 1;
    }
    proof {
        assert(a@ =~= b@);
    }
    true
}

/// Law: staging the same bytes twice at the same path changes nothing
/// the second time — the same full path comes back, the action owes no
/// disk write, and neither the staged contents nor the session index
/// move.
pub proof fn lemma_insert_idempotent(
    s0: CacheDir,
    s1: CacheDir,
    s2: CacheDir,
    pathname: Seq<char>,
    buf: Seq<u8>,
    r1: (String, WriteAction),
    r2: (String, WriteAction),
)
    requires
        spec_insert_post(s0, s1, pathname, buf, r1),
        spec_insert_post(s1, s2, pathname, buf, r2),
    ensures
        r2.0@ == r1.0@,
        r2.1 == WriteAction::Unchanged,
        forall|k: Seq<char>| s2.spec_content(k) == s1.spec_content(k),
        forall|k: Seq<char>| s2.spec_entry(k) == s1.spec_entry(k),
        s2.spec_entry_views() == s1.spec_entry_views(),
{
    assert(s1.spec_content(pathname) == Some(buf));
    assert(forall|k: Seq<char>| s2.spec_content(k) == s1.spec_content(k)) by {
        assert(s2.spec_content(pathname) == Some(buf));
    }
    let i = choose|i: int|
        {
            &&& 0 <= i < s1.spec_entry_views().len()
            &&& s1.spec_entry_views()[i].0 == pathname
            &&& forall|j: int| 0 <= j < i ==> s1.spec_entry_views()[j].0 != pathname
            &&& s2.spec_entry_views() == s1.spec_entry_views().update(i, (pathname, r2.0@))
        };
    assert(s1.spec_entry_views()[i] == (s1.entries_in_scope@[i].0@, s1.entries_in_scope@[i].1@));
    assert(s1.entries_in_scope@[i].0@ == pathname);
    assert forall|j: int| 0 <= j < i implies s1.entries_in_scope@[j].0@ != pathname by {
        assert(s1.spec_entry_views()[j] == (s1.entries_in_scope@[j].0@, s1.entries_in_scope@[j].1@));
    }
    lemma_get_at_index(s1.entries_in_scope@, pathname, i);
    assert(s1.spec_entry_views()[i].1 == r1.0@);
    assert(s2.spec_entry_views() =~= s1.spec_entry_views());
}

} // verus!
