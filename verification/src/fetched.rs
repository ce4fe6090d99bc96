//! The fetched-metadata map: package name to latest published version,
//! accumulated monotonically as fetches complete.

use vstd::prelude::*;

use crate::entries::{distinct_keys, find_key, has_pkey, lookup_val, pairs_view, replace_val};

verus! {

/// A name-to-version map with distinct keys, in insertion order.
pub struct VersionMap {
    entries: Vec<(String, String)>,
}

impl View for VersionMap {
    type V = Seq<(Seq<char>, Seq<char>)>;

    closed spec fn view(&self) -> Seq<(Seq<char>, Seq<char>)> {
        pairs_view(self.entries@)
    }
}

impl VersionMap {
    /// Keys are pairwise distinct.
    pub closed spec fn wf(self) -> bool {
        distinct_keys(self@)
    }

    /// An empty map.
    pub fn new() -> (m: VersionMap)
        ensures
            m@ == Seq::<(Seq<char>, Seq<char>)>::empty(),
            m.wf(),
    {
        let m = VersionMap { entries: Vec::new() };
        proof {
            assert(m@ =~= Seq::<(Seq<char>, Seq<char>)>::empty());
        }
        m
    }

    /// How many packages have a recorded version.
    pub fn len(&self) -> (n: usize)
        ensures
            n == self@.len(),
    {
        self.entries.len()
    }

    /// The recorded latest version of `name`, if its fetch has completed.
    pub fn get(&self, name: &String) -> (r: Option<&String>)
        requires
            self.wf(),
        ensures
            match r {
                Some(s) => lookup_val(self@, name@) == Some(s@),
                None => lookup_val(self@, name@) is None,
            },
    {
        match find_key(&self.entries, name) {
            Some(i) => {
                proof {
                    crate::entries::lemma_lookup_at(self@, name@, i as int);
                }
                Some(&self.entries[i].1)
            },
            None => {
                proof {
                    crate::entries::lemma_lookup_some_iff_has(self@, name@);
                    assert(!has_pkey(self@, name@)) by {
                        crate::entries::lemma_has_pkey_index(self.entries@, name@);
                    }
                }
                None
            },
        }
    }

    /// Record the latest version of `name`.  A name already present keeps its
    /// position and has its value overwritten (idempotent for the values a
    /// run produces, which never change once fetched); a new name is appended.
    pub fn insert(&mut self, name: String, version: String)
        requires
            old(self).wf(),
        ensures
            final(self).wf(),
            final(self)@ == if has_pkey(old(self)@, name@) {
                replace_val(old(self)@, name@, version@)
            } else {
                old(self)@.push((name@, version@))
            },
    {
        match find_key(&self.entries, &name) {
            Some(i) => {
                proof {
                    crate::entries::lemma_has_pkey_index(self.entries@, name@);
                }
                self.entries[i].1 = version;
                proof {
                    assert(old(self)@[i as int].0 == name@);
                    assert(forall|j: int|
                        0 <= j < old(self)@.len() && j != i ==> (#[trigger] old(self)@[j]).0
                            != name@);
                    assert(self@ =~= replace_val(old(self)@, name@, version@));
                }
            },
            None => {
                proof {
                    crate::entries::lemma_has_pkey_index(self.entries@, name@);
                }
                self.entries.push((name, version));
                proof {
                    assert(self@ =~= old(self)@.push((name@, version@)));
                    assert(distinct_keys(self@));
                }
            },
        }
    }
}

} // verus!
