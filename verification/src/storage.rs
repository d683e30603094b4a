//! A model of the local repository storage collaborator: it resolves a
//! repository path to the hash of its current head, with the all-zero
//! sentinel standing for "absent or empty".

use vstd::prelude::*;

use crate::text::{is_zero_id, str_eq, zero_id, zero_id_string};

verus! {

/// The head hash a table of `(path, head)` entries gives a path: the
/// first matching entry, or the all-zero sentinel when none matches.
pub open spec fn lookup_head(entries: Seq<(Seq<char>, Seq<char>)>, path: Seq<char>) -> Seq<char>
    decreases entries.len(),
{
    if entries.len() == 0 {
        zero_id()
    } else if entries[0].0 == path {
        entries[0].1
    } else {
        lookup_head(entries.skip(1), path)
    }
}

/// Local repository storage: the paths of the repositories this node
/// hosts, each with the hash of its current head.
#[derive(Debug)]
pub struct LocalStorage {
    pub repos: Vec<(String, String)>,
}

impl LocalStorage {
    /// The table of entries, by view.
    pub open spec fn entries(&self) -> Seq<(Seq<char>, Seq<char>)> {
        self.repos.deep_view()
    }

    /// An empty storage: every lookup yields the sentinel.
    pub fn new() -> (r: LocalStorage)
        ensures
            r.entries() =~~= Seq::<(Seq<char>, Seq<char>)>::empty(),
    {
        LocalStorage { repos: Vec::new() }
    }

    /// Records the head hash for a repository path.
    pub fn set_head(&mut self, path: String, head: String)
        ensures
            final(self).entries() =~~= old(self).entries().push((path@, head@)),
    {
        self.repos.push((path, head));
    }

    /// Resolves a repository path to its current head hash; the
    /// all-zero sentinel when the repository is absent or empty.
    pub fn head_object_id(&self, path: &str) -> (r: String)
        ensures
            r@ == lookup_head(self.entries(), path@),
    {
        let mut i: usize = 0;
        proof {
            assert(self.entries().skip(0) =~~= self.entries());
        }
        while i < self.repos.len()
            invariant
                i <= self.repos.len(),
                self.repos.len() == self.entries().len(),
                lookup_head(self.entries(), path@) == lookup_head(
                    self.entries().skip(i as int),
                    path@,
                ),
            decreases self.repos.len() - i,
        {
            proof {
                assert(self.entries().skip(i as int)[0] == self.entries()[i as int]);
                assert(self.entries().skip(i as int).skip(1) =~~= self.entries().skip(i + 1));
            }
            if str_eq(self.repos[i].0.as_str(), path) {
                return self.repos[i].1.clone();
            }
            i += 1;
        }
        proof {
            assert(self.entries().skip(i as int) =~~= Seq::<(Seq<char>, Seq<char>)>::empty());
        }
        zero_id_string()
    }

    /// Whether the head for a path is the all-zero sentinel.
    pub fn head_is_sentinel(&self, path: &str) -> (r: bool)
        ensures
            r == (lookup_head(self.entries(), path@) == zero_id()),
    {
        let head = self.head_object_id(path);
        is_zero_id(head.as_str())
    }
}

} // verus!
