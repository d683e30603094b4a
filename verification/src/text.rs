//! Small verified text utilities shared across the coordination core.

use vstd::prelude::*;

verus! {

/// Character-for-character string equality.
pub fn str_eq(a: &str, b: &str) -> (r: bool)
    ensures
        r == (a@ == b@),
{
    let alen = a.unicode_len();
    let blen = b.unicode_len();
    if alen != blen {
        return false;
    }
    let mut i: usize = 0;
    while i < alen
        invariant
            i <= alen,
            alen == a@.len(),
            alen == b@.len(),
            forall|j: int| 0 <= j < i ==> a@[j] == b@[j],
        decreases alen - i,
    {
        if a.get_char(i) != b.get_char(i) {
            return false;
        }
        i += 1;
    }
    proof {
        assert(a@ =~= b@);
    }
    true
}

/// The reserved all-zero object identifier: forty `0` characters,
/// denoting "no commits / repository not found".
pub open spec fn zero_id() -> Seq<char> {
    Seq::new(40, |i: int| '0')
}

/// Whether a head hash is the all-zero sentinel.
pub fn is_zero_id(s: &str) -> (r: bool)
    ensures
        r == (s@ == zero_id()),
{
    let len = s.unicode_len();
    if len != 40 {
        return false;
    }
    let mut i: usize = 0;
    while i < 40
        invariant
            i <= 40,
            s@.len() == 40,
            forall|j: int| 0 <= j < i ==> s@[j] == '0',
        decreases 40 - i,
    {
        if s.get_char(i) != '0' {
            proof {
                assert(s@[i as int] != zero_id()[i as int]);
            }
            return false;
        }
        i += 1;
    }
    proof {
        assert(s@ =~= zero_id());
    }
    true
}

/// The all-zero sentinel as a string.
pub fn zero_id_string() -> (r: String)
    ensures
        r@ == zero_id(),
{
    let mut out = String::new();
    let mut i: usize = 0;
    while i < 40
        invariant
            i <= 40,
            out@.len() == i,
            forall|j: int| 0 <= j < i ==> out@[j] == '0',
        decreases 40 - i,
    {
        proof {
            reveal_strlit("0");
        }
        out.append("0");
        i += 1;
    }
    proof {
        assert(out@ =~= zero_id());
    }
    out
}

/// The path under which a repository name is stored locally.
pub open spec fn full_path_of(name: Seq<char>) -> Seq<char> {
    "/projects/"@ + name
}

/// Computes the local target path for a repository name.
pub fn get_repo_full_path(repo_name: &str) -> (r: String)
    ensures
        r@ == full_path_of(repo_name@),
{
    let prefix: String = "/projects/".to_owned();
    prefix.concat(repo_name)
}

/// The canonical URL locating a repository at a peer:
/// `p2p://<peer>/<repo-name>`.
pub open spec fn repo_url_of(peer: Seq<char>, name: Seq<char>) -> Seq<char> {
    "p2p://"@ + peer + "/"@ + name
}

/// Builds the canonical URL for a repository at a peer.
pub fn build_repo_url(peer: &str, repo_name: &str) -> (r: String)
    ensures
        r@ == repo_url_of(peer@, repo_name@),
{
    let url: String = "p2p://".to_owned();
    let url = url.concat(peer);
    let url = url.concat("/");
    let url = url.concat(repo_name);
    proof {
        assert(url@ =~= repo_url_of(peer@, repo_name@));
    }
    url
}

} // verus!
