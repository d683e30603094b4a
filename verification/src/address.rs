//! Address resolution: peer/repo identifiers parsed from URL-like
//! addresses of the form `p2p://<peer-identity>/<repo-name>`, and
//! repository-name validation.

use vstd::prelude::*;

use core::str::FromStr;

use crate::errors::CoordError;

verus! {

/// A peer identity, held as the text it was written as.
///
/// Addresses carry the identity segment verbatim; whether the text is
/// a well-formed base58 multihash is checked only where an identity is
/// parsed on its own (`parse_peer_id`).
#[derive(Debug)]
pub struct PeerId {
    pub text: String,
}

impl View for PeerId {
    type V = Seq<char>;

    open spec fn view(&self) -> Seq<char> {
        self.text@
    }
}

impl PeerId {
    /// An identical copy of the identity.
    pub fn dup(&self) -> (r: PeerId)
        ensures
            r@ == self@,
    {
        PeerId { text: self.text.clone() }
    }
}

/// The `sep`-separated segments of a character sequence: an empty
/// sequence splits into one empty segment, and every separator starts
/// a new segment.
pub open spec fn split_on(s: Seq<char>, sep: char) -> Seq<Seq<char>>
    decreases s.len(),
{
    if s.len() == 0 {
        seq![Seq::<char>::empty()]
    } else if s[0] == sep {
        seq![Seq::<char>::empty()] + split_on(s.skip(1), sep)
    } else {
        let rest = split_on(s.skip(1), sep);
        seq![seq![s[0]] + rest[0]] + rest.skip(1)
    }
}

/// Splitting never yields an empty list of segments.
pub proof fn lemma_split_on_len(s: Seq<char>, sep: char)
    ensures
        split_on(s, sep).len() >= 1,
    decreases s.len(),
{
    if s.len() == 0 {
    } else if s[0] == sep {
    } else {
        lemma_split_on_len(s.skip(1), sep);
    }
}

/// A separator-free stretch `[a, b)` of `s` lies inside the first
/// segment of the split of `s.skip(a)`.
proof fn lemma_split_on_prefix(s: Seq<char>, sep: char, a: int, b: int)
    requires
        0 <= a <= b <= s.len(),
        forall|j: int| a <= j < b ==> s[j] != sep,
    ensures
        split_on(s.skip(a), sep) =~~= seq![s.subrange(a, b) + split_on(s.skip(b), sep)[0]]
            + split_on(s.skip(b), sep).skip(1),
    decreases b - a,
{
    lemma_split_on_len(s.skip(b), sep);
    if a == b {
        let x = split_on(s.skip(a), sep);
        assert(s.subrange(a, b) + x[0] =~= x[0]);
        assert(x =~~= seq![x[0]] + x.skip(1));
    } else {
        assert(s.skip(a).len() > 0);
        assert(s.skip(a)[0] == s[a]);
        assert(s.skip(a).skip(1) =~= s.skip(a + 1));
        lemma_split_on_prefix(s, sep, a + 1, b);
        let r = split_on(s.skip(a + 1), sep);
        let f = split_on(s.skip(b), sep)[0];
        let t = split_on(s.skip(b), sep).skip(1);
        assert(r =~~= seq![s.subrange(a + 1, b) + f] + t);
        assert(r[0] == s.subrange(a + 1, b) + f);
        assert(r.skip(1) =~~= t);
        assert(seq![s[a]] + (s.subrange(a + 1, b) + f) =~= s.subrange(a, b) + f);
        assert(split_on(s.skip(a), sep) =~~= seq![seq![s[a]] + r[0]] + r.skip(1));
    }
}

/// Splits `s` on the separator character, segment by segment.
pub fn split_char(s: &str, sep: char) -> (r: Vec<String>)
    ensures
        r.deep_view() == split_on(s@, sep),
{
    let len = s.unicode_len();
    let mut out: Vec<String> = Vec::new();
    let mut start: usize = 0;
    let mut i: usize = 0;
    proof {
        assert(s@.skip(0) =~= s@);
        assert(out.deep_view() + split_on(s@, sep) =~~= split_on(s@, sep));
    }
    while i < len
        invariant
            start <= i <= len,
            len == s@.len(),
            forall|j: int| start <= j < i ==> s@[j] != sep,
            split_on(s@, sep) =~~= out.deep_view() + split_on(s@.skip(start as int), sep),
        decreases len - i,
    {
        let c = s.get_char(i);
        if c == sep {
            let seg = s.substring_char(start, i).to_owned();
            let ghost pre = out.deep_view();
            proof {
                lemma_split_on_prefix(s@, sep, start as int, i as int);
                lemma_split_on_len(s@.skip(i as int + 1), sep);
                assert(s@.skip(i as int)[0] == sep);
                assert(s@.skip(i as int).skip(1) =~= s@.skip(i as int + 1));
                assert(split_on(s@.skip(i as int), sep) =~~= seq![Seq::<char>::empty()]
                    + split_on(s@.skip(i as int + 1), sep));
                let f = split_on(s@.skip(i as int), sep)[0];
                assert(f =~= Seq::<char>::empty());
                assert(s@.subrange(start as int, i as int) + f =~= s@.subrange(
                    start as int,
                    i as int,
                ));
                assert(split_on(s@.skip(i as int), sep).skip(1) =~~= split_on(
                    s@.skip(i as int + 1),
                    sep,
                ));
                assert(split_on(s@.skip(start as int), sep) =~~= seq![
                    s@.subrange(start as int, i as int),
                ] + split_on(s@.skip(i as int + 1), sep));
            }
            out.push(seg);
            proof {
                assert(out.deep_view() =~~= pre + seq![seg@]);
                assert((pre + seq![seg@]) + split_on(s@.skip(i as int + 1), sep) =~~= pre + (seq![
                    seg@,
                ] + split_on(s@.skip(i as int + 1), sep)));
                assert(split_on(s@, sep) =~~= out.deep_view() + split_on(
                    s@.skip(i as int + 1),
                    sep,
                ));
            }
            start = i + 1;
        }
        i += 1;
    }
    let seg = s.substring_char(start, len).to_owned();
    let ghost pre = out.deep_view();
    proof {
        lemma_split_on_prefix(s@, sep, start as int, len as int);
        assert(s@.skip(len as int) =~= Seq::<char>::empty());
        assert(split_on(s@.skip(len as int), sep) =~~= seq![Seq::<char>::empty()]);
        assert(s@.subrange(start as int, len as int) + Seq::<char>::empty() =~= s@.subrange(
            start as int,
            len as int,
        ));
        assert(split_on(s@.skip(start as int), sep) =~~= seq![
            s@.subrange(start as int, len as int),
        ]);
    }
    out.push(seg);
    proof {
        assert(out.deep_view() =~~= pre + seq![seg@]);
        assert(out.deep_view() =~~= split_on(s@, sep));
    }
    out
}

/// Whether a repository name carries the reserved `.git` suffix.
pub open spec fn has_repo_suffix(s: Seq<char>) -> bool {
    &&& s.len() >= 4
    &&& s[s.len() - 4] == '.'
    &&& s[s.len() - 3] == 'g'
    &&& s[s.len() - 2] == 'i'
    &&& s[s.len() - 1] == 't'
}

/// Checks that a repository name ends in the reserved `.git` suffix,
/// the cheap guard every repository operation applies before any
/// network call.
pub fn validate_repo_name(name: &str) -> (r: Result<(), CoordError>)
    ensures
        r is Ok <==> has_repo_suffix(name@),
        r is Err ==> r->Err_0 == CoordError::InvalidRepoName,
{
    let len = name.unicode_len();
    if len < 4 {
        return Err(CoordError::InvalidRepoName);
    }
    if name.get_char(len - 4) == '.' && name.get_char(len - 3) == 'g' && name.get_char(len - 2)
        == 'i' && name.get_char(len - 1) == 't' {
        Ok(())
    } else {
        Err(CoordError::InvalidRepoName)
    }
}

/// Parses a network address of the grammar
/// `scheme://<peer-identity>/<repo-name>`, split on `/`: the leading
/// `//` makes the identity segment index 2 and the repository name
/// segment index 3. Fewer than four segments is an invalid address;
/// segments past index 3 are discarded.
pub fn parse_mega_address(address: &str) -> (r: Result<(PeerId, String), CoordError>)
    ensures
        match r {
            Ok(parsed) => {
                &&& split_on(address@, '/').len() >= 4
                &&& parsed.0@ == split_on(address@, '/')[2]
                &&& parsed.1@ == split_on(address@, '/')[3]
            },
            Err(e) => {
                &&& e == CoordError::InvalidAddress
                &&& split_on(address@, '/').len() < 4
            },
        },
{
    let segments = split_char(address, '/');
    if segments.len() < 4 {
        return Err(CoordError::InvalidAddress);
    }
    let peer = PeerId { text: segments[2].clone() };
    let repo = segments[3].clone();
    Ok((peer, repo))
}

/// Whether `libp2p` accepts a string as a peer identity; a function of
/// the characters alone.
pub uninterp spec fn is_valid_peer_text(s: Seq<char>) -> bool;

/// Relies on `libp2p::PeerId::from_str`: parsing a base58 multihash
/// peer identity succeeds or fails depending on the string alone.
#[verifier::external_body]
fn peer_text_parses(s: &str) -> (r: bool)
    ensures
        r == is_valid_peer_text(s@),
{
    libp2p::PeerId::from_str(s).is_ok()
}

/// Parses an opaque peer-identity string; a missing or unparseable
/// identity yields `MalformedIdentity`, never a crash.
pub fn parse_peer_id(peer_id_str: Option<&str>) -> (r: Result<PeerId, CoordError>)
    ensures
        match r {
            Ok(p) => {
                &&& peer_id_str is Some
                &&& is_valid_peer_text(peer_id_str->0@)
                &&& p@ == peer_id_str->0@
            },
            Err(e) => {
                &&& e == CoordError::MalformedIdentity
                &&& (peer_id_str is None || !is_valid_peer_text(peer_id_str->0@))
            },
        },
{
    match peer_id_str {
        Some(text) => {
            if peer_text_parses(text) {
                Ok(PeerId { text: text.to_owned() })
            } else {
                Err(CoordError::MalformedIdentity)
            }
        },
        None => Err(CoordError::MalformedIdentity),
    }
}

} // verus!
