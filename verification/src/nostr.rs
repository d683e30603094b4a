//! Signed lifecycle events and subscription requests sent to the relay
//! peer: event construction, the exact wire encoding, and signing
//! through an ECDSA scheme whose internals are a collaborator.

use vstd::prelude::*;

use vstd::utf8::encode_utf8;

use sha1::Digest;

use crate::json::{
    append_hex, append_json_string, append_slice, append_u64_dec, dec_digits, hex_bytes,
    json_string,
};

verus! {

/// The SHA-1 digest of a byte sequence; a function of the input alone.
pub uninterp spec fn sha1_of(data: Seq<u8>) -> Seq<u8>;

/// Relies on `sha1::Sha1`: the SHA-1 digest is twenty bytes and depends
/// on the input bytes alone.
#[verifier::external_body]
pub(crate) fn sha1_digest(data: &[u8]) -> (r: Vec<u8>)
    ensures
        r@ == sha1_of(data@),
        r@.len() == 20,
{
    sha1::Sha1::digest(data).to_vec()
}

/// The compressed public key belonging to a secret key; a function of
/// the secret key bytes alone.
pub uninterp spec fn pubkey_of(sk: Seq<u8>) -> Seq<u8>;

/// Whether thirty-two bytes form a usable secret key; a function of the
/// bytes alone.
pub uninterp spec fn is_valid_secret(sk: Seq<u8>) -> bool;

/// The ECDSA signature of a digest under a secret key; deterministic
/// (RFC 6979 nonces), so a function of digest and key alone.
pub uninterp spec fn sig_of(digest: Seq<u8>, sk: Seq<u8>) -> Seq<u8>;

/// Whether a signature verifies for a digest under a public key; a
/// function of the three byte strings alone.
pub uninterp spec fn sig_verifies(digest: Seq<u8>, sig: Seq<u8>, pk: Seq<u8>) -> bool;

/// Relies on `secp256k1::generate_keypair`: a freshly generated secret
/// key is valid, thirty-two bytes long, and its compressed public key
/// is thirty-three bytes derived from it alone.
#[verifier::external_body]
pub(crate) fn generate_keypair_bytes() -> (r: (Vec<u8>, Vec<u8>))
    ensures
        r.0@.len() == 32,
        r.1@.len() == 33,
        is_valid_secret(r.0@),
        r.1@ == pubkey_of(r.0@),
{
    let (sk, pk) = secp256k1::generate_keypair(&mut secp256k1::rand::rng());
    (sk.to_secret_bytes().to_vec(), pk.serialize().to_vec())
}

/// Relies on `secp256k1::ecdsa::sign`: signing succeeds exactly on a
/// thirty-two-byte digest and a valid secret key; the sixty-four-byte
/// compact signature is deterministic and verifies under the key's
/// public key.
#[verifier::external_body]
pub(crate) fn sign_digest(digest: &[u8], sk: &[u8]) -> (r: Option<Vec<u8>>)
    ensures
        r is Some <==> (digest@.len() == 32 && sk@.len() == 32 && is_valid_secret(sk@)),
        r is Some ==> {
            &&& r->0@ == sig_of(digest@, sk@)
            &&& r->0@.len() == 64
            &&& sig_verifies(digest@, sig_of(digest@, sk@), pubkey_of(sk@))
        },
{
    let sk32: [u8; 32] = match sk.try_into() {
        Ok(a) => a,
        Err(_) => return None,
    };
    let seckey = match secp256k1::SecretKey::from_secret_bytes(sk32) {
        Ok(k) => k,
        Err(_) => return None,
    };
    let d32: [u8; 32] = match digest.try_into() {
        Ok(a) => a,
        Err(_) => return None,
    };
    let msg = secp256k1::Message::from_digest(d32);
    Some(secp256k1::ecdsa::sign(msg, &seckey).serialize_compact().to_vec())
}

/// Relies on `secp256k1::ecdsa::verify`: whether a compact signature
/// verifies for a digest under a compressed public key depends on the
/// three byte strings alone; malformed inputs never verify.
#[verifier::external_body]
pub(crate) fn verify_signature(digest: &[u8], sig: &[u8], pk: &[u8]) -> (r: bool)
    ensures
        r == sig_verifies(digest@, sig@, pk@),
{
    let d32: [u8; 32] = match digest.try_into() {
        Ok(a) => a,
        Err(_) => return false,
    };
    let msg = secp256k1::Message::from_digest(d32);
    let signature = match secp256k1::ecdsa::Signature::from_compact(sig) {
        Ok(s) => s,
        Err(_) => return false,
    };
    let key = match secp256k1::PublicKey::from_slice(pk) {
        Ok(k) => k,
        Err(_) => return false,
    };
    secp256k1::ecdsa::verify(&signature, msg, &key).is_ok()
}

/// The fields of a lifecycle event, by view.
pub struct GitEventView {
    pub peer_id: Seq<char>,
    pub repo_name: Seq<char>,
    pub repo_target: Seq<char>,
    pub repo_action: Seq<char>,
    pub repo_url: Seq<char>,
    pub repo_commit_id: Seq<char>,
    pub repo_issue_content: Seq<char>,
}

/// A lifecycle assertion about a repository: who publishes, which
/// repository, the target/action pair, the canonical URL, the current
/// head hash, and free-text content (issue bodies only).
#[derive(Debug)]
pub struct GitEvent {
    pub peer_id: String,
    pub repo_name: String,
    pub repo_target: String,
    pub repo_action: String,
    pub repo_url: String,
    pub repo_commit_id: String,
    pub repo_issue_content: String,
}

impl View for GitEvent {
    type V = GitEventView;

    open spec fn view(&self) -> GitEventView {
        GitEventView {
            peer_id: self.peer_id@,
            repo_name: self.repo_name@,
            repo_target: self.repo_target@,
            repo_action: self.repo_action@,
            repo_url: self.repo_url@,
            repo_commit_id: self.repo_commit_id@,
            repo_issue_content: self.repo_issue_content@,
        }
    }
}

/// The JSON encoding of an event's fields, the bytes that are signed.
pub open spec fn event_json(e: GitEventView) -> Seq<u8> {
    encode_utf8("{\"peer_id\":"@) + json_string(e.peer_id) + encode_utf8(",\"repo_name\":"@)
        + json_string(e.repo_name) + encode_utf8(",\"repo_target\":"@) + json_string(e.repo_target)
        + encode_utf8(",\"repo_action\":"@) + json_string(e.repo_action) + encode_utf8(
        ",\"repo_url\":"@,
    ) + json_string(e.repo_url) + encode_utf8(",\"repo_commit_id\":"@) + json_string(
        e.repo_commit_id,
    ) + encode_utf8(",\"repo_issue_content\":"@) + json_string(e.repo_issue_content) + encode_utf8(
        "}"@,
    )
}

/// The digest that is signed for an event: the SHA-1 of its JSON
/// encoding, padded with zero bytes to the scheme's digest width.
pub open spec fn event_digest(e: GitEventView) -> Seq<u8> {
    sha1_of(event_json(e)) + Seq::new(12, |i: int| 0u8)
}

impl GitEvent {
    /// Serializes the event fields to their JSON bytes.
    pub fn to_json(&self) -> (v: Vec<u8>)
        ensures
            v@ == event_json(self@),
    {
        let mut out: Vec<u8> = Vec::new();
        append_slice(&mut out, "{\"peer_id\":".as_bytes());
        append_json_string(&mut out, self.peer_id.as_str());
        append_slice(&mut out, ",\"repo_name\":".as_bytes());
        append_json_string(&mut out, self.repo_name.as_str());
        append_slice(&mut out, ",\"repo_target\":".as_bytes());
        append_json_string(&mut out, self.repo_target.as_str());
        append_slice(&mut out, ",\"repo_action\":".as_bytes());
        append_json_string(&mut out, self.repo_action.as_str());
        append_slice(&mut out, ",\"repo_url\":".as_bytes());
        append_json_string(&mut out, self.repo_url.as_str());
        append_slice(&mut out, ",\"repo_commit_id\":".as_bytes());
        append_json_string(&mut out, self.repo_commit_id.as_str());
        append_slice(&mut out, ",\"repo_issue_content\":".as_bytes());
        append_json_string(&mut out, self.repo_issue_content.as_str());
        append_slice(&mut out, "}".as_bytes());
        proof {
            assert(out@ =~= event_json(self@));
        }
        out
    }

    /// Computes the digest that is signed for this event.
    pub fn digest(&self) -> (r: Vec<u8>)
        ensures
            r@ == event_digest(self@),
            r@.len() == 32,
    {
        let encoded = self.to_json();
        let mut d = sha1_digest(encoded.as_slice());
        let mut i: usize = 0;
        while i < 12
            invariant
                i <= 12,
                d@.len() == 20 + i,
                d@.subrange(0, 20) == sha1_of(event_json(self@)),
                forall|j: int| 20 <= j < d@.len() ==> d@[j] == 0u8,
            decreases 12 - i,
        {
            d.push(0);
            proof {
                assert(d@.subrange(0, 20) =~= sha1_of(event_json(self@)));
            }
            i += 1;
        }
        proof {
            assert(d@ =~= event_digest(self@));
        }
        d
    }
}

/// The parts of a signed event, by view.
pub struct SignedGitEventView {
    pub event: GitEventView,
    pub sig: Seq<u8>,
    pub pubkey: Seq<u8>,
}

/// A lifecycle event together with its signature and the signer's
/// public key. Each event is signed with a freshly generated keypair,
/// so the signer key bears no fixed relation to the node identity.
#[derive(Debug)]
pub struct SignedGitEvent {
    pub event: GitEvent,
    pub sig: Vec<u8>,
    pub pubkey: Vec<u8>,
}

impl View for SignedGitEvent {
    type V = SignedGitEventView;

    open spec fn view(&self) -> SignedGitEventView {
        SignedGitEventView { event: self.event@, sig: self.sig@, pubkey: self.pubkey@ }
    }
}

/// Whether a signed event's signature verifies for its own digest under
/// its embedded public key.
pub open spec fn event_verifies(s: SignedGitEventView) -> bool {
    sig_verifies(event_digest(s.event), s.sig, s.pubkey)
}

/// Signs an event with a freshly generated keypair and embeds the
/// signature and public key beside it.
pub fn sign_git_event(event: GitEvent) -> (r: SignedGitEvent)
    ensures
        r.event@ == event@,
        r@.sig.len() == 64,
        r@.pubkey.len() == 33,
        event_verifies(r@),
{
    let (sk, pk) = generate_keypair_bytes();
    let digest = event.digest();
    let sig = sign_digest(digest.as_slice(), sk.as_slice()).unwrap();
    SignedGitEvent { event, sig, pubkey: pk }
}

/// Recomputes a signed event's digest and checks its signature against
/// the embedded public key.
pub fn verify_git_event(s: &SignedGitEvent) -> (r: bool)
    ensures
        r == event_verifies(s@),
{
    let digest = s.event.digest();
    verify_signature(digest.as_slice(), s.sig.as_slice(), s.pubkey.as_slice())
}

/// A subscription filter sent to the relay peer: the repository names
/// to match, under a locally generated subscription identifier.
#[derive(Debug)]
pub struct SubscriptionRequest {
    pub subscription_id: u64,
    pub filters: Vec<String>,
}

/// The parts of a subscription request, by view.
pub struct SubscriptionRequestView {
    pub subscription_id: int,
    pub filters: Seq<Seq<char>>,
}

impl View for SubscriptionRequest {
    type V = SubscriptionRequestView;

    open spec fn view(&self) -> SubscriptionRequestView {
        SubscriptionRequestView {
            subscription_id: self.subscription_id as int,
            filters: self.filters.deep_view(),
        }
    }
}

/// A message to the relay peer: either a signed event or a
/// subscription request.
#[derive(Debug)]
pub enum ClientMessage {
    Event(SignedGitEvent),
    Req(SubscriptionRequest),
}

/// The two relay message shapes, by view.
pub enum ClientMessageView {
    Event(SignedGitEventView),
    Req(SubscriptionRequestView),
}

impl View for ClientMessage {
    type V = ClientMessageView;

    open spec fn view(&self) -> ClientMessageView {
        match self {
            ClientMessage::Event(e) => ClientMessageView::Event(e@),
            ClientMessage::Req(s) => ClientMessageView::Req(s@),
        }
    }
}

/// The filter objects of a subscription after the first: each preceded
/// by a comma.
pub open spec fn json_more_filters(fs: Seq<Seq<char>>) -> Seq<u8>
    decreases fs.len(),
{
    if fs.len() == 0 {
        Seq::<u8>::empty()
    } else {
        seq![44u8] + json_filter(fs[0]) + json_more_filters(fs.skip(1))
    }
}

/// One filter object: `{"repo_name":…}`.
pub open spec fn json_filter(name: Seq<char>) -> Seq<u8> {
    encode_utf8("{\"repo_name\":"@) + json_string(name) + encode_utf8("}"@)
}

/// The contents of the JSON array of filter objects, without brackets.
pub open spec fn json_filters(fs: Seq<Seq<char>>) -> Seq<u8> {
    if fs.len() == 0 {
        Seq::<u8>::empty()
    } else {
        json_filter(fs[0]) + json_more_filters(fs.skip(1))
    }
}

/// Comma-prefixed filter objects distribute over concatenation.
proof fn lemma_json_more_filters_concat(a: Seq<Seq<char>>, b: Seq<Seq<char>>)
    ensures
        json_more_filters(a + b) == json_more_filters(a) + json_more_filters(b),
    decreases a.len(),
{
    if a.len() == 0 {
        assert(a + b =~= b);
        assert(json_more_filters(a) + json_more_filters(b) =~= json_more_filters(b));
    } else {
        assert((a + b)[0] == a[0]);
        assert((a + b).skip(1) =~~= a.skip(1) + b);
        lemma_json_more_filters_concat(a.skip(1), b);
        let h = seq![44u8] + json_filter(a[0]);
        assert(h + (json_more_filters(a.skip(1)) + json_more_filters(b)) =~= (h + json_more_filters(
            a.skip(1),
        )) + json_more_filters(b));
    }
}

/// The JSON encoding of a relay message: a signed event as
/// `{"event":…,"sig":…,"pubkey":…}`, a subscription request as
/// `{"subscription_id":…,"filters":[…]}`.
pub open spec fn client_message_json(m: ClientMessageView) -> Seq<u8> {
    match m {
        ClientMessageView::Event(s) => encode_utf8("{\"event\":"@) + event_json(s.event)
            + encode_utf8(",\"sig\":\""@) + hex_bytes(s.sig) + encode_utf8("\",\"pubkey\":\""@)
            + hex_bytes(s.pubkey) + encode_utf8("\"}"@),
        ClientMessageView::Req(s) => encode_utf8("{\"subscription_id\":"@) + dec_digits(
            s.subscription_id,
        ) + encode_utf8(",\"filters\":["@) + json_filters(s.filters) + encode_utf8("]}"@),
    }
}

impl ClientMessage {
    /// Serializes the relay message to its JSON bytes.
    pub fn as_json(&self) -> (v: Vec<u8>)
        ensures
            v@ == client_message_json(self@),
    {
        let mut out: Vec<u8> = Vec::new();
        match self {
            ClientMessage::Event(s) => {
                append_slice(&mut out, "{\"event\":".as_bytes());
                let encoded = s.event.to_json();
                append_slice(&mut out, encoded.as_slice());
                append_slice(&mut out, ",\"sig\":\"".as_bytes());
                append_hex(&mut out, s.sig.as_slice());
                append_slice(&mut out, "\",\"pubkey\":\"".as_bytes());
                append_hex(&mut out, s.pubkey.as_slice());
                append_slice(&mut out, "\"}".as_bytes());
                proof {
                    assert(out@ =~= client_message_json(self@));
                }
            },
            ClientMessage::Req(s) => {
                append_slice(&mut out, "{\"subscription_id\":".as_bytes());
                append_u64_dec(&mut out, s.subscription_id);
                append_slice(&mut out, ",\"filters\":[".as_bytes());
                let mut i: usize = 0;
                proof {
                    assert(s.filters.deep_view().subrange(0, 0) =~~= Seq::<Seq<char>>::empty());
                    assert(json_filters(s.filters.deep_view().subrange(0, 0)) =~= Seq::<
                        u8,
                    >::empty());
                    assert(out@ =~= out@ + json_filters(s.filters.deep_view().subrange(0, 0)));
                }
                let ghost base = out@;
                while i < s.filters.len()
                    invariant
                        i <= s.filters.deep_view().len(),
                        out@ == base + json_filters(s.filters.deep_view().subrange(0, i as int)),
                    decreases s.filters.deep_view().len() - i,
                {
                    let ghost pre = out@;
                    if i > 0 {
                        out.push(44);
                    }
                    append_slice(&mut out, "{\"repo_name\":".as_bytes());
                    append_json_string(&mut out, s.filters[i].as_str());
                    append_slice(&mut out, "}".as_bytes());
                    proof {
                        let dv = s.filters.deep_view();
                        let one = seq![dv[i as int]];
                        reveal_with_fuel(json_more_filters, 2);
                        assert(one.skip(1) =~~= Seq::<Seq<char>>::empty());
                        if i > 0 {
                            assert(out@ =~= pre + (seq![44u8] + json_filter(dv[i as int])));
                            assert(json_more_filters(one) =~= seq![44u8] + json_filter(
                                dv[i as int],
                            ));
                            assert(dv.subrange(0, i + 1) =~~= dv.subrange(0, i as int) + one);
                            assert(dv.subrange(0, i as int).skip(1) =~~= dv.subrange(1, i as int));
                            assert(dv.subrange(0, i + 1).skip(1) =~~= dv.subrange(1, i as int)
                                + one);
                            lemma_json_more_filters_concat(dv.subrange(1, i as int), one);
                            assert(dv.subrange(0, i + 1)[0] == dv[0]);
                            assert(json_filters(dv.subrange(0, i + 1)) =~= json_filter(dv[0])
                                + (json_more_filters(dv.subrange(1, i as int))
                            + json_more_filters(one)));
                            assert(json_filters(dv.subrange(0, i + 1)) =~= json_filters(
                                dv.subrange(0, i as int),
                            ) + json_more_filters(one));
                        } else {
                            assert(out@ =~= pre + json_filter(dv[0]));
                            assert(dv.subrange(0, 1) =~~= one);
                            assert(json_filters(dv.subrange(0, 1)) =~= json_filter(dv[0]));
                        }
                        assert(out@ =~= base + json_filters(dv.subrange(0, i + 1)));
                    }
                    i += 1;
                }
                append_slice(&mut out, "]}".as_bytes());
                proof {
                    let dv = s.filters.deep_view();
                    assert(dv.subrange(0, dv.len() as int) =~~= dv);
                    assert(out@ =~= client_message_json(self@));
                }
            },
        }
        out
    }
}

} // verus!
