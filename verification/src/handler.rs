//! The command handler: the coordination layer that ties the DHT
//! record directory, the pull/push transfer protocol, and the signed
//! event relay to one shared session state. Every operation validates
//! its input first, issues at most one outbound request, and records
//! the correlation identifier atomically with the send; a failed send
//! never leaves a correlation entry behind.

use vstd::prelude::*;

use std::collections::HashMap;
use std::time::{SystemTime, UNIX_EPOCH};

use crate::address::{has_repo_suffix, parse_mega_address, parse_peer_id, split_on, validate_repo_name, PeerId};
use crate::errors::CoordError;
use crate::nostr::{
    event_digest, sig_verifies, sign_git_event, ClientMessage, ClientMessageView, GitEvent,
    GitEventView, SignedGitEventView, SubscriptionRequest, SubscriptionRequestView,
};
use crate::record::{record_json, MegaRepoInfo, MegaRepoInfoView};
use crate::session::{MessageView, NetworkSession, OutboundMessage, Quorum};
use crate::storage::{lookup_head, LocalStorage};
use crate::text::{full_path_of, get_repo_full_path, repo_url_of, zero_id, build_repo_url};

verus! {

broadcast use vstd::std_specs::hash::group_hash_axioms;

/// Relies on `std::time::SystemTime::now`: the milliseconds since the
/// Unix epoch, at whatever moment the clock is read.
#[verifier::external_body]
fn unix_timestamp() -> (r: i64) {
    match SystemTime::now().duration_since(UNIX_EPOCH) {
        Ok(d) => d.as_millis() as i64,
        Err(_) => 0,
    }
}

/// A correlation table, by view: identifiers to repository names.
pub open spec fn table_view(m: HashMap<u64, String>) -> Map<u64, Seq<char>> {
    m@.map_values(|s: String| s@)
}

/// The shared per-node session data: the three correlation tables (one
/// per operation family, since identifiers of different subsystems must
/// not collide), the optional relay peer, a handle to local repository
/// storage, and the next subscription identifier.
pub struct ClientParas {
    pub rendezvous_point: Option<PeerId>,
    pub pending_git_upload_package: HashMap<u64, String>,
    pub pending_git_pull: HashMap<u64, String>,
    pub pending_repo_info_search_to_download_obj: HashMap<u64, String>,
    pub storage: LocalStorage,
    pub next_subscription_id: u64,
}

/// The coordination core of one node: the network session and the
/// shared session data, owned together so that every operation sees
/// both under a single serialization point.
pub struct CmdHandler {
    pub session: NetworkSession,
    pub client_paras: ClientParas,
}

impl CmdHandler {
    /// The transfer correlation table, by view.
    pub open spec fn upload_table(&self) -> Map<u64, Seq<char>> {
        table_view(self.client_paras.pending_git_upload_package)
    }

    /// The pull correlation table, by view.
    pub open spec fn pull_table(&self) -> Map<u64, Seq<char>> {
        table_view(self.client_paras.pending_git_pull)
    }

    /// The DHT-lookup-before-download correlation table, by view.
    pub open spec fn obj_table(&self) -> Map<u64, Seq<char>> {
        table_view(self.client_paras.pending_repo_info_search_to_download_obj)
    }

    /// The local head hash recorded for a repository name.
    pub open spec fn head_for(&self, name: Seq<char>) -> Seq<char> {
        lookup_head(self.client_paras.storage.entries(), full_path_of(name))
    }

    /// Every recorded correlation identifier was issued before the next
    /// one — fresh identifiers never collide with recorded entries —
    /// and each identifier is recorded in at most one of the three
    /// tables.
    pub open spec fn wf(&self) -> bool {
        &&& forall|k: u64|
            self.upload_table().dom().contains(k) ==> k < self.session.next_request_id
        &&& forall|k: u64| self.pull_table().dom().contains(k) ==> k < self.session.next_request_id
        &&& forall|k: u64| self.obj_table().dom().contains(k) ==> k < self.session.next_request_id
        &&& forall|k: u64|
            self.upload_table().dom().contains(k) ==> !self.pull_table().dom().contains(k)
        &&& forall|k: u64|
            self.upload_table().dom().contains(k) ==> !self.obj_table().dom().contains(k)
        &&& forall|k: u64|
            self.pull_table().dom().contains(k) ==> !self.obj_table().dom().contains(k)
    }

    /// A fresh handler: empty correlation tables, nothing sent.
    pub fn new(local_peer_id: PeerId, rendezvous_point: Option<PeerId>, storage: LocalStorage) -> (r:
        CmdHandler)
        ensures
            r.wf(),
            r.session.local_peer_id == local_peer_id,
            r.session.transport_ok,
            r.session.next_request_id == 0,
            r.session.sent_views() =~~= Seq::<MessageView>::empty(),
            r.client_paras.rendezvous_point == rendezvous_point,
            r.client_paras.storage == storage,
            r.upload_table() =~~= Map::<u64, Seq<char>>::empty(),
            r.pull_table() =~~= Map::<u64, Seq<char>>::empty(),
            r.obj_table() =~~= Map::<u64, Seq<char>>::empty(),
    {
        CmdHandler {
            session: NetworkSession::new(local_peer_id),
            client_paras: ClientParas {
                rendezvous_point,
                pending_git_upload_package: HashMap::new(),
                pending_git_pull: HashMap::new(),
                pending_repo_info_search_to_download_obj: HashMap::new(),
                storage,
                next_subscription_id: 0,
            },
        }
    }
}

/// Well-formedness survives any step that leaves the correlation
/// tables alone and never decreases the identifier counter.
proof fn lemma_wf_tables_fixed(pre: CmdHandler, post: CmdHandler)
    requires
        pre.wf(),
        post.session.next_request_id >= pre.session.next_request_id,
        post.client_paras.pending_git_upload_package == pre.client_paras.pending_git_upload_package,
        post.client_paras.pending_git_pull == pre.client_paras.pending_git_pull,
        post.client_paras.pending_repo_info_search_to_download_obj
            == pre.client_paras.pending_repo_info_search_to_download_obj,
    ensures
        post.wf(),
{
    assert forall|k: u64| post.upload_table().dom().contains(k) implies k
        < post.session.next_request_id by {
        assert(pre.upload_table().dom().contains(k));
    }
    assert forall|k: u64| post.pull_table().dom().contains(k) implies k
        < post.session.next_request_id by {
        assert(pre.pull_table().dom().contains(k));
    }
    assert forall|k: u64| post.obj_table().dom().contains(k) implies k
        < post.session.next_request_id by {
        assert(pre.obj_table().dom().contains(k));
    }
    assert(post.upload_table() == pre.upload_table());
    assert(post.pull_table() == pre.pull_table());
    assert(post.obj_table() == pre.obj_table());
}

/// The parts of the state no operation of this core changes behind the
/// caller's back: the node identity, transport health, storage, relay,
/// and subscription counter.
pub open spec fn frame_fixed(pre: CmdHandler, post: CmdHandler) -> bool {
    &&& post.session.local_peer_id == pre.session.local_peer_id
    &&& post.session.transport_ok == pre.session.transport_ok
    &&& post.client_paras.storage == pre.client_paras.storage
    &&& post.client_paras.rendezvous_point == pre.client_paras.rendezvous_point
}

/// No correlation table changed.
pub open spec fn tables_fixed(pre: CmdHandler, post: CmdHandler) -> bool {
    &&& post.client_paras.pending_git_upload_package == pre.client_paras.pending_git_upload_package
    &&& post.client_paras.pending_git_pull == pre.client_paras.pending_git_pull
    &&& post.client_paras.pending_repo_info_search_to_download_obj
        == pre.client_paras.pending_repo_info_search_to_download_obj
}

/// A successful `provide`: one DHT put of the record for `name`, keyed
/// by the exact name, at single-replica quorum; no table touched.
pub open spec fn provide_ok(pre: CmdHandler, post: CmdHandler, name: Seq<char>, id: u64, t: int) -> bool {
    &&& has_repo_suffix(name)
    &&& pre.head_for(name) != zero_id()
    &&& pre.session.transport_ok
    &&& id == pre.session.next_request_id
    &&& post.session.next_request_id == pre.session.next_request_id + 1
    &&& post.session.sent_views() == pre.session.sent_views().push(
        (MessageView::DhtPut {
            key: name,
            value: record_json(
                MegaRepoInfoView {
                    origin: pre.session.local_peer_id@,
                    name: name,
                    latest: pre.head_for(name),
                    forks: Seq::<Seq<char>>::empty(),
                    timestamp: t,
                },
            ),
            quorum: Quorum::One,
        }),
    )
    &&& post.client_paras == pre.client_paras
    &&& frame_fixed(pre, post)
}

/// The error a failing `provide` reports: a missing suffix before a
/// sentinel head before a transport failure.
pub open spec fn provide_err(pre: CmdHandler, name: Seq<char>) -> CoordError {
    if !has_repo_suffix(name) {
        CoordError::InvalidRepoName
    } else if pre.head_for(name) == zero_id() {
        CoordError::RepoNotFound
    } else {
        CoordError::DirectoryPutFailed
    }
}

impl CmdHandler {
    /// Advertises a repository in the DHT directory: validates the
    /// name, resolves the local head, and publishes a fresh record
    /// wholesale. A repository with no commits is never advertised, and
    /// nothing is sent on any error.
    pub fn provide(&mut self, repo_name: &str) -> (r: Result<u64, CoordError>)
        requires
            old(self).wf(),
            old(self).session.next_request_id < u64::MAX,
        ensures
            final(self).wf(),
            r is Ok <==> (has_repo_suffix(repo_name@) && old(self).head_for(repo_name@) != zero_id()
                && old(self).session.transport_ok),
            match r {
                Ok(id) => exists|t: int| provide_ok(*old(self), *final(self), repo_name@, id, t),
                Err(e) => *final(self) == *old(self) && e == provide_err(*old(self), repo_name@),
            },
    {
        if let Err(_) = validate_repo_name(repo_name) {
            return Err(CoordError::InvalidRepoName);
        }
        let path = get_repo_full_path(repo_name);
        let object_id = self.client_paras.storage.head_object_id(path.as_str());
        if crate::text::is_zero_id(object_id.as_str()) {
            return Err(CoordError::RepoNotFound);
        }
        let timestamp = unix_timestamp();
        let record = MegaRepoInfo {
            origin: self.session.local_peer_id.text.clone(),
            name: repo_name.to_owned(),
            latest: object_id,
            forks: Vec::new(),
            timestamp,
        };
        proof {
            assert(record@.forks =~~= Seq::<Seq<char>>::empty());
        }
        let value = record.to_json();
        let msg = OutboundMessage::DhtPut { key: repo_name.to_owned(), value, quorum: Quorum::One };
        match self.session.send(msg) {
            Ok(id) => {
                proof {
                    assert(provide_ok(*old(self), *self, repo_name@, id, timestamp as int));
                    lemma_wf_tables_fixed(*old(self), *self);
                }
                Ok(id)
            },
            Err(_) => Err(CoordError::DirectoryPutFailed),
        }
    }
}

/// A successful plain DHT lookup: one get, keyed as given, nothing
/// else changed.
pub open spec fn dht_get_ok(pre: CmdHandler, post: CmdHandler, key: Seq<char>, id: u64) -> bool {
    &&& pre.session.transport_ok
    &&& id == pre.session.next_request_id
    &&& post.session.next_request_id == pre.session.next_request_id + 1
    &&& post.session.sent_views() == pre.session.sent_views().push(
        (MessageView::DhtGet { key: key }),
    )
    &&& post.client_paras == pre.client_paras
    &&& frame_fixed(pre, post)
}

impl CmdHandler {
    /// Looks a repository name up in the DHT directory. The result is
    /// resolved by the external event loop; nothing is correlated here.
    pub fn search(&mut self, repo_name: &str) -> (r: Result<u64, CoordError>)
        requires
            old(self).wf(),
            old(self).session.next_request_id < u64::MAX,
        ensures
            final(self).wf(),
            r is Ok <==> old(self).session.transport_ok,
            match r {
                Ok(id) => dht_get_ok(*old(self), *final(self), repo_name@, id),
                Err(e) => *final(self) == *old(self) && e == CoordError::SendFailed,
            },
    {
        let msg = OutboundMessage::DhtGet { key: repo_name.to_owned() };
        match self.session.send(msg) {
            Ok(id) => {
                proof {
                    lemma_wf_tables_fixed(*old(self), *self);
                }
                Ok(id)
            },
            Err(e) => Err(e),
        }
    }

    /// Looks a raw key up in the DHT, same semantics as `search`.
    pub fn kad_get(&mut self, key: &str) -> (r: Result<u64, CoordError>)
        requires
            old(self).wf(),
            old(self).session.next_request_id < u64::MAX,
        ensures
            final(self).wf(),
            r is Ok <==> old(self).session.transport_ok,
            match r {
                Ok(id) => dht_get_ok(*old(self), *final(self), key@, id),
                Err(e) => *final(self) == *old(self) && e == CoordError::SendFailed,
            },
    {
        let msg = OutboundMessage::DhtGet { key: key.to_owned() };
        match self.session.send(msg) {
            Ok(id) => {
                proof {
                    lemma_wf_tables_fixed(*old(self), *self);
                }
                Ok(id)
            },
            Err(e) => Err(e),
        }
    }

    /// Stores a raw key/value pair in the DHT at single-replica quorum.
    pub fn kad_put(&mut self, key: &str, value: &str) -> (r: Result<u64, CoordError>)
        requires
            old(self).wf(),
            old(self).session.next_request_id < u64::MAX,
        ensures
            final(self).wf(),
            r is Ok <==> old(self).session.transport_ok,
            match r {
                Ok(id) => {
                    &&& id == old(self).session.next_request_id
                    &&& final(self).session.next_request_id == id + 1
                    &&& final(self).session.sent_views() == old(self).session.sent_views().push(
                        (MessageView::DhtPut {
                            key: key@,
                            value: vstd::utf8::encode_utf8(value@),
                            quorum: Quorum::One,
                        }),
                    )
                    &&& final(self).client_paras == old(self).client_paras
                    &&& frame_fixed(*old(self), *final(self))
                },
                Err(e) => *final(self) == *old(self) && e == CoordError::DirectoryPutFailed,
            },
    {
        let bytes = value.as_bytes_vec();
        let msg = OutboundMessage::DhtPut { key: key.to_owned(), value: bytes, quorum: Quorum::One };
        match self.session.send(msg) {
            Ok(id) => {
                proof {
                    lemma_wf_tables_fixed(*old(self), *self);
                }
                Ok(id)
            },
            Err(_) => Err(CoordError::DirectoryPutFailed),
        }
    }
}

/// A successful `clone`: exactly one upload-pack request to the
/// addressed peer with empty want/have sets, and exactly one fresh
/// entry in the transfer correlation table mapping the returned
/// identifier to the repository name.
pub open spec fn clone_ok(pre: CmdHandler, post: CmdHandler, addr: Seq<char>, id: u64) -> bool {
    let segs = split_on(addr, '/');
    let peer = segs[2];
    let name = segs[3];
    &&& segs.len() >= 4
    &&& pre.session.transport_ok
    &&& id == pre.session.next_request_id
    &&& post.session.next_request_id == pre.session.next_request_id + 1
    &&& post.session.sent_views() == pre.session.sent_views().push(
        (MessageView::UploadPackRequest {
            to: peer,
            wants: Seq::<Seq<char>>::empty(),
            haves: Seq::<Seq<char>>::empty(),
            path: full_path_of(name),
        }),
    )
    &&& !pre.upload_table().dom().contains(id)
    &&& post.upload_table() == pre.upload_table().insert(id, name)
    &&& post.client_paras.pending_git_pull == pre.client_paras.pending_git_pull
    &&& post.client_paras.pending_repo_info_search_to_download_obj
        == pre.client_paras.pending_repo_info_search_to_download_obj
    &&& post.client_paras.next_subscription_id == pre.client_paras.next_subscription_id
    &&& frame_fixed(pre, post)
}

impl CmdHandler {
    /// Requests a full-history fetch of an addressed repository: parses
    /// the address, sends one upload-pack request with empty want/have
    /// sets, and records the correlation atomically with the send.
    pub fn clone(&mut self, mega_address: &str) -> (r: Result<u64, CoordError>)
        requires
            old(self).wf(),
            old(self).session.next_request_id < u64::MAX,
        ensures
            final(self).wf(),
            r is Ok <==> (split_on(mega_address@, '/').len() >= 4
                && old(self).session.transport_ok),
            match r {
                Ok(id) => clone_ok(*old(self), *final(self), mega_address@, id),
                Err(e) => *final(self) == *old(self) && (if split_on(mega_address@, '/').len() < 4 {
                    e == CoordError::InvalidAddress
                } else {
                    e == CoordError::SendFailed
                }),
            },
    {
        let parsed = match parse_mega_address(mega_address) {
            Ok(p) => p,
            Err(e) => {
                return Err(e);
            },
        };
        let (peer_id, repo_name) = parsed;
        let path = get_repo_full_path(repo_name.as_str());
        let wants: Vec<String> = Vec::new();
        let haves: Vec<String> = Vec::new();
        proof {
            assert(wants.deep_view() =~~= Seq::<Seq<char>>::empty());
            assert(haves.deep_view() =~~= Seq::<Seq<char>>::empty());
        }
        let msg = OutboundMessage::UploadPackRequest { to: peer_id, wants, haves, path };
        let request_file_id = match self.session.send(msg) {
            Ok(id) => id,
            Err(e) => {
                return Err(e);
            },
        };
        let ghost pre_table = self.upload_table();
        self.client_paras.pending_git_upload_package.insert(request_file_id, repo_name);
        proof {
            assert(self.upload_table() =~~= pre_table.insert(request_file_id, repo_name@));
            assert forall|k: u64| self.upload_table().dom().contains(k) implies k
                < self.session.next_request_id by {
                if k != request_file_id {
                    assert(old(self).upload_table().dom().contains(k));
                }
            }
            assert forall|k: u64| self.pull_table().dom().contains(k) implies k
                < self.session.next_request_id by {
                assert(old(self).pull_table().dom().contains(k));
            }
            assert forall|k: u64| self.obj_table().dom().contains(k) implies k
                < self.session.next_request_id by {
                assert(old(self).obj_table().dom().contains(k));
            }
            assert forall|k: u64| self.upload_table().dom().contains(k) implies !self.pull_table().dom().contains(
                k,
            ) && !self.obj_table().dom().contains(k) by {
                if k != request_file_id {
                    assert(old(self).upload_table().dom().contains(k));
                } else {
                    if old(self).pull_table().dom().contains(k) {
                        assert(k < old(self).session.next_request_id);
                    }
                    if old(self).obj_table().dom().contains(k) {
                        assert(k < old(self).session.next_request_id);
                    }
                }
                assert(self.pull_table() == old(self).pull_table());
                assert(self.obj_table() == old(self).obj_table());
            }
            assert forall|k: u64| self.pull_table().dom().contains(k) implies !self.obj_table().dom().contains(
                k,
            ) by {
                assert(old(self).pull_table().dom().contains(k));
            }
        }
        Ok(request_file_id)
    }
}

/// A successful `pull`: one info-refs request to the addressed peer
/// with no ref hints, and one fresh entry in the pull correlation
/// table; sent only when a local base to diff against exists.
pub open spec fn pull_ok(pre: CmdHandler, post: CmdHandler, addr: Seq<char>, id: u64) -> bool {
    let segs = split_on(addr, '/');
    let peer = segs[2];
    let name = segs[3];
    &&& segs.len() >= 4
    &&& pre.head_for(name) != zero_id()
    &&& pre.session.transport_ok
    &&& id == pre.session.next_request_id
    &&& post.session.next_request_id == pre.session.next_request_id + 1
    &&& post.session.sent_views() == pre.session.sent_views().push(
        (MessageView::InfoRefsRequest {
            to: peer,
            path: full_path_of(name),
            ref_hints: Seq::<Seq<char>>::empty(),
        }),
    )
    &&& !pre.pull_table().dom().contains(id)
    &&& post.pull_table() == pre.pull_table().insert(id, name)
    &&& post.client_paras.pending_git_upload_package == pre.client_paras.pending_git_upload_package
    &&& post.client_paras.pending_repo_info_search_to_download_obj
        == pre.client_paras.pending_repo_info_search_to_download_obj
    &&& post.client_paras.next_subscription_id == pre.client_paras.next_subscription_id
    &&& frame_fixed(pre, post)
}

/// The error a failing `pull` reports.
pub open spec fn pull_err(pre: CmdHandler, addr: Seq<char>) -> CoordError {
    if split_on(addr, '/').len() < 4 {
        CoordError::InvalidAddress
    } else if pre.head_for(split_on(addr, '/')[3]) == zero_id() {
        CoordError::LocalRepoNotFound
    } else {
        CoordError::SendFailed
    }
}

impl CmdHandler {
    /// Requests the refs of an addressed repository to prepare an
    /// incremental fetch. A missing local base aborts before any
    /// network call: an info-refs exchange is meaningless without
    /// something to diff against.
    pub fn pull(&mut self, mega_address: &str) -> (r: Result<u64, CoordError>)
        requires
            old(self).wf(),
            old(self).session.next_request_id < u64::MAX,
        ensures
            final(self).wf(),
            r is Ok <==> (split_on(mega_address@, '/').len() >= 4 && old(self).head_for(
                split_on(mega_address@, '/')[3],
            ) != zero_id() && old(self).session.transport_ok),
            match r {
                Ok(id) => pull_ok(*old(self), *final(self), mega_address@, id),
                Err(e) => *final(self) == *old(self) && e == pull_err(*old(self), mega_address@),
            },
    {
        let parsed = match parse_mega_address(mega_address) {
            Ok(p) => p,
            Err(e) => {
                return Err(e);
            },
        };
        let (peer_id, repo_name) = parsed;
        let path = get_repo_full_path(repo_name.as_str());
        if self.client_paras.storage.head_is_sentinel(path.as_str()) {
            return Err(CoordError::LocalRepoNotFound);
        }
        let ref_hints: Vec<String> = Vec::new();
        proof {
            assert(ref_hints.deep_view() =~~= Seq::<Seq<char>>::empty());
        }
        let msg = OutboundMessage::InfoRefsRequest { to: peer_id, path, ref_hints };
        let request_id = match self.session.send(msg) {
            Ok(id) => id,
            Err(e) => {
                return Err(e);
            },
        };
        let ghost pre_table = self.pull_table();
        self.client_paras.pending_git_pull.insert(request_id, repo_name);
        proof {
            assert(self.pull_table() =~~= pre_table.insert(request_id, repo_name@));
            assert forall|k: u64| self.pull_table().dom().contains(k) implies k
                < self.session.next_request_id by {
                if k != request_id {
                    assert(old(self).pull_table().dom().contains(k));
                }
            }
            assert forall|k: u64| self.upload_table().dom().contains(k) implies k
                < self.session.next_request_id by {
                assert(old(self).upload_table().dom().contains(k));
            }
            assert forall|k: u64| self.obj_table().dom().contains(k) implies k
                < self.session.next_request_id by {
                assert(old(self).obj_table().dom().contains(k));
            }
            assert forall|k: u64| self.upload_table().dom().contains(k) implies !self.pull_table().dom().contains(
                k,
            ) && !self.obj_table().dom().contains(k) by {
                assert(old(self).upload_table().dom().contains(k));
                assert(k < old(self).session.next_request_id);
                assert(self.upload_table() == old(self).upload_table());
                assert(self.obj_table() == old(self).obj_table());
            }
            assert forall|k: u64| self.pull_table().dom().contains(k) implies !self.obj_table().dom().contains(
                k,
            ) by {
                if k != request_id {
                    assert(old(self).pull_table().dom().contains(k));
                } else {
                    if old(self).obj_table().dom().contains(k) {
                        assert(k < old(self).session.next_request_id);
                    }
                }
                assert(self.obj_table() == old(self).obj_table());
            }
        }
        Ok(request_id)
    }
}

/// A successful clone-by-record or pull-by-record: one DHT lookup for
/// the repository name, correlated in the DHT-lookup table so the
/// transfer can start when the record arrives.
pub open spec fn obj_lookup_ok(pre: CmdHandler, post: CmdHandler, name: Seq<char>, id: u64) -> bool {
    &&& has_repo_suffix(name)
    &&& pre.session.transport_ok
    &&& id == pre.session.next_request_id
    &&& post.session.next_request_id == pre.session.next_request_id + 1
    &&& post.session.sent_views() == pre.session.sent_views().push(
        (MessageView::DhtGet { key: name }),
    )
    &&& !pre.obj_table().dom().contains(id)
    &&& post.obj_table() == pre.obj_table().insert(id, name)
    &&& post.client_paras.pending_git_upload_package == pre.client_paras.pending_git_upload_package
    &&& post.client_paras.pending_git_pull == pre.client_paras.pending_git_pull
    &&& post.client_paras.next_subscription_id == pre.client_paras.next_subscription_id
    &&& frame_fixed(pre, post)
}

impl CmdHandler {
    /// Starts a clone through the DHT directory: validates the name,
    /// issues the record lookup, and correlates the query identifier;
    /// the object transfer itself starts when the lookup resolves.
    pub fn clone_obj(&mut self, repo_name: &str) -> (r: Result<u64, CoordError>)
        requires
            old(self).wf(),
            old(self).session.next_request_id < u64::MAX,
        ensures
            final(self).wf(),
            r is Ok <==> (has_repo_suffix(repo_name@) && old(self).session.transport_ok),
            match r {
                Ok(id) => obj_lookup_ok(*old(self), *final(self), repo_name@, id),
                Err(e) => *final(self) == *old(self) && (if !has_repo_suffix(repo_name@) {
                    e == CoordError::InvalidRepoName
                } else {
                    e == CoordError::SendFailed
                }),
            },
    {
        if let Err(_) = validate_repo_name(repo_name) {
            return Err(CoordError::InvalidRepoName);
        }
        let msg = OutboundMessage::DhtGet { key: repo_name.to_owned() };
        let kad_query_id = match self.session.send(msg) {
            Ok(id) => id,
            Err(e) => {
                return Err(e);
            },
        };
        let ghost pre_table = self.obj_table();
        self.client_paras.pending_repo_info_search_to_download_obj.insert(
            kad_query_id,
            repo_name.to_owned(),
        );
        proof {
            assert(self.obj_table() =~~= pre_table.insert(kad_query_id, repo_name@));
            assert forall|k: u64| self.obj_table().dom().contains(k) implies k
                < self.session.next_request_id by {
                if k != kad_query_id {
                    assert(old(self).obj_table().dom().contains(k));
                }
            }
            assert forall|k: u64| self.upload_table().dom().contains(k) implies k
                < self.session.next_request_id by {
                assert(old(self).upload_table().dom().contains(k));
            }
            assert forall|k: u64| self.pull_table().dom().contains(k) implies k
                < self.session.next_request_id by {
                assert(old(self).pull_table().dom().contains(k));
            }
            assert forall|k: u64| self.upload_table().dom().contains(k) implies !self.pull_table().dom().contains(
                k,
            ) && !self.obj_table().dom().contains(k) by {
                assert(old(self).upload_table().dom().contains(k));
                assert(k < old(self).session.next_request_id);
                assert(self.upload_table() == old(self).upload_table());
                assert(self.pull_table() == old(self).pull_table());
            }
            assert forall|k: u64| self.pull_table().dom().contains(k) implies !self.obj_table().dom().contains(
                k,
            ) by {
                assert(old(self).pull_table().dom().contains(k));
                assert(k < old(self).session.next_request_id);
            }
        }
        Ok(kad_query_id)
    }

    /// Starts a pull through the DHT directory, with the same contract
    /// as `clone_obj`: lookup issued and correlated.
    pub fn pull_obj(&mut self, repo_name: &str) -> (r: Result<u64, CoordError>)
        requires
            old(self).wf(),
            old(self).session.next_request_id < u64::MAX,
        ensures
            final(self).wf(),
            r is Ok <==> (has_repo_suffix(repo_name@) && old(self).session.transport_ok),
            match r {
                Ok(id) => obj_lookup_ok(*old(self), *final(self), repo_name@, id),
                Err(e) => *final(self) == *old(self) && (if !has_repo_suffix(repo_name@) {
                    e == CoordError::InvalidRepoName
                } else {
                    e == CoordError::SendFailed
                }),
            },
    {
        if let Err(_) = validate_repo_name(repo_name) {
            return Err(CoordError::InvalidRepoName);
        }
        let msg = OutboundMessage::DhtGet { key: repo_name.to_owned() };
        let kad_query_id = match self.session.send(msg) {
            Ok(id) => id,
            Err(e) => {
                return Err(e);
            },
        };
        let ghost pre_table = self.obj_table();
        self.client_paras.pending_repo_info_search_to_download_obj.insert(
            kad_query_id,
            repo_name.to_owned(),
        );
        proof {
            assert(self.obj_table() =~~= pre_table.insert(kad_query_id, repo_name@));
            assert forall|k: u64| self.obj_table().dom().contains(k) implies k
                < self.session.next_request_id by {
                if k != kad_query_id {
                    assert(old(self).obj_table().dom().contains(k));
                }
            }
            assert forall|k: u64| self.upload_table().dom().contains(k) implies k
                < self.session.next_request_id by {
                assert(old(self).upload_table().dom().contains(k));
            }
            assert forall|k: u64| self.pull_table().dom().contains(k) implies k
                < self.session.next_request_id by {
                assert(old(self).pull_table().dom().contains(k));
            }
            assert forall|k: u64| self.upload_table().dom().contains(k) implies !self.pull_table().dom().contains(
                k,
            ) && !self.obj_table().dom().contains(k) by {
                assert(old(self).upload_table().dom().contains(k));
                assert(k < old(self).session.next_request_id);
                assert(self.upload_table() == old(self).upload_table());
                assert(self.pull_table() == old(self).pull_table());
            }
            assert forall|k: u64| self.pull_table().dom().contains(k) implies !self.obj_table().dom().contains(
                k,
            ) by {
                assert(old(self).pull_table().dom().contains(k));
                assert(k < old(self).session.next_request_id);
            }
        }
        Ok(kad_query_id)
    }
}

/// A successful `subscribe`: one subscription request to the relay
/// peer, carrying the repository-name filter under a fresh
/// subscription identifier; no correlation table touched.
pub open spec fn subscribe_ok(pre: CmdHandler, post: CmdHandler, name: Seq<char>, id: u64) -> bool {
    &&& pre.client_paras.rendezvous_point is Some
    &&& pre.session.transport_ok
    &&& id == pre.session.next_request_id
    &&& post.session.next_request_id == pre.session.next_request_id + 1
    &&& post.session.sent_views() == pre.session.sent_views().push(
        (MessageView::RelayEnvelope {
            to: pre.client_paras.rendezvous_point->0@,
            message: ClientMessageView::Req(
                SubscriptionRequestView {
                    subscription_id: pre.client_paras.next_subscription_id as int,
                    filters: seq![name],
                },
            ),
        }),
    )
    &&& post.client_paras.next_subscription_id == pre.client_paras.next_subscription_id + 1
    &&& tables_fixed(pre, post)
    &&& post.session.local_peer_id == pre.session.local_peer_id
    &&& post.session.transport_ok == pre.session.transport_ok
    &&& post.client_paras.storage == pre.client_paras.storage
    &&& post.client_paras.rendezvous_point == pre.client_paras.rendezvous_point
}

impl CmdHandler {
    /// Subscribes to lifecycle events for a repository name: builds the
    /// name filter, generates a fresh subscription identifier, and
    /// sends the request once to the relay peer. Without a configured
    /// relay the operation fails recoverably.
    pub fn subscribe(&mut self, repo_name: &str) -> (r: Result<u64, CoordError>)
        requires
            old(self).wf(),
            old(self).session.next_request_id < u64::MAX,
            old(self).client_paras.next_subscription_id < u64::MAX,
        ensures
            final(self).wf(),
            r is Ok <==> (old(self).client_paras.rendezvous_point is Some
                && old(self).session.transport_ok),
            match r {
                Ok(id) => subscribe_ok(*old(self), *final(self), repo_name@, id),
                Err(e) => *final(self) == *old(self) && (if old(
                    self,
                ).client_paras.rendezvous_point is None {
                    e == CoordError::RelayNotConfigured
                } else {
                    e == CoordError::SendFailed
                }),
            },
    {
        let relay_peer_id = match &self.client_paras.rendezvous_point {
            Some(p) => p.dup(),
            None => {
                return Err(CoordError::RelayNotConfigured);
            },
        };
        let mut filters: Vec<String> = Vec::new();
        filters.push(repo_name.to_owned());
        proof {
            assert(filters.deep_view() =~~= seq![repo_name@]);
        }
        let client_req = ClientMessage::Req(
            SubscriptionRequest {
                subscription_id: self.client_paras.next_subscription_id,
                filters,
            },
        );
        let msg = OutboundMessage::RelayEnvelope { to: relay_peer_id, message: client_req };
        match self.session.send(msg) {
            Ok(id) => {
                self.client_paras.next_subscription_id = self.client_paras.next_subscription_id
                    + 1;
                proof {
                    lemma_wf_tables_fixed(*old(self), *self);
                }
                Ok(id)
            },
            Err(e) => Err(e),
        }
    }
}

/// A successful event publication: exactly one envelope to the relay
/// peer whose event carries the node identity, the repository name and
/// its local head, the canonical URL, and the given target/action pair
/// — and whose signature verifies against the embedded public key.
pub open spec fn event_ok(
    pre: CmdHandler,
    post: CmdHandler,
    name: Seq<char>,
    target: Seq<char>,
    action: Seq<char>,
    content: Seq<char>,
    id: u64,
) -> bool {
    let ev = GitEventView {
        peer_id: pre.session.local_peer_id@,
        repo_name: name,
        repo_target: target,
        repo_action: action,
        repo_url: repo_url_of(pre.session.local_peer_id@, name),
        repo_commit_id: pre.head_for(name),
        repo_issue_content: content,
    };
    &&& pre.client_paras.rendezvous_point is Some
    &&& pre.session.transport_ok
    &&& id == pre.session.next_request_id
    &&& post.session.next_request_id == pre.session.next_request_id + 1
    &&& exists|sig: Seq<u8>, pk: Seq<u8>|
        {
            &&& post.session.sent_views() == pre.session.sent_views().push(
                (MessageView::RelayEnvelope {
                    to: pre.client_paras.rendezvous_point->0@,
                    message: ClientMessageView::Event(
                        SignedGitEventView { event: ev, sig: sig, pubkey: pk },
                    ),
                }),
            )
            &&& sig_verifies(event_digest(ev), sig, pk)
            &&& sig.len() == 64
            &&& pk.len() == 33
        }
    &&& post.client_paras == pre.client_paras
    &&& frame_fixed(pre, post)
}

impl CmdHandler {
    /// Builds, signs, and relays one lifecycle event for a repository.
    fn publish_git_event(&mut self, repo_name: &str, target: &str, action: &str, content: &str) -> (r:
        Result<u64, CoordError>)
        requires
            old(self).wf(),
            old(self).session.next_request_id < u64::MAX,
        ensures
            final(self).wf(),
            r is Ok <==> (old(self).client_paras.rendezvous_point is Some
                && old(self).session.transport_ok),
            match r {
                Ok(id) => event_ok(
                    *old(self),
                    *final(self),
                    repo_name@,
                    target@,
                    action@,
                    content@,
                    id,
                ),
                Err(e) => *final(self) == *old(self) && (if old(
                    self,
                ).client_paras.rendezvous_point is None {
                    e == CoordError::RelayNotConfigured
                } else {
                    e == CoordError::SendFailed
                }),
            },
    {
        let relay_peer_id = match &self.client_paras.rendezvous_point {
            Some(p) => p.dup(),
            None => {
                return Err(CoordError::RelayNotConfigured);
            },
        };
        let peer_id = self.session.local_peer_id.text.clone();
        let url = build_repo_url(peer_id.as_str(), repo_name);
        let path = get_repo_full_path(repo_name);
        let object_id = self.client_paras.storage.head_object_id(path.as_str());
        let git_event = GitEvent {
            peer_id,
            repo_name: repo_name.to_owned(),
            repo_target: target.to_owned(),
            repo_action: action.to_owned(),
            repo_url: url,
            repo_commit_id: object_id,
            repo_issue_content: content.to_owned(),
        };
        let event = sign_git_event(git_event);
        let client_req = ClientMessage::Event(event);
        let msg = OutboundMessage::RelayEnvelope { to: relay_peer_id, message: client_req };
        match self.session.send(msg) {
            Ok(id) => {
                proof {
                    lemma_wf_tables_fixed(*old(self), *self);
                }
                Ok(id)
            },
            Err(e) => Err(e),
        }
    }

    /// Publishes an update event (`origin`/`update`) for a repository.
    pub fn event_update(&mut self, repo_name: &str) -> (r: Result<u64, CoordError>)
        requires
            old(self).wf(),
            old(self).session.next_request_id < u64::MAX,
        ensures
            final(self).wf(),
            r is Ok <==> (old(self).client_paras.rendezvous_point is Some
                && old(self).session.transport_ok),
            match r {
                Ok(id) => event_ok(
                    *old(self),
                    *final(self),
                    repo_name@,
                    "origin"@,
                    "update"@,
                    ""@,
                    id,
                ),
                Err(e) => *final(self) == *old(self) && (if old(
                    self,
                ).client_paras.rendezvous_point is None {
                    e == CoordError::RelayNotConfigured
                } else {
                    e == CoordError::SendFailed
                }),
            },
    {
        self.publish_git_event(repo_name, "origin", "update", "")
    }

    /// Publishes a merge-request event (`fork`/`request`).
    pub fn event_merge(&mut self, repo_name: &str) -> (r: Result<u64, CoordError>)
        requires
            old(self).wf(),
            old(self).session.next_request_id < u64::MAX,
        ensures
            final(self).wf(),
            r is Ok <==> (old(self).client_paras.rendezvous_point is Some
                && old(self).session.transport_ok),
            match r {
                Ok(id) => event_ok(
                    *old(self),
                    *final(self),
                    repo_name@,
                    "fork"@,
                    "request"@,
                    ""@,
                    id,
                ),
                Err(e) => *final(self) == *old(self) && (if old(
                    self,
                ).client_paras.rendezvous_point is None {
                    e == CoordError::RelayNotConfigured
                } else {
                    e == CoordError::SendFailed
                }),
            },
    {
        self.publish_git_event(repo_name, "fork", "request", "")
    }

    /// Publishes an issue event (`fork`/`issue`) carrying the issue
    /// body as free-text content.
    pub fn event_issue(&mut self, repo_name: &str, body: &str) -> (r: Result<u64, CoordError>)
        requires
            old(self).wf(),
            old(self).session.next_request_id < u64::MAX,
        ensures
            final(self).wf(),
            r is Ok <==> (old(self).client_paras.rendezvous_point is Some
                && old(self).session.transport_ok),
            match r {
                Ok(id) => event_ok(
                    *old(self),
                    *final(self),
                    repo_name@,
                    "fork"@,
                    "issue"@,
                    body@,
                    id,
                ),
                Err(e) => *final(self) == *old(self) && (if old(
                    self,
                ).client_paras.rendezvous_point is None {
                    e == CoordError::RelayNotConfigured
                } else {
                    e == CoordError::SendFailed
                }),
            },
    {
        self.publish_git_event(repo_name, "fork", "issue", body)
    }

    /// Asks the DHT for the peers closest to a parsed identity.
    pub fn get_peer(&mut self, peer_id: Option<&str>) -> (r: Result<u64, CoordError>)
        requires
            old(self).wf(),
            old(self).session.next_request_id < u64::MAX,
        ensures
            final(self).wf(),
            match r {
                Ok(id) => {
                    &&& peer_id is Some
                    &&& crate::address::is_valid_peer_text(peer_id->0@)
                    &&& old(self).session.transport_ok
                    &&& id == old(self).session.next_request_id
                    &&& final(self).session.next_request_id == id + 1
                    &&& final(self).session.sent_views() == old(self).session.sent_views().push(
                        (MessageView::FindClosestPeers { peer: peer_id->0@ }),
                    )
                    &&& final(self).client_paras == old(self).client_paras
                    &&& frame_fixed(*old(self), *final(self))
                },
                Err(e) => *final(self) == *old(self) && (e == CoordError::MalformedIdentity || e
                    == CoordError::SendFailed),
            },
    {
        let peer = match parse_peer_id(peer_id) {
            Ok(p) => p,
            Err(e) => {
                return Err(e);
            },
        };
        let msg = OutboundMessage::FindClosestPeers { peer };
        match self.session.send(msg) {
            Ok(id) => {
                proof {
                    lemma_wf_tables_fixed(*old(self), *self);
                }
                Ok(id)
            },
            Err(e) => Err(e),
        }
    }
}

/// Two consecutive successful `clone` operations never overwrite each
/// other's correlation entries: the identifiers are distinct, and after
/// both calls each identifier still maps to its own repository name.
pub proof fn lemma_clone_correlations_distinct(
    s0: CmdHandler,
    s1: CmdHandler,
    s2: CmdHandler,
    addr_a: Seq<char>,
    addr_b: Seq<char>,
    id_a: u64,
    id_b: u64,
)
    requires
        clone_ok(s0, s1, addr_a, id_a),
        clone_ok(s1, s2, addr_b, id_b),
    ensures
        id_a != id_b,
        s2.upload_table()[id_a] == split_on(addr_a, '/')[3],
        s2.upload_table()[id_b] == split_on(addr_b, '/')[3],
{
    assert(id_b == id_a + 1);
    assert(s2.upload_table() == s1.upload_table().insert(id_b, split_on(addr_b, '/')[3]));
    assert(s1.upload_table()[id_a] == split_on(addr_a, '/')[3]);
}

} // verus!
