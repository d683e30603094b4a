//! The send side of the network session: every DHT and protocol
//! request the node issues goes through here. Dispatch returns a fresh
//! correlation identifier synchronously and appends the message to the
//! outbound log; the transport that carries the log entries and the
//! event loop that resolves responses are collaborators outside this
//! crate.

use vstd::prelude::*;

use crate::address::PeerId;
use crate::errors::CoordError;
use crate::nostr::{ClientMessage, ClientMessageView};

verus! {

/// The acknowledgment level requested for a DHT put.
#[derive(Clone, Copy, Debug, PartialEq, Eq, Structural)]
pub enum Quorum {
    One,
    Majority,
    All,
}

/// One outbound request, as handed to the transport.
#[derive(Debug)]
pub enum OutboundMessage {
    /// Store a record in the DHT under a key.
    DhtPut { key: String, value: Vec<u8>, quorum: Quorum },
    /// Look a key up in the DHT.
    DhtGet { key: String },
    /// Ask the DHT for the peers closest to an identity.
    FindClosestPeers { peer: PeerId },
    /// A full-history fetch request sent to a peer.
    UploadPackRequest { to: PeerId, wants: Vec<String>, haves: Vec<String>, path: String },
    /// A ref-listing request sent to a peer.
    InfoRefsRequest { to: PeerId, path: String, ref_hints: Vec<String> },
    /// A relay message: a signed event or a subscription request.
    RelayEnvelope { to: PeerId, message: ClientMessage },
}

/// One outbound request, by view.
pub enum MessageView {
    DhtPut { key: Seq<char>, value: Seq<u8>, quorum: Quorum },
    DhtGet { key: Seq<char> },
    FindClosestPeers { peer: Seq<char> },
    UploadPackRequest { to: Seq<char>, wants: Seq<Seq<char>>, haves: Seq<Seq<char>>, path: Seq<char> },
    InfoRefsRequest { to: Seq<char>, path: Seq<char>, ref_hints: Seq<Seq<char>> },
    RelayEnvelope { to: Seq<char>, message: ClientMessageView },
}

impl View for OutboundMessage {
    type V = MessageView;

    open spec fn view(&self) -> MessageView {
        match self {
            OutboundMessage::DhtPut { key, value, quorum } => MessageView::DhtPut {
                key: key@,
                value: value@,
                quorum: *quorum,
            },
            OutboundMessage::DhtGet { key } => MessageView::DhtGet { key: key@ },
            OutboundMessage::FindClosestPeers { peer } => MessageView::FindClosestPeers {
                peer: peer@,
            },
            OutboundMessage::UploadPackRequest { to, wants, haves, path } => MessageView::UploadPackRequest {
                to: to@,
                wants: wants.deep_view(),
                haves: haves.deep_view(),
                path: path@,
            },
            OutboundMessage::InfoRefsRequest { to, path, ref_hints } => MessageView::InfoRefsRequest {
                to: to@,
                path: path@,
                ref_hints: ref_hints.deep_view(),
            },
            OutboundMessage::RelayEnvelope { to, message } => MessageView::RelayEnvelope {
                to: to@,
                message: message@,
            },
        }
    }
}

impl DeepView for OutboundMessage {
    type V = MessageView;

    open spec fn deep_view(&self) -> MessageView {
        self.view()
    }
}

/// The network session: the node's own identity, the next correlation
/// identifier, whether the transport can dispatch at all, and the log
/// of requests issued so far.
#[derive(Debug)]
pub struct NetworkSession {
    pub local_peer_id: PeerId,
    pub next_request_id: u64,
    pub transport_ok: bool,
    pub sent: Vec<OutboundMessage>,
}

impl NetworkSession {
    /// The outbound log, by view.
    pub open spec fn sent_views(&self) -> Seq<MessageView> {
        self.sent.deep_view()
    }

    /// A fresh session for a node identity: nothing sent yet, the
    /// transport healthy.
    pub fn new(local_peer_id: PeerId) -> (r: NetworkSession)
        ensures
            r.local_peer_id == local_peer_id,
            r.next_request_id == 0,
            r.transport_ok,
            r.sent_views() =~~= Seq::<MessageView>::empty(),
    {
        NetworkSession { local_peer_id, next_request_id: 0, transport_ok: true, sent: Vec::new() }
    }

    /// Marks the transport able or unable to dispatch requests.
    pub fn set_transport_ok(&mut self, ok: bool)
        ensures
            final(self).transport_ok == ok,
            final(self).local_peer_id == old(self).local_peer_id,
            final(self).next_request_id == old(self).next_request_id,
            final(self).sent_views() == old(self).sent_views(),
    {
        self.transport_ok = ok;
    }

    /// Dispatches one request: on success the message is appended to
    /// the log and the fresh correlation identifier returned; when the
    /// transport cannot dispatch, nothing is logged and the session is
    /// unchanged.
    pub fn send(&mut self, msg: OutboundMessage) -> (r: Result<u64, CoordError>)
        requires
            old(self).next_request_id < u64::MAX,
        ensures
            final(self).local_peer_id == old(self).local_peer_id,
            final(self).transport_ok == old(self).transport_ok,
            r is Ok <==> old(self).transport_ok,
            r is Err ==> *final(self) == *old(self) && r->Err_0 == CoordError::SendFailed,
            r is Ok ==> {
                &&& r->Ok_0 == old(self).next_request_id
                &&& final(self).next_request_id == old(self).next_request_id + 1
                &&& final(self).sent_views() == old(self).sent_views().push(msg@)
            },
    {
        if !self.transport_ok {
            return Err(CoordError::SendFailed);
        }
        let id = self.next_request_id;
        self.next_request_id = self.next_request_id + 1;
        let ghost pre = self.sent.deep_view();
        self.sent.push(msg);
        proof {
            assert(self.sent.deep_view() =~~= pre.push(msg@));
        }
        Ok(id)
    }
}

} // verus!
