use mega_p2p::address::PeerId;
use mega_p2p::errors::CoordError;
use mega_p2p::handler::CmdHandler;
use mega_p2p::nostr::{verify_git_event, ClientMessage};
use mega_p2p::session::{OutboundMessage, Quorum};
use mega_p2p::storage::LocalStorage;
use mega_p2p::text::get_repo_full_path;

const HEAD: &str = "8ab686eafeb1f44702738c8b0f24f2567c36da6d";

fn peer(text: &str) -> PeerId {
    PeerId { text: text.to_string() }
}

fn node_with(head_repos: &[(&str, &str)], relay: Option<&str>) -> CmdHandler {
    let mut storage = LocalStorage::new();
    for (name, head) in head_repos {
        storage.set_head(get_repo_full_path(name), head.to_string());
    }
    CmdHandler::new(peer("P1"), relay.map(peer), storage)
}

#[test]
fn test_validating_operations_reject_bad_names_without_sending() {
    let mut node = node_with(&[("demo.git", HEAD)], Some("R"));
    assert_eq!(node.provide("demo").unwrap_err(), CoordError::InvalidRepoName);
    assert_eq!(node.clone_obj("demo").unwrap_err(), CoordError::InvalidRepoName);
    assert_eq!(node.pull_obj("demo").unwrap_err(), CoordError::InvalidRepoName);
    assert_eq!(node.session.sent.len(), 0);
    assert!(node.client_paras.pending_git_upload_package.is_empty());
    assert!(node.client_paras.pending_git_pull.is_empty());
    assert!(node.client_paras.pending_repo_info_search_to_download_obj.is_empty());
}

#[test]
fn test_provide_on_sentinel_head_sends_nothing() {
    let mut node = node_with(&[], Some("R"));
    assert_eq!(node.provide("demo.git").unwrap_err(), CoordError::RepoNotFound);
    assert_eq!(node.session.sent.len(), 0);
}

#[test]
fn test_provide_publishes_one_record() {
    let mut node = node_with(&[("demo.git", HEAD)], None);
    node.provide("demo.git").unwrap();
    assert_eq!(node.session.sent.len(), 1);
    match &node.session.sent[0] {
        OutboundMessage::DhtPut { key, value, quorum } => {
            assert_eq!(key, "demo.git");
            assert_eq!(*quorum, Quorum::One);
            let decoded: serde_json::Value = serde_json::from_slice(value).unwrap();
            assert_eq!(decoded["origin"], "P1");
            assert_eq!(decoded["name"], "demo.git");
            assert_eq!(decoded["latest"], HEAD);
            assert_eq!(decoded["forks"].as_array().unwrap().len(), 0);
            assert!(decoded["timestamp"].is_i64());
        }
        other => panic!("expected a DHT put, got {other:?}"),
    }
}

#[test]
fn test_provide_put_failure_corrupts_nothing() {
    let mut node = node_with(&[("demo.git", HEAD)], None);
    node.session.set_transport_ok(false);
    assert_eq!(node.provide("demo.git").unwrap_err(), CoordError::DirectoryPutFailed);
    assert_eq!(node.session.sent.len(), 0);
}

#[test]
fn test_search_issues_one_lookup() {
    let mut node = node_with(&[], None);
    node.search("demo.git").unwrap();
    assert_eq!(node.session.sent.len(), 1);
    match &node.session.sent[0] {
        OutboundMessage::DhtGet { key } => assert_eq!(key, "demo.git"),
        other => panic!("expected a DHT get, got {other:?}"),
    }
    assert!(node.client_paras.pending_repo_info_search_to_download_obj.is_empty());
}

#[test]
fn test_pull_on_sentinel_head_sends_nothing() {
    let mut node = node_with(&[], Some("R"));
    assert_eq!(
        node.pull("p2p://P1/demo.git").unwrap_err(),
        CoordError::LocalRepoNotFound
    );
    assert_eq!(node.session.sent.len(), 0);
    assert!(node.client_paras.pending_git_pull.is_empty());
}

#[test]
fn test_pull_sends_info_refs_and_correlates() {
    let mut node = node_with(&[("demo.git", HEAD)], None);
    let id = node.pull("p2p://P2/demo.git").unwrap();
    assert_eq!(node.session.sent.len(), 1);
    match &node.session.sent[0] {
        OutboundMessage::InfoRefsRequest { to, path, ref_hints } => {
            assert_eq!(to.text, "P2");
            assert_eq!(path, "/projects/demo.git");
            assert!(ref_hints.is_empty());
        }
        other => panic!("expected an info-refs request, got {other:?}"),
    }
    assert_eq!(
        node.client_paras.pending_git_pull.get(&id).unwrap(),
        "demo.git"
    );
}

#[test]
fn test_clone_sends_one_upload_pack_and_correlates() {
    let mut node = node_with(&[], None);
    let id = node.clone("p2p://P2/demo.git").unwrap();
    assert_eq!(node.session.sent.len(), 1);
    match &node.session.sent[0] {
        OutboundMessage::UploadPackRequest { to, wants, haves, path } => {
            assert_eq!(to.text, "P2");
            assert!(wants.is_empty());
            assert!(haves.is_empty());
            assert_eq!(path, "/projects/demo.git");
        }
        other => panic!("expected an upload-pack request, got {other:?}"),
    }
    assert_eq!(node.client_paras.pending_git_upload_package.len(), 1);
    assert_eq!(
        node.client_paras.pending_git_upload_package.get(&id).unwrap(),
        "demo.git"
    );
}

#[test]
fn test_clone_rejects_bad_address() {
    let mut node = node_with(&[], None);
    assert_eq!(node.clone("demo.git").unwrap_err(), CoordError::InvalidAddress);
    assert_eq!(node.session.sent.len(), 0);
}

#[test]
fn test_concurrent_clones_use_distinct_identifiers() {
    let mut node = node_with(&[], None);
    let id_a = node.clone("p2p://P2/one.git").unwrap();
    let id_b = node.clone("p2p://P3/two.git").unwrap();
    assert_ne!(id_a, id_b);
    let table = &node.client_paras.pending_git_upload_package;
    assert_eq!(table.get(&id_a).unwrap(), "one.git");
    assert_eq!(table.get(&id_b).unwrap(), "two.git");
}

#[test]
fn test_clone_obj_correlates_lookup() {
    let mut node = node_with(&[], None);
    let id = node.clone_obj("demo.git").unwrap();
    match &node.session.sent[0] {
        OutboundMessage::DhtGet { key } => assert_eq!(key, "demo.git"),
        other => panic!("expected a DHT get, got {other:?}"),
    }
    assert_eq!(
        node.client_paras
            .pending_repo_info_search_to_download_obj
            .get(&id)
            .unwrap(),
        "demo.git"
    );
    let id2 = node.pull_obj("demo.git").unwrap();
    assert_ne!(id, id2);
    assert_eq!(
        node.client_paras.pending_repo_info_search_to_download_obj.len(),
        2
    );
}

#[test]
fn test_send_failure_leaves_no_correlation_entry() {
    let mut node = node_with(&[], None);
    node.session.set_transport_ok(false);
    assert_eq!(
        node.clone("p2p://P2/demo.git").unwrap_err(),
        CoordError::SendFailed
    );
    assert_eq!(node.search("demo.git").unwrap_err(), CoordError::SendFailed);
    assert_eq!(node.kad_put("k", "v").unwrap_err(), CoordError::DirectoryPutFailed);
    assert_eq!(node.session.sent.len(), 0);
    assert!(node.client_paras.pending_git_upload_package.is_empty());
}

#[test]
fn test_publish_update_signs_and_relays() {
    let mut node = node_with(&[("demo.git", HEAD)], Some("R"));
    node.event_update("demo.git").unwrap();
    assert_eq!(node.session.sent.len(), 1);
    match &node.session.sent[0] {
        OutboundMessage::RelayEnvelope { to, message } => {
            assert_eq!(to.text, "R");
            match message {
                ClientMessage::Event(signed) => {
                    assert_eq!(signed.event.peer_id, "P1");
                    assert_eq!(signed.event.repo_name, "demo.git");
                    assert_eq!(signed.event.repo_target, "origin");
                    assert_eq!(signed.event.repo_action, "update");
                    assert_eq!(signed.event.repo_url, "p2p://P1/demo.git");
                    assert_eq!(signed.event.repo_commit_id, HEAD);
                    assert_eq!(signed.event.repo_issue_content, "");
                    assert!(verify_git_event(signed));
                }
                other => panic!("expected a signed event, got {other:?}"),
            }
        }
        other => panic!("expected a relay envelope, got {other:?}"),
    }
}

#[test]
fn test_tampered_event_fails_verification() {
    let mut node = node_with(&[("demo.git", HEAD)], Some("R"));
    node.event_update("demo.git").unwrap();
    let mut sent = node.session.sent;
    match sent.pop().unwrap() {
        OutboundMessage::RelayEnvelope { message: ClientMessage::Event(mut signed), .. } => {
            signed.event.repo_name = "other.git".to_string();
            assert!(!verify_git_event(&signed));
        }
        other => panic!("expected a relay envelope, got {other:?}"),
    }
}

#[test]
fn test_publish_without_relay_fails_recoverably() {
    let mut node = node_with(&[("demo.git", HEAD)], None);
    assert_eq!(
        node.event_update("demo.git").unwrap_err(),
        CoordError::RelayNotConfigured
    );
    assert_eq!(
        node.event_merge("demo.git").unwrap_err(),
        CoordError::RelayNotConfigured
    );
    assert_eq!(
        node.event_issue("demo.git", "body").unwrap_err(),
        CoordError::RelayNotConfigured
    );
    assert_eq!(node.subscribe("demo.git").unwrap_err(), CoordError::RelayNotConfigured);
    assert_eq!(node.session.sent.len(), 0);
}

#[test]
fn test_event_merge_and_issue_pairs() {
    let mut node = node_with(&[("demo.git", HEAD)], Some("R"));
    node.event_merge("demo.git").unwrap();
    node.event_issue("demo.git", "new issue").unwrap();
    assert_eq!(node.session.sent.len(), 2);
    match &node.session.sent[0] {
        OutboundMessage::RelayEnvelope { message: ClientMessage::Event(signed), .. } => {
            assert_eq!(signed.event.repo_target, "fork");
            assert_eq!(signed.event.repo_action, "request");
            assert_eq!(signed.event.repo_issue_content, "");
        }
        other => panic!("expected a relay envelope, got {other:?}"),
    }
    match &node.session.sent[1] {
        OutboundMessage::RelayEnvelope { message: ClientMessage::Event(signed), .. } => {
            assert_eq!(signed.event.repo_target, "fork");
            assert_eq!(signed.event.repo_action, "issue");
            assert_eq!(signed.event.repo_issue_content, "new issue");
        }
        other => panic!("expected a relay envelope, got {other:?}"),
    }
}

#[test]
fn test_subscribe_sends_filter_to_relay() {
    let mut node = node_with(&[], Some("R"));
    node.subscribe("demo.git").unwrap();
    match &node.session.sent[0] {
        OutboundMessage::RelayEnvelope { to, message } => {
            assert_eq!(to.text, "R");
            match message {
                ClientMessage::Req(req) => {
                    assert_eq!(req.subscription_id, 0);
                    assert_eq!(req.filters, vec!["demo.git"]);
                }
                other => panic!("expected a subscription request, got {other:?}"),
            }
        }
        other => panic!("expected a relay envelope, got {other:?}"),
    }
    node.subscribe("other.git").unwrap();
    match &node.session.sent[1] {
        OutboundMessage::RelayEnvelope { message: ClientMessage::Req(req), .. } => {
            assert_eq!(req.subscription_id, 1);
        }
        other => panic!("expected a relay envelope, got {other:?}"),
    }
}

#[test]
fn test_kad_get_and_put() {
    let mut node = node_with(&[], None);
    node.kad_get("some-key").unwrap();
    node.kad_put("some-key", "some-value").unwrap();
    assert_eq!(node.session.sent.len(), 2);
    match &node.session.sent[1] {
        OutboundMessage::DhtPut { key, value, quorum } => {
            assert_eq!(key, "some-key");
            assert_eq!(value, b"some-value");
            assert_eq!(*quorum, Quorum::One);
        }
        other => panic!("expected a DHT put, got {other:?}"),
    }
}

#[test]
fn test_get_peer_validates_identity() {
    let mut node = node_with(&[], None);
    assert_eq!(
        node.get_peer(Some("PEER1")).unwrap_err(),
        CoordError::MalformedIdentity
    );
    assert_eq!(node.get_peer(None).unwrap_err(), CoordError::MalformedIdentity);
    assert_eq!(node.session.sent.len(), 0);
    node.get_peer(Some("12D3KooWFgpUQa9WnTztcvs5LLMJmwsMoGZcrTHdt9LKYKpM4MiK"))
        .unwrap();
    assert_eq!(node.session.sent.len(), 1);
}
