use mega_p2p::entity::{AnnoOffset, DataType, MDAHeader, MDAIndex, TrainData};
use mega_p2p::nostr::{sign_git_event, verify_git_event, ClientMessage, GitEvent};
use mega_p2p::record::MegaRepoInfo;
use mega_p2p::services::{plan_services, ServiceType};

fn sample_record() -> MegaRepoInfo {
    MegaRepoInfo {
        origin: "P1".to_string(),
        name: "demo.git".to_string(),
        latest: "8ab686eafeb1f44702738c8b0f24f2567c36da6d".to_string(),
        forks: Vec::new(),
        timestamp: 1699000000000,
    }
}

#[test]
fn test_record_json_exact_bytes() {
    let record = sample_record();
    let expected = "{\"origin\":\"P1\",\"name\":\"demo.git\",\"latest\":\"8ab686eafeb1f44702738c8b0f24f2567c36da6d\",\"forks\":[],\"timestamp\":1699000000000}";
    assert_eq!(record.to_json(), expected.as_bytes().to_vec());
}

#[test]
fn test_record_json_with_forks_and_negative_timestamp() {
    let mut record = sample_record();
    record.forks = vec!["a.git".to_string(), "b.git".to_string()];
    record.timestamp = -42;
    let decoded: serde_json::Value = serde_json::from_slice(&record.to_json()).unwrap();
    assert_eq!(decoded["forks"].as_array().unwrap().len(), 2);
    assert_eq!(decoded["forks"][0], "a.git");
    assert_eq!(decoded["forks"][1], "b.git");
    assert_eq!(decoded["timestamp"], -42);
}

#[test]
fn test_record_json_escapes_strings() {
    let mut record = sample_record();
    record.name = "we\"ird\\na\nme.git".to_string();
    let bytes = record.to_json();
    let decoded: serde_json::Value = serde_json::from_slice(&bytes).unwrap();
    assert_eq!(decoded["name"], "we\"ird\\na\nme.git");
}

fn sample_event() -> GitEvent {
    GitEvent {
        peer_id: "P1".to_string(),
        repo_name: "demo.git".to_string(),
        repo_target: "origin".to_string(),
        repo_action: "update".to_string(),
        repo_url: "p2p://P1/demo.git".to_string(),
        repo_commit_id: "8ab686eafeb1f44702738c8b0f24f2567c36da6d".to_string(),
        repo_issue_content: String::new(),
    }
}

#[test]
fn test_signed_event_round_trip() {
    let signed = sign_git_event(sample_event());
    assert_eq!(signed.sig.len(), 64);
    assert_eq!(signed.pubkey.len(), 33);
    assert!(verify_git_event(&signed));
}

#[test]
fn test_event_message_json() {
    let signed = sign_git_event(sample_event());
    let sig_hex: String = signed.sig.iter().map(|b| format!("{b:02x}")).collect();
    let msg = ClientMessage::Event(signed);
    let bytes = msg.as_json();
    let decoded: serde_json::Value = serde_json::from_slice(&bytes).unwrap();
    assert_eq!(decoded["event"]["peer_id"], "P1");
    assert_eq!(decoded["event"]["repo_action"], "update");
    assert_eq!(decoded["sig"].as_str().unwrap(), sig_hex);
    assert_eq!(decoded["pubkey"].as_str().unwrap().len(), 66);
}

#[test]
fn test_subscription_message_json() {
    let msg = ClientMessage::Req(mega_p2p::nostr::SubscriptionRequest {
        subscription_id: 7,
        filters: vec!["demo.git".to_string(), "other.git".to_string()],
    });
    let bytes = msg.as_json();
    let decoded: serde_json::Value = serde_json::from_slice(&bytes).unwrap();
    assert_eq!(decoded["subscription_id"], 7);
    assert_eq!(decoded["filters"].as_array().unwrap().len(), 2);
    assert_eq!(decoded["filters"][0]["repo_name"], "demo.git");
    assert_eq!(decoded["filters"][1]["repo_name"], "other.git");
}

#[test]
fn test_plan_services() {
    let plan = plan_services(&vec![ServiceType::Http, ServiceType::P2p]);
    assert!(plan.http && !plan.ssh && plan.p2p);
    let plan = plan_services(&vec![ServiceType::Https]);
    assert!(plan.http && !plan.ssh && !plan.p2p);
    let plan = plan_services(&vec![ServiceType::Ssh]);
    assert!(!plan.http && plan.ssh && !plan.p2p);
    let plan = plan_services(&Vec::new());
    assert!(!plan.http && !plan.ssh && !plan.p2p);
}

#[test]
fn test_entities_construct() {
    let anno = AnnoOffset::new("anno-1");
    assert_eq!(anno.id, "anno-1");
    assert_eq!(anno.header_offset, 0);
    assert_eq!(anno.entries_offset, 0);
    let index = MDAIndex { header_offset: 8, train_data_offset: 64, annotations_offset: vec![anno] };
    assert_eq!(index.annotations_offset.len(), 1);
    let header = MDAHeader {
        tags: vec!["tag".to_string()],
        train_data: TrainData { data_type: "text".to_string(), metadata: "{}".to_string() },
    };
    assert_eq!(header.tags.len(), 1);
    assert_eq!(DataType::Text, DataType::Text);
    assert_ne!(DataType::Text, DataType::Audio);
}
