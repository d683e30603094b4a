use mega_p2p::address::{parse_mega_address, parse_peer_id, split_char, validate_repo_name};
use mega_p2p::errors::CoordError;
use mega_p2p::text::{build_repo_url, get_repo_full_path, is_zero_id, str_eq, zero_id_string};

#[test]
fn test_split_char_segments() {
    let v = split_char("p2p://PEER1/demo.git", '/');
    assert_eq!(v, vec!["p2p:", "", "PEER1", "demo.git"]);
    let v = split_char("", '/');
    assert_eq!(v, vec![""]);
    let v = split_char("a//b", '/');
    assert_eq!(v, vec!["a", "", "b"]);
}

#[test]
fn test_parse_mega_address_too_few_segments() {
    // Fewer than four `/`-delimited segments is an invalid address.
    assert_eq!(
        parse_mega_address("demo.git").unwrap_err(),
        CoordError::InvalidAddress
    );
    assert_eq!(
        parse_mega_address("p2p://PEER1").unwrap_err(),
        CoordError::InvalidAddress
    );
    assert_eq!(parse_mega_address("").unwrap_err(), CoordError::InvalidAddress);
    assert_eq!(
        parse_mega_address("a/b/c").unwrap_err(),
        CoordError::InvalidAddress
    );
}

#[test]
fn test_parse_mega_address_basic() {
    let (peer, repo) = parse_mega_address("p2p://PEER1/demo.git").unwrap();
    assert_eq!(peer.text, "PEER1");
    assert_eq!(repo, "demo.git");
}

#[test]
fn test_parse_mega_address_discards_trailing_segments() {
    let (peer, repo) = parse_mega_address("p2p://PEER1/demo.git/extra/path").unwrap();
    assert_eq!(peer.text, "PEER1");
    assert_eq!(repo, "demo.git");
}

#[test]
fn test_validate_repo_name() {
    assert!(validate_repo_name("demo.git").is_ok());
    assert!(validate_repo_name(".git").is_ok());
    assert_eq!(
        validate_repo_name("demo").unwrap_err(),
        CoordError::InvalidRepoName
    );
    assert_eq!(validate_repo_name("git").unwrap_err(), CoordError::InvalidRepoName);
    assert_eq!(
        validate_repo_name("demo.GIT").unwrap_err(),
        CoordError::InvalidRepoName
    );
}

#[test]
fn test_parse_peer_id() {
    let valid = "12D3KooWFgpUQa9WnTztcvs5LLMJmwsMoGZcrTHdt9LKYKpM4MiK";
    let p = parse_peer_id(Some(valid)).unwrap();
    assert_eq!(p.text, valid);
    assert_eq!(
        parse_peer_id(Some("PEER1")).unwrap_err(),
        CoordError::MalformedIdentity
    );
    assert_eq!(parse_peer_id(None).unwrap_err(), CoordError::MalformedIdentity);
}

#[test]
fn test_text_helpers() {
    assert_eq!(get_repo_full_path("demo.git"), "/projects/demo.git");
    assert_eq!(build_repo_url("P1", "demo.git"), "p2p://P1/demo.git");
    let z = zero_id_string();
    assert_eq!(z.len(), 40);
    assert!(is_zero_id(&z));
    assert!(!is_zero_id("abc"));
    assert!(!is_zero_id(&"1".repeat(40)));
    assert!(str_eq("abc", "abc"));
    assert!(!str_eq("abc", "abd"));
    assert!(!str_eq("abc", "ab"));
}

#[test]
fn test_error_messages_distinct() {
    let errors = [
        CoordError::InvalidAddress,
        CoordError::InvalidRepoName,
        CoordError::MalformedIdentity,
        CoordError::RepoNotFound,
        CoordError::LocalRepoNotFound,
        CoordError::RelayNotConfigured,
        CoordError::DirectoryPutFailed,
        CoordError::SendFailed,
    ];
    for (i, a) in errors.iter().enumerate() {
        assert!(!a.message().is_empty());
        for (j, b) in errors.iter().enumerate() {
            if i != j {
                assert_ne!(a.message(), b.message());
            }
        }
    }
}
