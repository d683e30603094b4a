//! Error taxonomy of the coordination core.
//!
//! Every failing operation yields exactly one of these typed errors;
//! none of the verified operations panics.

use vstd::prelude::*;

verus! {

/// The errors a coordination operation can report.
#[derive(Clone, Copy, Debug, PartialEq, Eq, Structural)]
pub enum CoordError {
    /// A network address did not match `scheme://<peer>/<repo>`.
    InvalidAddress,
    /// A repository name lacked the reserved `.git` suffix.
    InvalidRepoName,
    /// A peer-identity string could not be parsed.
    MalformedIdentity,
    /// The local head of the repository was the sentinel on a publish path.
    RepoNotFound,
    /// The local head of the repository was the sentinel on a pull path.
    LocalRepoNotFound,
    /// An event or subscription was requested with no relay peer configured.
    RelayNotConfigured,
    /// The DHT substrate rejected a directory-record put.
    DirectoryPutFailed,
    /// The transport could not dispatch a request.
    SendFailed,
}

impl CoordError {
    /// A short description of the error, suitable for display.
    pub fn message(&self) -> (r: &'static str)
        ensures
            r@.len() > 0,
    {
        let m: &'static str = match self {
            CoordError::InvalidAddress => "invalid network address",
            CoordError::InvalidRepoName => "repo name must end with .git",
            CoordError::MalformedIdentity => "malformed peer identity",
            CoordError::RepoNotFound => "repository not found",
            CoordError::LocalRepoNotFound => "local repository not found",
            CoordError::RelayNotConfigured => "relay peer not configured",
            CoordError::DirectoryPutFailed => "failed to store directory record",
            CoordError::SendFailed => "failed to dispatch request",
        };
        proof {
            reveal_strlit("invalid network address");
            reveal_strlit("repo name must end with .git");
            reveal_strlit("malformed peer identity");
            reveal_strlit("repository not found");
            reveal_strlit("local repository not found");
            reveal_strlit("relay peer not configured");
            reveal_strlit("failed to store directory record");
            reveal_strlit("failed to dispatch request");
        }
        m
    }
}

} // verus!
