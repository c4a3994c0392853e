//! Replication of git repositories to mirror remotes, guarded by a
//! trust-on-first-use store of SSH host-key fingerprints.
//!
//! The library holds the decisions: which hosts are trusted, which refs are
//! mirrored, and each repository's mirror cycle as a state machine driven by
//! the transport's reports. The program around it performs the git
//! transport operations and the file I/O.

pub mod credentials;
pub mod repos;
pub mod server;
pub mod sync;
pub mod trust;

pub use credentials::{ssh_identity, CredentialError, SshIdentity};
pub use repos::{repo_dir_name, seed_urls, url_host, validate_config, ConfigError, SyncRepository};
pub use server::{
    add_blank_repo, remove_repo, update_repo, PropertyError, PropertySetter, RepoMirrorConfigServer,
};
pub use sync::{
    branch_heads, is_branch_head, push_refspecs, Action, Cycle, Event, Stage, SyncResult, Tick,
    TickAction,
};
pub use trust::{is_affirmative, is_yes, HostCheck, HostOffer, KnownHosts, TrustPolicy, TrustRecord};
