//! The operator's command, as plain data.

use vstd::prelude::*;

verus! {

/// What the operator asked for.
#[derive(Clone, Debug, PartialEq, Eq)]
pub struct CommandOptions {
    pub help: bool,
    pub verbose: bool,
    /// Whether files that exist may be written over.
    pub overwrite: bool,
    pub command: Option<Command>,
}

/// The operations of the tool.
#[derive(Clone, Debug, PartialEq, Eq)]
pub enum Command {
    /// Create the authorities and issue every certificate.
    New(NewOpts),
    /// Create the authorities only.
    InitCa(InitOpts),
    /// Issue one kind of certificate anew.
    GenCert(GenOpts),
    /// Issue a certificate for a cluster user.
    User(UserOpts),
}

/// Options of `Command::New`.
#[derive(Clone, Debug, PartialEq, Eq)]
pub struct NewOpts {
    pub help: bool,
    pub cluster_name: Option<String>,
}

/// Options of `Command::InitCa`.
#[derive(Clone, Debug, PartialEq, Eq)]
pub struct InitOpts {
    pub help: bool,
    /// The store directory.
    pub dir: Option<String>,
    pub overwrite: bool,
}

/// Options of `Command::GenCert`.
#[derive(Clone, Debug, PartialEq, Eq)]
pub struct GenOpts {
    pub help: bool,
    /// The store directory.
    pub dir: Option<String>,
    /// The kind of certificate; see `kubernetes_certs::select`.
    pub kind: String,
}

/// Options of `Command::User`.
#[derive(Clone, Debug, PartialEq, Eq)]
pub struct UserOpts {
    pub help: bool,
    pub user: String,
    pub group: Option<String>,
}

} // verus!
