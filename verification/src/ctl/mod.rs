//! The command-line tool: its commands and what each of them reports.

pub mod commands;
pub mod types;

use crate::ctl::commands::{keys, snapshot, user, wal};
use crate::text::strings_view;
use keys::KeysArgs;
use snapshot::SnapshotCommand;
use user::UserCommand;
use wal::WalArgs;
use vstd::prelude::*;

verus! {

/// The server address used where none is given.
pub open spec fn default_server() -> Seq<char> {
    "http://[::1]:9090"@
}

pub struct KvCtl {
    /// Address of the gRPC server.
    pub server: String,
    pub command: Commands,
}

pub enum Commands {
    /// Inspect keys.
    Keys(KeysArgs),
    /// Inspect the log.
    Wal(WalArgs),
    /// Manage snapshots.
    Snapshot(SnapshotCommand),
    /// Manage users.
    User(UserCommand),
}

impl KvCtl {
    /// The lines that the tool prints for its command.
    pub fn run(&self) -> (lines: Vec<String>)
        ensures
            strings_view(lines@) == match self.command {
                Commands::Keys(args) => keys::report(args),
                Commands::Wal(args) => wal::report(args),
                Commands::Snapshot(cmd) => snapshot::report(cmd),
                Commands::User(cmd) => user::report(cmd),
            },
    {
        match &self.command {
            Commands::Keys(args) => keys::run(args),
            Commands::Wal(args) => wal::run(args),
            Commands::Snapshot(cmd) => snapshot::run(cmd),
            Commands::User(cmd) => user::run(cmd),
        }
    }
}

} // verus!
