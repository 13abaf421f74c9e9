//! `snapshot`: manage snapshots.

use crate::text::strings_view;
use vstd::prelude::*;
use vstd::string::StringExecFns;

verus! {

pub enum SnapshotCommand {
    /// Take a snapshot.
    Create,
    /// List the snapshots there are.
    List,
    /// Restore from a snapshot.
    Restore { filename: String },
}

/// What `snapshot` reports.
pub open spec fn report(cmd: SnapshotCommand) -> Seq<Seq<char>> {
    match cmd {
        SnapshotCommand::Create => seq![
            "Creating snapshot... (not implemented — requires server RPC)"@,
        ],
        SnapshotCommand::List => seq![
            "Listing snapshots... (not implemented — requires server RPC)"@,
        ],
        SnapshotCommand::Restore { filename } => seq![
            "Restoring from "@ + filename@ + "... (not implemented — requires server RPC)"@,
        ],
    }
}

/// The lines that `snapshot` prints.
pub fn run(cmd: &SnapshotCommand) -> (lines: Vec<String>)
    ensures
        strings_view(lines@) == report(*cmd),
{
    let mut lines: Vec<String> = Vec::new();
    match cmd {
        SnapshotCommand::Create => {
            lines.push("Creating snapshot... (not implemented — requires server RPC)".to_owned());
        },
        SnapshotCommand::List => {
            lines.push("Listing snapshots... (not implemented — requires server RPC)".to_owned());
        },
        SnapshotCommand::Restore { filename } => {
            let mut line = "Restoring from ".to_owned();
            line.append(filename.as_str());
            line.append("... (not implemented — requires server RPC)");
            lines.push(line);
        },
    }
    assert(strings_view(lines@) =~= report(*cmd));
    lines
}

} // verus!
