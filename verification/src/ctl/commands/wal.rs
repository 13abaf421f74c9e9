//! `wal`: look at the end of the log.

use crate::text::{decimal_string, decimal_text, strings_view};
use vstd::prelude::*;
use vstd::string::StringExecFns;

verus! {

#[derive(Debug, Clone, Copy, PartialEq, Eq, Structural)]
pub struct WalArgs {
    /// Number of lines to show.
    pub lines: usize,
    /// Whether to keep following the log.
    pub follow: bool,
}

/// What `wal` reports.
pub open spec fn report(args: WalArgs) -> Seq<Seq<char>> {
    seq![
        "WAL tailing not implemented in MVP — requires direct WAL file access"@,
        "Requested: "@ + decimal_text(args.lines as nat) + " lines, follow="@ + if args.follow {
            "true"@
        } else {
            "false"@
        },
    ]
}

/// The lines that `wal` prints.
pub fn run(args: &WalArgs) -> (lines: Vec<String>)
    ensures
        strings_view(lines@) == report(*args),
{
    let mut lines: Vec<String> = Vec::new();
    lines.push("WAL tailing not implemented in MVP — requires direct WAL file access".to_owned());
    let mut second = "Requested: ".to_owned();
    second.append(decimal_string(args.lines as u64).as_str());
    second.append(" lines, follow=");
    if args.follow {
        second.append("true");
    } else {
        second.append("false");
    }
    lines.push(second);
    assert(strings_view(lines@) =~= report(*args));
    lines
}

} // verus!
