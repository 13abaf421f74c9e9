//! `keys`: list keys.

use crate::text::{concat, option_text, strings_view};
use vstd::prelude::*;

verus! {

pub struct KeysArgs {
    /// Key pattern, such as `user:*`.
    pub pattern: Option<String>,
    /// Whether keys under `_sys.` are listed too.
    pub include_system: bool,
    /// Most results to show.
    pub limit: u64,
}

/// An optional pattern as `{:?}` prints it.
pub uninterp spec fn debug_text(pattern: Option<Seq<char>>) -> Seq<char>;

/// Formats an optional string with `{:?}`. Trusted: the text depends on the
/// value alone.
#[verifier::external_body]
fn debug_option(pattern: &Option<String>) -> (text: String)
    ensures
        text@ == debug_text(option_text(*pattern)),
{
    format!("{:?}", pattern)
}

/// What `keys` reports.
pub open spec fn report(args: KeysArgs) -> Seq<Seq<char>> {
    seq![
        "Scanning keys with pattern: "@ + debug_text(option_text(args.pattern)),
        "Note: SCAN not implemented in gRPC yet — returning empty"@,
    ]
}

/// The lines that `keys` prints. Scanning is not offered by the server yet.
pub fn run(args: &KeysArgs) -> (lines: Vec<String>)
    ensures
        strings_view(lines@) == report(*args),
{
    let mut lines: Vec<String> = Vec::new();
    lines.push(concat("Scanning keys with pattern: ", debug_option(&args.pattern).as_str()));
    lines.push("Note: SCAN not implemented in gRPC yet — returning empty".to_owned());
    assert(strings_view(lines@) =~= report(*args));
    lines
}

} // verus!
