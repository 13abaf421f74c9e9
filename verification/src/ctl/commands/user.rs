//! `user`: manage users.

use crate::text::{concat, strings_view};
use vstd::prelude::*;

verus! {

pub enum UserCommand {
    /// Create a user.
    Create(UserCreateArgs),
    /// List the users.
    List,
    /// Delete a user.
    Delete { username: String },
}

pub struct UserCreateArgs {
    pub username: String,
    /// Asked for at the prompt where it is not given.
    pub password: Option<String>,
    /// The roles to assign, separated by commas.
    pub roles: String,
}

/// What `user` reports.
pub open spec fn report(cmd: UserCommand) -> Seq<Seq<char>> {
    match cmd {
        UserCommand::Create(args) => seq![
            "Creating user: "@ + args.username@,
            "Roles: "@ + args.roles@,
            "Note: User management not implemented in MVP — requires direct catalog access"@,
        ],
        UserCommand::List => seq!["Listing users... (not implemented)"@],
        UserCommand::Delete { username } => seq!["Deleting user: "@ + username@],
    }
}

/// The lines that `user` prints.
pub fn run(cmd: &UserCommand) -> (lines: Vec<String>)
    ensures
        strings_view(lines@) == report(*cmd),
{
    let mut lines: Vec<String> = Vec::new();
    match cmd {
        UserCommand::Create(args) => {
            lines.push(concat("Creating user: ", args.username.as_str()));
            lines.push(concat("Roles: ", args.roles.as_str()));
            let note =
                "Note: User management not implemented in MVP — requires direct catalog access";
            lines.push(note.to_owned());
        },
        UserCommand::List => {
            lines.push("Listing users... (not implemented)".to_owned());
        },
        UserCommand::Delete { username } => {
            lines.push(concat("Deleting user: ", username.as_str()));
        },
    }
    assert(strings_view(lines@) =~= report(*cmd));
    lines
}

} // verus!
