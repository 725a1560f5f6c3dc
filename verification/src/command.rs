//! Which command a subcommand name asks for.

use vstd::prelude::*;

verus! {

/// What the program is asked to do.
#[derive(Clone, Copy, Debug, PartialEq, Eq, Structural)]
pub enum Command {
    /// Store the credentials file.
    Setup,
    /// Forget the cached access tokens.
    Logout,
    /// List the calendars.
    Calendars,
    /// Open the meeting link of an event.
    Meet,
    /// List the events of the day.
    List,
}

/// The command that the subcommand `name` asks for. No subcommand, or one
/// with another name, asks for the listing of the day.
pub open spec fn command_named(name: Option<Seq<char>>) -> Command {
    match name {
        Some(text) => if text == "setup"@ {
            Command::Setup
        } else if text == "logout"@ {
            Command::Logout
        } else if text == "calendars"@ {
            Command::Calendars
        } else if text == "meet"@ {
            Command::Meet
        } else {
            Command::List
        },
        None => Command::List,
    }
}

/// The view of an optional subcommand name.
pub open spec fn name_view(name: Option<&str>) -> Option<Seq<char>> {
    match name {
        Some(text) => Some(text@),
        None => None,
    }
}

/// Whether the two texts are the same.
fn same_text(left: &str, right: &str) -> (same: bool)
    ensures
        same == (left@ == right@),
{
    String::from_str(left) == String::from_str(right)
}

impl Command {
    /// Whether the command works on the calendar service, so that access
    /// to it has to be set up before the command runs. Only `Setup` does
    /// not.
    pub open spec fn uses_service(self) -> bool {
        self != Command::Setup
    }

    /// The command that the subcommand `name` asks for.
    pub fn from_name(name: Option<&str>) -> (command: Command)
        ensures
            command == command_named(name_view(name)),
    {
        match name {
            Some(text) => {
                if same_text(text, "setup") {
                    Command::Setup
                } else if same_text(text, "logout") {
                    Command::Logout
                } else if same_text(text, "calendars") {
                    Command::Calendars
                } else if same_text(text, "meet") {
                    Command::Meet
                } else {
                    Command::List
                }
            },
            None => Command::List,
        }
    }

    /// Whether the command works on the calendar service.
    pub fn needs_service(&self) -> (needed: bool)
        ensures
            needed == self.uses_service(),
    {
        match self {
            Command::Setup => false,
            _ => true,
        }
    }
}

/// Each of the four subcommand names asks for its own command.
pub proof fn lemma_command_names()
    ensures
        command_named(Some("setup"@)) == Command::Setup,
        command_named(Some("logout"@)) == Command::Logout,
        command_named(Some("calendars"@)) == Command::Calendars,
        command_named(Some("meet"@)) == Command::Meet,
{
    reveal_strlit("setup");
    reveal_strlit("logout");
    reveal_strlit("calendars");
    reveal_strlit("meet");
    assert("logout"@.len() != "setup"@.len());
    assert("calendars"@.len() != "setup"@.len());
    assert("calendars"@.len() != "logout"@.len());
    assert("meet"@.len() != "setup"@.len());
    assert("meet"@.len() != "logout"@.len());
    assert("meet"@.len() != "calendars"@.len());
}

} // verus!
