//! The command dispatcher: "!"-prefixed message bodies are bot commands, not
//! chat traffic. A command token maps to a reply body; unrecognized commands
//! get a "Command not found" reply.

use vstd::prelude::*;
use vstd::string::*;

verus! {

/// The reply body produced for a command token.
pub open spec fn spec_dispatch(command: Seq<char>) -> Seq<char> {
    if command == "relay"@ {
        "Linking room: "@ + command
    } else {
        "Command not found: "@ + command
    }
}

/// Map a command token (the message body with its leading "!" removed) to the
/// body of the reply the bot posts back into the origin room.
pub fn dispatch_command(command: &String) -> (reply: String)
    ensures
        reply@ == spec_dispatch(command@),
{
    let relay_name = String::from_str("relay");
    if *command == relay_name {
        String::from_str("Linking room: ").concat(command.as_str())
    } else {
        String::from_str("Command not found: ").concat(command.as_str())
    }
}

} // verus!
