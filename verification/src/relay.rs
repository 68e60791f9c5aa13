//! The event-driven relay core: for every inbound room message, consult the
//! routing table, filter out the bot's own traffic and non-text events, route
//! "!"-prefixed bodies to the command dispatcher, and otherwise produce
//! exactly one outbound send to the linked counterpart room, with the body
//! formatted as "sender: body".

use crate::commands::{dispatch_command, spec_dispatch};
use crate::routing::RoutingTable;
use vstd::prelude::*;
use vstd::string::*;

verus! {

/// What an inbound room event carries, as far as relaying cares.
pub enum MessageContent {
    /// A plain text body: the only kind that is relayed.
    Text(String),
    /// Any other message kind (image, notice, membership chatter, ...).
    Other,
}

/// One inbound room message, consumed once per delivery.
pub struct InboundMessage {
    /// The room the message arrived in.
    pub room: String,
    /// The sender's raw identifier.
    pub sender: String,
    /// The sender's display name in that room, if one is set.
    pub display_name: Option<String>,
    /// The message payload.
    pub content: MessageContent,
}

/// What the engine decides to do with one inbound message. Each variant
/// carries at most one outbound send, so one inbound event can never fan out
/// into several.
pub enum RelayAction {
    /// No outbound send at all.
    Ignore,
    /// Post a command reply back into the room the command came from.
    CommandReply { room: String, body: String },
    /// Forward the formatted body to the linked counterpart room.
    Forward { room: String, body: String },
}

/// The name the engine shows for a sender: the display name, falling back to
/// the raw identifier if none is set.
pub open spec fn spec_sender_name(msg: &InboundMessage) -> Seq<char> {
    match msg.display_name {
        Some(d) => d@,
        None => msg.sender@,
    }
}

/// The text body of a message, if it is a text message.
pub open spec fn spec_text_body(msg: &InboundMessage) -> Option<Seq<char>> {
    match msg.content {
        MessageContent::Text(b) => Some(b@),
        MessageContent::Other => None,
    }
}

/// Whether a body addresses the bot rather than the other room: it starts
/// with the command prefix "!".
pub open spec fn spec_is_command(body: Seq<char>) -> bool {
    body.len() > 0 && body[0] == '!'
}

/// Whether a message is a text message whose body is a command.
pub open spec fn spec_is_command_msg(msg: &InboundMessage) -> bool {
    spec_text_body(msg) matches Some(body) && spec_is_command(body)
}

/// How many outbound sends an action carries: never more than one, so one
/// inbound event can never be relayed twice.
pub open spec fn spec_outbound_sends(r: RelayAction) -> nat {
    match r {
        RelayAction::Ignore => 0,
        RelayAction::CommandReply { .. } => 1,
        RelayAction::Forward { .. } => 1,
    }
}

/// The outbound body a relayed message gets: "sender: body".
pub open spec fn spec_forward_body(name: Seq<char>, body: Seq<char>) -> Seq<char> {
    name + ": "@ + body
}

/// The full decision the relay engine owes for one inbound message: which
/// action is produced, on every input.
pub open spec fn spec_relay_decision(
    table_map: Map<Seq<char>, Seq<char>>,
    msg: &InboundMessage,
    username: Seq<char>,
    r: RelayAction,
) -> bool {
    match spec_text_body(msg) {
        None => r is Ignore,
        Some(body) => if !table_map.contains_key(msg.room@) {
            r is Ignore
        } else if spec_sender_name(msg) == username {
            r is Ignore
        } else if spec_is_command(body) {
            match r {
                RelayAction::CommandReply { room, body: reply } => room@ == msg.room@ && reply@
                    == spec_dispatch(body.skip(1)),
                _ => false,
            }
        } else {
            match r {
                RelayAction::Forward { room, body: out } => room@ == table_map[msg.room@] && out@
                    == spec_forward_body(spec_sender_name(msg), body),
                _ => false,
            }
        },
    }
}

/// Decide what to do with one inbound room message.
///
/// The decision, in order: a message from a room outside the routing table
/// is ignored (isolation); a non-text message is ignored; a message whose
/// sender name equals the bot's own username is ignored (no relay loops); a
/// "!"-prefixed body is answered by the command dispatcher in the origin
/// room; everything else is forwarded to the linked counterpart room, once.
pub fn on_room_message(table: &RoutingTable, msg: &InboundMessage, username: &String) -> (r:
    RelayAction)
    requires
        table.wf(),
    ensures
        spec_relay_decision(table@, msg, username@, r),
        !table@.contains_key(msg.room@) ==> r is Ignore,
        spec_text_body(msg) is None ==> r is Ignore,
        spec_sender_name(msg) == username@ ==> r is Ignore,
        spec_is_command_msg(msg) ==> !(r is Forward),
        spec_outbound_sends(r) <= 1,
{
    if !table.contains(&msg.room) {
        return RelayAction::Ignore;
    }
    let body: &String = match &msg.content {
        MessageContent::Text(b) => b,
        MessageContent::Other => { return RelayAction::Ignore },
    };
    let name: &String = match &msg.display_name {
        Some(d) => d,
        None => &msg.sender,
    };
    if *name == *username {
        return RelayAction::Ignore;
    }
    let body_str = body.as_str();
    let body_len = body_str.unicode_len();
    if body_len > 0 && body_str.get_char(0) == '!' {
        let command = String::from_str(body_str.substring_char(1, body_len));
        proof {
            assert(command@ =~= body@.skip(1));
        }
        let reply = dispatch_command(&command);
        return RelayAction::CommandReply { room: msg.room.clone(), body: reply };
    }
    let dest: &String = match table.lookup(&msg.room) {
        Some(d) => d,
        None => {
            // Unreachable: the room was found in the table above.
            proof {
                assert(false);
            }
            return RelayAction::Ignore;
        },
    };
    let out = String::from_str(name.as_str()).concat(": ").concat(body.as_str());
    RelayAction::Forward { room: dest.clone(), body: out }
}

} // verus!
