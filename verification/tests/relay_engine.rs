use relay_bot::relay::{on_room_message, InboundMessage, MessageContent, RelayAction};
use relay_bot::routing::RoutingTable;

fn s(x: &str) -> String {
    x.to_owned()
}

fn linked_table() -> RoutingTable {
    let pairs = vec![(s("!r1:server"), s("!r2:server"))];
    let known = vec![s("!r1:server"), s("!r2:server")];
    RoutingTable::build(pairs, &known).expect("pairs are known and disjoint")
}

fn text_message(room: &str, sender: &str, display_name: Option<&str>, body: &str) -> InboundMessage {
    InboundMessage {
        room: s(room),
        sender: s(sender),
        display_name: display_name.map(s),
        content: MessageContent::Text(s(body)),
    }
}

#[test]
fn forwards_alice_hello_to_counterpart() {
    let table = linked_table();
    let msg = text_message("!r1:server", "@alice:server", Some("Alice"), "hello");
    match on_room_message(&table, &msg, &s("relaybot")) {
        RelayAction::Forward { room, body } => {
            assert_eq!(room, s("!r2:server"));
            assert_eq!(body, s("Alice: hello"));
        }
        _ => panic!("expected exactly one forward into the counterpart room"),
    }
}

#[test]
fn forward_goes_the_other_way_too() {
    let table = linked_table();
    let msg = text_message("!r2:server", "@bob:server", Some("Bob"), "hi");
    match on_room_message(&table, &msg, &s("relaybot")) {
        RelayAction::Forward { room, body } => {
            assert_eq!(room, s("!r1:server"));
            assert_eq!(body, s("Bob: hi"));
        }
        _ => panic!("expected a forward into the counterpart room"),
    }
}

#[test]
fn own_echo_is_not_relayed_again() {
    let table = linked_table();
    let msg = text_message("!r2:server", "@relaybot:server", Some("relaybot"), "Alice: hello");
    assert!(matches!(
        on_room_message(&table, &msg, &s("relaybot")),
        RelayAction::Ignore
    ));
}

#[test]
fn self_named_sender_never_sends() {
    let table = linked_table();
    let command = text_message("!r1:server", "@relaybot:server", Some("relaybot"), "!help");
    assert!(matches!(
        on_room_message(&table, &command, &s("relaybot")),
        RelayAction::Ignore
    ));
}

#[test]
fn raw_identifier_is_the_fallback_name() {
    let table = linked_table();
    let msg = text_message("!r1:server", "@alice:server", None, "hello");
    match on_room_message(&table, &msg, &s("relaybot")) {
        RelayAction::Forward { room, body } => {
            assert_eq!(room, s("!r2:server"));
            assert_eq!(body, s("@alice:server: hello"));
        }
        _ => panic!("expected a forward under the raw identifier"),
    }
}

#[test]
fn unlinked_room_is_isolated() {
    let table = linked_table();
    let msg = text_message("!elsewhere:server", "@alice:server", Some("Alice"), "hello");
    assert!(matches!(
        on_room_message(&table, &msg, &s("relaybot")),
        RelayAction::Ignore
    ));
}

#[test]
fn non_text_message_is_ignored() {
    let table = linked_table();
    let msg = InboundMessage {
        room: s("!r1:server"),
        sender: s("@alice:server"),
        display_name: Some(s("Alice")),
        content: MessageContent::Other,
    };
    assert!(matches!(
        on_room_message(&table, &msg, &s("relaybot")),
        RelayAction::Ignore
    ));
}

#[test]
fn command_replies_in_origin_room() {
    let table = linked_table();
    let msg = text_message("!r1:server", "@alice:server", Some("Alice"), "!relay");
    match on_room_message(&table, &msg, &s("relaybot")) {
        RelayAction::CommandReply { room, body } => {
            assert_eq!(room, s("!r1:server"));
            assert_eq!(body, s("Linking room: relay"));
        }
        _ => panic!("expected a command reply, not a relay"),
    }
}

#[test]
fn unknown_command_is_answered_not_relayed() {
    let table = linked_table();
    let msg = text_message("!r1:server", "@alice:server", Some("Alice"), "!frobnicate");
    match on_room_message(&table, &msg, &s("relaybot")) {
        RelayAction::CommandReply { room, body } => {
            assert_eq!(room, s("!r1:server"));
            assert_eq!(body, s("Command not found: frobnicate"));
        }
        _ => panic!("expected a command reply, not a relay"),
    }
}

#[test]
fn bare_bang_is_a_command_not_chat() {
    let table = linked_table();
    let msg = text_message("!r1:server", "@alice:server", Some("Alice"), "!");
    match on_room_message(&table, &msg, &s("relaybot")) {
        RelayAction::CommandReply { room, body } => {
            assert_eq!(room, s("!r1:server"));
            assert_eq!(body, s("Command not found: "));
        }
        _ => panic!("expected a command reply, not a relay"),
    }
}

#[test]
fn self_link_echoes_into_same_room() {
    let pairs = vec![(s("!echo:server"), s("!echo:server"))];
    let known = vec![s("!echo:server")];
    let table = RoutingTable::build(pairs, &known).expect("a self-pair is the degenerate echo mode");
    let msg = text_message("!echo:server", "@alice:server", Some("Alice"), "hello");
    match on_room_message(&table, &msg, &s("relaybot")) {
        RelayAction::Forward { room, body } => {
            assert_eq!(room, s("!echo:server"));
            assert_eq!(body, s("Alice: hello"));
        }
        _ => panic!("expected an echo into the same room"),
    }
}
