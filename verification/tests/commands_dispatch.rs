use relay_bot::commands::dispatch_command;

fn s(x: &str) -> String {
    x.to_owned()
}

#[test]
fn relay_command_is_recognized() {
    assert_eq!(dispatch_command(&s("relay")), s("Linking room: relay"));
}

#[test]
fn unrecognized_command_is_reported() {
    assert_eq!(dispatch_command(&s("unlink")), s("Command not found: unlink"));
}

#[test]
fn empty_command_is_not_found() {
    assert_eq!(dispatch_command(&s("")), s("Command not found: "));
}
