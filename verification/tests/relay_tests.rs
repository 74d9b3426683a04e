use remotedesk::relay::{trim, RelayAction, RelayRegistry};

fn reply_of(d: &remotedesk::relay::RelayDecision) -> String {
    d.reply.clone().unwrap_or_default()
}

#[test]
fn register_then_connect_bridges() {
    let mut reg = RelayRegistry::new();
    let d1 = reg.handle(1, b"REGISTER host-a\n");
    assert_eq!(reply_of(&d1), "REGISTER_OK waiting\n");
    assert_eq!(d1.action, RelayAction::Wait);
    assert!(d1.peer_reply.is_none());
    let d2 = reg.handle(2, b"CONNECT host-a\n");
    assert_eq!(reply_of(&d2), "CONNECT_OK paired\n");
    assert_eq!(d2.peer_reply, Some("REGISTER_OK paired\n".to_string()));
    assert_eq!(d2.action, RelayAction::Bridge(1, 2));
    // The host is no longer waiting.
    let d3 = reg.handle(3, b"CONNECT host-a\n");
    assert_eq!(reply_of(&d3), "CONNECT_ERR not found\n");
}

#[test]
fn connect_to_unknown_host_is_refused() {
    let mut reg = RelayRegistry::new();
    let d1 = reg.handle(5, b"CONNECT rd-x\n");
    assert_eq!(reply_of(&d1), "CONNECT_ERR not found\n");
    assert_eq!(d1.action, RelayAction::Close);
    assert!(d1.peer_reply.is_none());
    // Nothing was left waiting: the host that registers next waits.
    let d2 = reg.handle(6, b"  REGISTER   rd-x  \r\n");
    assert_eq!(reply_of(&d2), "REGISTER_OK waiting\n");
    assert_eq!(d2.action, RelayAction::Wait);
    assert_eq!(d2.displaced, None);
}

#[test]
fn relay_tokens_pair() {
    let mut reg = RelayRegistry::new();
    assert_eq!(reply_of(&reg.handle(1, b"RELAY tok")), "RELAY_OK waiting\n");
    let d = reg.handle(2, b"RELAY tok");
    assert_eq!(reply_of(&d), "RELAY_OK paired\n");
    assert!(d.peer_reply.is_none());
    assert_eq!(d.action, RelayAction::Bridge(2, 1));
}

#[test]
fn re_register_displaces_waiting_host() {
    let mut reg = RelayRegistry::new();
    reg.handle(1, b"REGISTER h");
    let d = reg.handle(2, b"REGISTER h");
    assert_eq!(d.displaced, Some(1));
    assert_eq!(reg.handle(3, b"CONNECT h").action, RelayAction::Bridge(2, 3));
}

#[test]
fn unknown_and_empty_commands() {
    let mut reg = RelayRegistry::new();
    let d = reg.handle(1, b"HELLO");
    assert_eq!(reply_of(&d), "ERROR unknown command\n");
    assert_eq!(d.action, RelayAction::Close);
    let d = reg.handle(1, b"REGISTER   ");
    assert_eq!(reply_of(&d), "ERROR unknown command\n");
    let d = reg.handle(1, b"");
    assert!(d.reply.is_none());
    assert_eq!(d.action, RelayAction::Close);
    // Invalid UTF-8 is decoded lossily and is no command.
    let d = reg.handle(1, &[0xff, 0xfe, b'R']);
    assert_eq!(reply_of(&d), "ERROR unknown command\n");
}

#[test]
fn trim_removes_unicode_whitespace() {
    assert_eq!(trim("\u{3000} a b \t\n"), "a b");
    assert_eq!(trim("   "), "");
    assert_eq!(trim("x"), "x");
}
