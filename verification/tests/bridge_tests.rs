use chat_node::bridge::CommandBridge;
use chat_node::events::BridgeError;
use chat_node::events::OutboundCommand;
use chat_node::node::submit_broadcast;

fn broadcast(text: &str, sender: &str) -> OutboundCommand {
    OutboundCommand::Broadcast { text: String::from(text), sender: String::from(sender) }
}

fn parts(cmd: OutboundCommand) -> (String, String) {
    match cmd {
        OutboundCommand::Broadcast { text, sender } => (text, sender),
    }
}

#[test]
fn commands_come_out_in_send_order() {
    let mut b = CommandBridge::new();
    assert!(b.send(broadcast("one", "A1")).is_ok());
    assert!(b.send(broadcast("two", "A1")).is_ok());
    assert!(b.send(broadcast("three", "A1")).is_ok());
    assert_eq!(parts(b.recv().unwrap()).0, "one");
    assert_eq!(parts(b.recv().unwrap()).0, "two");
    assert_eq!(parts(b.recv().unwrap()).0, "three");
    assert!(b.recv().is_none());
}

#[test]
fn bounded_bridge_refuses_the_101st_send() {
    let mut b = CommandBridge::new();
    for i in 0..100 {
        let r = b.send(broadcast(&format!("m{}", i), "A1"));
        assert!(r.is_ok());
    }
    assert_eq!(b.len(), 100);
    let overflow = b.send(broadcast("m100", "A1"));
    assert_eq!(overflow, Err(BridgeError::Full));
    // nothing already pending was dropped, and order is kept
    for i in 0..100 {
        let (text, _) = parts(b.recv().unwrap());
        assert_eq!(text, format!("m{}", i));
    }
    assert!(b.recv().is_none());
}

#[test]
fn closed_bridge_refuses_sends_but_drains() {
    let mut b = CommandBridge::new();
    assert!(b.send(broadcast("pending", "A1")).is_ok());
    b.close();
    assert_eq!(b.send(broadcast("late", "A1")), Err(BridgeError::Closed));
    let (text, _) = parts(b.recv().unwrap());
    assert_eq!(text, "pending");
    assert!(b.recv().is_none());
}

#[test]
fn submit_broadcast_tags_the_callers_identity() {
    let mut b = CommandBridge::new();
    let me = String::from("A1");
    assert!(submit_broadcast(&mut b, &me, String::from("hi")).is_ok());
    let (text, sender) = parts(b.recv().unwrap());
    assert_eq!(text, "hi");
    assert_eq!(sender, "A1");
}

#[test]
fn submit_broadcast_reports_a_full_bridge() {
    let mut b = CommandBridge::new();
    let me = String::from("A1");
    for _ in 0..100 {
        assert!(submit_broadcast(&mut b, &me, String::from("x")).is_ok());
    }
    assert_eq!(submit_broadcast(&mut b, &me, String::from("x")), Err(BridgeError::Full));
}
