use chat_node::bridge::CommandBridge;
use chat_node::events::Effect;
use chat_node::events::LoopInput;
use chat_node::events::NetworkEvent;
use chat_node::node::Node;
use chat_node::node::submit_broadcast;

fn discovered(peer: &str) -> LoopInput {
    LoopInput::Network(NetworkEvent::Discovered {
        peer: String::from(peer),
        address: String::from("/ip4/192.168.1.7/tcp/4001"),
    })
}

fn expired(peer: &str) -> LoopInput {
    LoopInput::Network(NetworkEvent::Expired { peer: String::from(peer) })
}

fn inbound(topic: &str, data: &[u8], sender: &str) -> LoopInput {
    LoopInput::Network(NetworkEvent::InboundMessage {
        topic: String::from(topic),
        data: data.to_vec(),
        sender: String::from(sender),
    })
}

#[test]
fn round_trip_between_two_nodes() {
    // Node A (identity A1) and node B start on the same network.
    let mut a = Node::new(String::from("A1"), String::from("chat"));
    let mut b = Node::new(String::from("B1"), String::from("chat"));
    assert_eq!(a.identity().as_str(), "A1");
    assert_eq!(a.topic().as_str(), "chat");
    let mut a_bridge = CommandBridge::new();

    // discovery settles: each node learns of the other
    assert!(matches!(a.step(discovered("B1")), Effect::Silent));
    assert!(matches!(b.step(discovered("A1")), Effect::Silent));

    // the host application on A broadcasts "hi"
    assert!(submit_broadcast(&mut a_bridge, &String::from("A1"), String::from("hi")).is_ok());
    let cmd = a_bridge.recv().unwrap();

    // A's event loop publishes to exactly its partial view: B
    let (payload, sender, recipients) = match a.step(LoopInput::Command(cmd)) {
        Effect::Deliver { topic, payload, sender, recipients } => {
            assert_eq!(topic, "chat");
            (payload, sender, recipients)
        },
        _ => panic!("a broadcast command must ask for delivery"),
    };
    assert_eq!(recipients, vec![String::from("B1")]);

    // the wire carries the payload to B, which emits exactly one
    // notification {type:"message", message:"hi", from:"A1"}
    let mut notifications = Vec::new();
    match b.step(inbound("chat", payload.as_bytes(), &sender)) {
        Effect::Notify { notification } => notifications.push(notification),
        _ => panic!("an inbound chat message must be surfaced"),
    }
    assert_eq!(notifications.len(), 1);
    assert_eq!(notifications[0].message, "hi");
    assert_eq!(notifications[0].from, "A1");
}

#[test]
fn expiry_empties_the_view_and_broadcast_still_works() {
    // B stops responding to discovery renewals; after the timeout window
    // A's view for "chat" no longer holds B, and broadcasting is no error.
    let mut a = Node::new(String::from("A1"), String::from("chat"));
    let mut a_bridge = CommandBridge::new();
    a.step(discovered("B1"));
    assert!(matches!(a.step(expired("B1")), Effect::Silent));

    assert!(submit_broadcast(&mut a_bridge, &String::from("A1"), String::from("anyone?")).is_ok());
    let cmd = a_bridge.recv().unwrap();
    match a.step(LoopInput::Command(cmd)) {
        Effect::Deliver { recipients, .. } => assert!(recipients.is_empty()),
        _ => panic!("a broadcast command must ask for delivery"),
    }
}

#[test]
fn rediscovered_peer_is_forwarded_to_again() {
    let mut a = Node::new(String::from("A1"), String::from("chat"));
    a.step(discovered("B1"));
    a.step(expired("B1"));
    a.step(discovered("B1"));
    let cmd = LoopInput::Command(chat_node::events::OutboundCommand::Broadcast {
        text: String::from("back?"),
        sender: String::from("A1"),
    });
    match a.step(cmd) {
        Effect::Deliver { recipients, .. } => assert_eq!(recipients, vec![String::from("B1")]),
        _ => panic!("a broadcast command must ask for delivery"),
    }
}

#[test]
fn duplicate_discovery_adds_the_peer_once() {
    let mut a = Node::new(String::from("A1"), String::from("chat"));
    a.step(discovered("B1"));
    a.step(discovered("B1"));
    let cmd = LoopInput::Command(chat_node::events::OutboundCommand::Broadcast {
        text: String::from("x"),
        sender: String::from("A1"),
    });
    match a.step(cmd) {
        Effect::Deliver { recipients, .. } => assert_eq!(recipients, vec![String::from("B1")]),
        _ => panic!("a broadcast command must ask for delivery"),
    }
}

#[test]
fn inbound_message_on_an_unsubscribed_topic_is_dropped() {
    let mut a = Node::new(String::from("A1"), String::from("chat"));
    a.step(discovered("B1"));
    assert!(matches!(a.step(inbound("news", b"psst", "B1")), Effect::Silent));
}

#[test]
fn unknown_events_are_ignored() {
    let mut a = Node::new(String::from("A1"), String::from("chat"));
    assert!(matches!(a.step(LoopInput::Network(NetworkEvent::Unknown)), Effect::Silent));
}
