use vstd::prelude::*;

verus! {

/// A pending user intent, sent by the host application over the command
/// bridge and consumed exactly once by the event loop.
pub enum OutboundCommand {
    /// Broadcast `text` on the node's fixed topic, tagged with the sending
    /// node's own identity.
    Broadcast { text: String, sender: String },
}

/// The mathematical content of a command: its text and its sender's
/// identity as character sequences.
pub struct CommandModel {
    pub text: Seq<char>,
    pub sender: Seq<char>,
}

impl OutboundCommand {
    /// What a command says, independent of string representation.
    pub open spec fn model(self) -> CommandModel {
        match self {
            OutboundCommand::Broadcast { text, sender } => CommandModel {
                text: text@,
                sender: sender@,
            },
        }
    }
}

/// Why a send on the command bridge was refused.
#[derive(PartialEq, Eq, Structural, Clone, Copy, Debug)]
pub enum BridgeError {
    /// The bridge already holds its full capacity of pending commands; the
    /// command was not enqueued and nothing already pending was dropped.
    Full,
    /// The receiving end of the bridge has shut down.
    Closed,
}

/// A network-side event surfaced to the event loop: the closed tagged
/// union of discovery events and gossip inbound-message events, consumed
/// by a single exhaustive match in the loop.
pub enum NetworkEvent {
    /// A peer announced itself on the local network.
    Discovered { peer: String, address: String },
    /// A known peer failed to renew its announcement within the timeout
    /// window.
    Expired { peer: String },
    /// A broadcast payload arrived from a connected peer on some topic.
    InboundMessage { topic: String, data: Vec<u8>, sender: String },
    /// Any other event kind: ignored, as a forward-compatible no-op.
    Unknown,
}

/// A delivered network event, handed to the event emitter for the host
/// application.
pub struct Notification {
    /// The message text, decoded from the wire payload.
    pub message: String,
    /// The sending peer's identity string.
    pub from: String,
}

/// Everything the event loop can wait on: a command from the host
/// application, or an event from the network.
pub enum LoopInput {
    Command(OutboundCommand),
    Network(NetworkEvent),
}

/// What one event-loop iteration asks its surroundings to do.
pub enum Effect {
    /// Send `payload` on `topic` to each peer in `recipients`, stamped
    /// with `sender` as the message source; fire and forget, per peer.
    Deliver { topic: String, payload: String, sender: String, recipients: Vec<String> },
    /// Hand `notification` to the event emitter, best effort.
    Notify { notification: Notification },
    /// Nothing to do outside the loop.
    Silent,
}

} // verus!
