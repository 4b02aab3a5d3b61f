//! Core of a local-network peer-to-peer chat node.
//!
//! The node discovers other instances of itself on the same network
//! segment, exchanges messages with them over a topic-scoped flood
//! broadcast, and bridges those messages to and from a host application.
//! This crate holds the node's verified logic: the bounded command
//! bridge, the discovery-event coalescing, the per-topic partial view,
//! the gossip bookkeeping, and the event-loop state machine that ties
//! them together.  The network protocols themselves (transport, mdns,
//! flood forwarding) are external collaborators, driven by the
//! surrounding application through the `Effect` values the loop emits.

pub mod bridge;
pub mod discovery;
pub mod events;
pub mod gossip;
pub mod identity;
pub mod node;
pub mod view;
