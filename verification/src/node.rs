use vstd::prelude::*;
use crate::bridge::CommandBridge;
use crate::events::BridgeError;
use crate::events::CommandModel;
use crate::events::Effect;
use crate::events::LoopInput;
use crate::events::NetworkEvent;
use crate::events::OutboundCommand;
use crate::gossip::Gossip;
use crate::gossip::lossy_decode_of;
use crate::view::distinct_views;
use crate::view::has_view;

verus! {

/// The event loop's state: this node's identity, its single fixed topic,
/// and the gossip bookkeeping it drives.  Exactly one logical owner
/// mutates a `Node`: the loop that calls `step`.
pub struct Node {
    identity: String,
    topic: String,
    gossip: Gossip,
}

impl Node {
    /// This node's own identity string.
    pub closed spec fn identity_view(self) -> Seq<char> {
        self.identity@
    }

    /// The single fixed topic this node speaks.
    pub closed spec fn topic_view(self) -> Seq<char> {
        self.topic@
    }

    /// Whether this node has subscribed to `t`.
    pub closed spec fn subscribed(self, t: Seq<char>) -> bool {
        self.gossip.subscribed(t)
    }

    /// Whether `p` is in `t`'s partial view.
    pub closed spec fn in_view(self, t: Seq<char>, p: Seq<char>) -> bool {
        self.gossip.member(t, p)
    }

    pub closed spec fn wf(self) -> bool {
        self.gossip.wf()
    }

    /// The fixed topic's forwarding set, as a set of peer identities.
    pub open spec fn view_set(self) -> Set<Seq<char>> {
        Set::new(|p: Seq<char>| self.in_view(self.topic_view(), p))
    }

    /// A node at startup: it knows its identity, subscribes to its fixed
    /// topic, and forwards to nobody yet.
    pub fn new(identity: String, topic: String) -> (n: Node)
        ensures
            n.wf(),
            n.identity_view() == identity@,
            n.topic_view() == topic@,
            forall|t: Seq<char>| #[trigger] n.subscribed(t) <==> t == topic@,
            forall|t: Seq<char>, p: Seq<char>| !n.in_view(t, p),
    {
        let mut gossip = Gossip::new();
        gossip.subscribe(&topic);
        Node { identity, topic, gossip }
    }

    /// This node's identity string.
    pub fn identity(&self) -> (r: &String)
        ensures
            r@ == self.identity_view(),
    {
        &self.identity
    }

    /// The fixed topic's name.
    pub fn topic(&self) -> (r: &String)
        ensures
            r@ == self.topic_view(),
    {
        &self.topic
    }

    /// One event-loop iteration: consume exactly one input -- a command
    /// from the bridge, or a network event -- update the bookkeeping, and
    /// return what the surroundings must do.  One input per iteration is
    /// the loop's serialization point: no two publishes and no two
    /// notifications ever race inside it.
    pub fn step(&mut self, input: LoopInput) -> (e: Effect)
        requires
            old(self).wf(),
        ensures
            step_post(*old(self), input, *final(self), e),
    {
        match input {
            LoopInput::Command(OutboundCommand::Broadcast { text, sender }) => {
                self.gossip.publish(&self.topic, &text, &sender)
            },
            LoopInput::Network(ev) => {
                match ev {
                    NetworkEvent::Discovered { peer, address: _ } => {
                        self.gossip.add_to_partial_view(&self.topic, &peer);
                        Effect::Silent
                    },
                    NetworkEvent::Expired { peer } => {
                        self.gossip.remove_from_partial_view(&self.topic, &peer);
                        Effect::Silent
                    },
                    NetworkEvent::InboundMessage { topic, data, sender } => {
                        match self.gossip.handle_inbound(&topic, data.as_slice(), &sender) {
                            Some(n) => Effect::Notify { notification: n },
                            None => Effect::Silent,
                        }
                    },
                    NetworkEvent::Unknown => Effect::Silent,
                }
            },
        }
    }
}

/// The two states agree on identity, topic, and subscriptions, and the
/// later one is well-formed.
pub open spec fn same_bookkeeping(pre: Node, post: Node) -> bool {
    &&& post.wf()
    &&& post.identity_view() == pre.identity_view()
    &&& post.topic_view() == pre.topic_view()
    &&& forall|t: Seq<char>| #[trigger] post.subscribed(t) == pre.subscribed(t)
}

/// The two states' partial views hold exactly the same members.
pub open spec fn same_members(pre: Node, post: Node) -> bool {
    forall|t: Seq<char>, p: Seq<char>| #[trigger] post.in_view(t, p) == pre.in_view(t, p)
}

/// What one event-loop iteration does, for every input kind:
/// - a broadcast command leaves the view alone and asks for delivery of
///   its text, stamped with its sender, to exactly the fixed topic's
///   current partial view (fan-out);
/// - a discovered peer joins the fixed topic's view, an expired peer
///   leaves it, silently;
/// - an inbound message on a subscribed topic becomes exactly one
///   notification carrying its decoded text and declared sender; on any
///   other topic it is dropped;
/// - an unknown event is a no-op.
pub open spec fn step_post(pre: Node, input: LoopInput, post: Node, e: Effect) -> bool {
    &&& same_bookkeeping(pre, post)
    &&& match input {
        LoopInput::Command(OutboundCommand::Broadcast { text, sender }) => {
            &&& same_members(pre, post)
            &&& (e matches Effect::Deliver { topic, payload, sender: s, recipients } && topic@
                == pre.topic_view() && payload@ == text@ && s@ == sender@ && distinct_views(
                recipients@,
            ) && (forall|p: Seq<char>|
                has_view(recipients@, p) <==> pre.in_view(pre.topic_view(), p)))
        },
        LoopInput::Network(ev) => match ev {
            NetworkEvent::Discovered { peer, address: _ } => {
                &&& forall|t: Seq<char>, p: Seq<char>|
                    #[trigger] post.in_view(t, p) <==> (pre.in_view(t, p) || (t == pre.topic_view()
                        && p == peer@))
                &&& e is Silent
            },
            NetworkEvent::Expired { peer } => {
                &&& forall|t: Seq<char>, p: Seq<char>|
                    #[trigger] post.in_view(t, p) <==> (pre.in_view(t, p) && !(t
                        == pre.topic_view() && p == peer@))
                &&& e is Silent
            },
            NetworkEvent::InboundMessage { topic, data, sender } => {
                &&& same_members(pre, post)
                &&& pre.subscribed(topic@) ==> (e matches Effect::Notify { notification }
                    && notification.message@ == lossy_decode_of(data@) && notification.from@
                    == sender@)
                &&& !pre.subscribed(topic@) ==> e is Silent
            },
            NetworkEvent::Unknown => {
                &&& same_members(pre, post)
                &&& e is Silent
            },
        },
    }
}

/// Host-facing command surface: enqueue a broadcast of `message`, tagged
/// with this node's own identity as the sender.  Succeeds exactly when
/// the bridge is open and below capacity; the failure says which.
pub fn submit_broadcast(bridge: &mut CommandBridge, identity: &String, message: String) -> (r:
    Result<(), BridgeError>)
    requires
        old(bridge).wf(),
    ensures
        final(bridge).wf(),
        final(bridge).is_closed() == old(bridge).is_closed(),
        old(bridge).is_closed() ==> r == Err::<(), BridgeError>(BridgeError::Closed)
            && final(bridge).pending() == old(bridge).pending(),
        !old(bridge).is_closed() && old(bridge).pending().len() >= crate::bridge::BRIDGE_CAPACITY
            ==> r == Err::<(), BridgeError>(BridgeError::Full) && final(bridge).pending() == old(
        bridge).pending(),
        !old(bridge).is_closed() && old(bridge).pending().len() < crate::bridge::BRIDGE_CAPACITY
            ==> r == Ok::<(), BridgeError>(()) && final(bridge).pending() == old(
        bridge).pending().push(CommandModel { text: message@, sender: identity@ }),
{
    bridge.send(OutboundCommand::Broadcast { text: message, sender: identity.clone() })
}

/// The identities named in a recipient list.
pub open spec fn recipient_set(rs: Seq<String>) -> Set<Seq<char>> {
    Set::new(|p: Seq<char>| has_view(rs, p))
}

/// Delivery fan-out law: a broadcast command's delivery names as its
/// recipients exactly the fixed topic's partial view at that moment --
/// every member receives the payload, and nobody else receives it via
/// this node.
pub proof fn lemma_delivery_fanout(pre: Node, input: LoopInput, post: Node, e: Effect)
    requires
        step_post(pre, input, post, e),
        input is Command,
    ensures
        e is Deliver,
        e matches Effect::Deliver { recipients, .. } ==> recipient_set(recipients@)
            == pre.view_set(),
{
    match input {
        LoopInput::Command(OutboundCommand::Broadcast { text: _, sender: _ }) => {
            match e {
                Effect::Deliver { topic: _, payload: _, sender: _, recipients } => {
                    assert(recipient_set(recipients@) =~= pre.view_set());
                },
                _ => {
                },
            }
        },
        _ => {
        },
    }
}

/// The fixed topic's view after one input, as the discovery events alone
/// predict it: a discovered peer joins, an expired peer leaves, nothing
/// else touches it.
pub open spec fn view_set_after(s: Set<Seq<char>>, input: LoopInput) -> Set<Seq<char>> {
    match input {
        LoopInput::Network(NetworkEvent::Discovered { peer, address: _ }) => s.insert(peer@),
        LoopInput::Network(NetworkEvent::Expired { peer }) => s.remove(peer@),
        _ => s,
    }
}

/// One loop iteration moves the fixed topic's view exactly as the
/// discovery events say.
pub proof fn lemma_step_tracks_discovery(pre: Node, input: LoopInput, post: Node, e: Effect)
    requires
        step_post(pre, input, post, e),
    ensures
        post.view_set() == view_set_after(pre.view_set(), input),
{
    assert(post.view_set() =~= view_set_after(pre.view_set(), input));
}

/// The fixed topic's view after a whole sequence of inputs.
pub open spec fn view_set_after_all(s: Set<Seq<char>>, inputs: Seq<LoopInput>) -> Set<Seq<char>>
    decreases inputs.len(),
{
    if inputs.len() == 0 {
        s
    } else {
        view_set_after(view_set_after_all(s, inputs.drop_last()), inputs.last())
    }
}

/// Whether, going by the discovery events in `inputs`, peer `p` ends up
/// present: the most recent event naming `p` decides; with none, its
/// initial presence stands.
pub open spec fn live_after(inputs: Seq<LoopInput>, p: Seq<char>, initially: bool) -> bool
    decreases inputs.len(),
{
    if inputs.len() == 0 {
        initially
    } else {
        match inputs.last() {
            LoopInput::Network(NetworkEvent::Discovered { peer, address: _ }) => if peer@ == p {
                true
            } else {
                live_after(inputs.drop_last(), p, initially)
            },
            LoopInput::Network(NetworkEvent::Expired { peer }) => if peer@ == p {
                false
            } else {
                live_after(inputs.drop_last(), p, initially)
            },
            _ => live_after(inputs.drop_last(), p, initially),
        }
    }
}

/// View consistency law: after the event loop processes `inputs`, a peer
/// is in the fixed topic's partial view iff its most recent discovery
/// event there was `Discovered` (not yet followed by `Expired`) -- or no
/// discovery event named it and it was in the view at the start.  Every
/// discovered peer counts as subscribed to the node's single fixed topic,
/// which it joins on discovery.
pub proof fn lemma_view_consistency(s: Set<Seq<char>>, inputs: Seq<LoopInput>, p: Seq<char>)
    ensures
        view_set_after_all(s, inputs).contains(p) == live_after(inputs, p, s.contains(p)),
    decreases inputs.len(),
{
    if inputs.len() > 0 {
        lemma_view_consistency(s, inputs.drop_last(), p);
    }
}

} // verus!
