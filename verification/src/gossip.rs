use vstd::prelude::*;
use crate::events::Effect;
use crate::events::Notification;
use crate::view::PartialView;
use crate::view::distinct_views;
use crate::view::has_view;

verus! {

/// What `String::from_utf8_lossy` decodes the given bytes to.
pub uninterp spec fn lossy_decode_of(bytes: Seq<u8>) -> Seq<char>;

/// Relies on String::from_utf8_lossy: the decoded text is a function of
/// the bytes alone (invalid sequences become replacement characters).
#[verifier::external_body]
fn utf8_lossy(data: &[u8]) -> (r: String)
    ensures
        r@ == lossy_decode_of(data@),
{
    String::from_utf8_lossy(data).into_owned()
}

/// The gossip broadcast service's bookkeeping: which topics this node is
/// interested in, and the per-topic partial view of peers to forward to.
/// The service never touches the network itself; a publish names its
/// recipients in an `Effect` and the surrounding application sends.
pub struct Gossip {
    subs: Vec<String>,
    view: PartialView,
}

impl Gossip {
    /// Whether this node has subscribed to `topic`.
    pub closed spec fn subscribed(self, topic: Seq<char>) -> bool {
        has_view(self.subs@, topic)
    }

    /// Whether `peer` is in `topic`'s partial view.
    pub closed spec fn member(self, topic: Seq<char>, peer: Seq<char>) -> bool {
        self.view.member(topic, peer)
    }

    pub closed spec fn wf(self) -> bool {
        self.view.wf() && distinct_views(self.subs@)
    }

    /// A fresh service: no subscriptions, an empty view.
    pub fn new() -> (g: Gossip)
        ensures
            g.wf(),
            forall|t: Seq<char>| !g.subscribed(t),
            forall|t: Seq<char>, p: Seq<char>| !g.member(t, p),
    {
        Gossip { subs: Vec::new(), view: PartialView::new() }
    }

    /// Mark this node as interested in `topic`.  Idempotent; the partial
    /// view is untouched.
    pub fn subscribe(&mut self, topic: &String)
        requires
            old(self).wf(),
        ensures
            final(self).wf(),
            forall|t: Seq<char>|
                #[trigger] final(self).subscribed(t) <==> (old(self).subscribed(t) || t == topic@),
            forall|t: Seq<char>, p: Seq<char>|
                #[trigger] final(self).member(t, p) == old(self).member(t, p),
    {
        let mut i: usize = 0;
        while i < self.subs.len()
            invariant
                self == old(self),
                old(self).wf(),
                i <= self.subs@.len(),
                forall|k: int| 0 <= k < i ==> (#[trigger] self.subs@[k]@) != topic@,
            decreases self.subs@.len() - i,
        {
            if self.subs[i] == *topic {
                proof {
                    assert(has_view(self.subs@, topic@));
                }
                return ;
            }
            i = i + 1;
        }
        let ghost before = self.subs@;
        self.subs.push(topic.clone());
        proof {
            let n = before.len() as int;
            assert(self.subs@[n]@ == topic@);
            assert forall|t: Seq<char>| #[trigger]
                has_view(self.subs@, t) implies (has_view(before, t) || t == topic@) by {
                let j = choose|j: int| 0 <= j < self.subs@.len() && (#[trigger] self.subs@[j]@)
                    == t;
                if j < n {
                    assert(before[j]@ == t);
                }
            }
            assert forall|t: Seq<char>| has_view(before, t) implies #[trigger]
                has_view(self.subs@, t) by {
                let j = choose|j: int| 0 <= j < before.len() && (#[trigger] before[j]@) == t;
                assert(self.subs@[j]@ == t);
            }
            assert forall|a: int, b: int| 0 <= a < b < self.subs@.len() implies (
            #[trigger] self.subs@[a]@) != (#[trigger] self.subs@[b]@) by {
                if b == n {
                    assert(before[a]@ != topic@);
                }
            }
        }
    }

    /// Whether this node has subscribed to `topic`.
    pub fn is_subscribed(&self, topic: &String) -> (r: bool)
        ensures
            r == self.subscribed(topic@),
    {
        let mut i: usize = 0;
        while i < self.subs.len()
            invariant
                i <= self.subs@.len(),
                forall|k: int| 0 <= k < i ==> (#[trigger] self.subs@[k]@) != topic@,
            decreases self.subs@.len() - i,
        {
            if self.subs[i] == *topic {
                proof {
                    assert(has_view(self.subs@, topic@));
                }
                return true;
            }
            i = i + 1;
        }
        false
    }

    /// Add `peer` to `topic`'s partial view (idempotent).
    pub fn add_to_partial_view(&mut self, topic: &String, peer: &String)
        requires
            old(self).wf(),
        ensures
            final(self).wf(),
            forall|t: Seq<char>, p: Seq<char>|
                #[trigger] final(self).member(t, p) <==> (old(self).member(t, p) || (t == topic@
                    && p == peer@)),
            forall|t: Seq<char>|
                #[trigger] final(self).subscribed(t) == old(self).subscribed(t),
    {
        self.view.add(topic, peer);
    }

    /// Remove `peer` from `topic`'s partial view.
    pub fn remove_from_partial_view(&mut self, topic: &String, peer: &String)
        requires
            old(self).wf(),
        ensures
            final(self).wf(),
            forall|t: Seq<char>, p: Seq<char>|
                #[trigger] final(self).member(t, p) <==> (old(self).member(t, p) && !(t == topic@
                    && p == peer@)),
            forall|t: Seq<char>|
                #[trigger] final(self).subscribed(t) == old(self).subscribed(t),
    {
        self.view.remove(topic, peer);
    }

    /// Publish `payload` on `topic` as `sender`: name, exactly once each,
    /// every peer currently in the topic's partial view as a recipient --
    /// and nobody else.  Fire-and-forget: delivery to an unreachable
    /// recipient is the surrounding application's per-peer, non-fatal
    /// concern.
    pub fn publish(&self, topic: &String, payload: &String, sender: &String) -> (e: Effect)
        requires
            self.wf(),
        ensures
            e matches Effect::Deliver { topic: t, payload: x, sender: s, recipients } && t@
                == topic@ && x@ == payload@ && s@ == sender@ && distinct_views(recipients@) && (
            forall|p: Seq<char>| has_view(recipients@, p) <==> self.member(topic@, p)),
    {
        let recipients = self.view.peers_of(topic);
        Effect::Deliver {
            topic: topic.clone(),
            payload: payload.clone(),
            sender: sender.clone(),
            recipients,
        }
    }

    /// Handle a broadcast payload that arrived from a connected peer:
    /// surface it, exactly once per arrival, as a notification tagged
    /// with the declared sender -- but only for a topic this node
    /// subscribed to.  No de-duplication across arrivals is performed:
    /// whether flood re-forwarding may hand the same payload to the same
    /// subscriber twice is a protocol decision left open here.
    pub fn handle_inbound(&self, topic: &String, data: &[u8], sender: &String) -> (r: Option<
        Notification,
    >)
        ensures
            self.subscribed(topic@) ==> (r matches Some(n) && n.message@ == lossy_decode_of(data@)
                && n.from@ == sender@),
            !self.subscribed(topic@) ==> r is None,
    {
        if self.is_subscribed(topic) {
            Some(Notification { message: utf8_lossy(data), from: sender.clone() })
        } else {
            None
        }
    }
}

} // verus!
