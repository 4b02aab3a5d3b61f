use vstd::prelude::*;
use crate::view::distinct_views;

verus! {

/// A discovery-protocol event: a peer joined the local network, or a
/// known peer failed to renew its announcement within the timeout window.
pub enum DiscoveryEvent {
    Discovered { peer: String, address: String },
    Expired { peer: String },
}

/// The announcement set after one announcement from `p`: an already-known
/// peer changes nothing.
pub open spec fn spec_announce(known: Seq<Seq<char>>, p: Seq<char>) -> Seq<Seq<char>> {
    if known.contains(p) {
        known
    } else {
        known.push(p)
    }
}

/// The announcement set after `p` expires: every record of `p` is gone.
pub open spec fn spec_expire(known: Seq<Seq<char>>, p: Seq<char>) -> Seq<Seq<char>> {
    known.remove_value(p)
}

/// Coalesces raw presence announcements and timeouts into discovery
/// events: each peer transitions Discovered -> Expired -> Discovered as it
/// leaves and rejoins, and an announcement from an already-present peer
/// emits nothing.
pub struct DiscoveryTracker {
    known: Vec<String>,
}

impl DiscoveryTracker {
    /// The identities currently considered present, in first-seen order.
    pub closed spec fn peers(self) -> Seq<Seq<char>> {
        self.known@.map_values(|s: String| s@)
    }

    /// No peer is recorded twice.
    pub closed spec fn wf(self) -> bool {
        distinct_views(self.known@)
    }

    /// A fresh tracker: nobody is known yet.
    pub fn new() -> (t: DiscoveryTracker)
        ensures
            t.wf(),
            t.peers() == Seq::<Seq<char>>::empty(),
    {
        let t = DiscoveryTracker { known: Vec::new() };
        proof {
            assert(t.peers() =~= Seq::<Seq<char>>::empty());
        }
        t
    }

    /// The index of `peer` in the known list, if present.
    fn find(&self, peer: &String) -> (r: Option<usize>)
        ensures
            match r {
                Some(i) => i < self.known@.len() && self.known@[i as int]@ == peer@,
                None => !self.peers().contains(peer@),
            },
    {
        let mut i: usize = 0;
        while i < self.known.len()
            invariant
                i <= self.known@.len(),
                forall|k: int| 0 <= k < i ==> (#[trigger] self.known@[k]@) != peer@,
            decreases self.known@.len() - i,
        {
            if self.known[i] == *peer {
                return Some(i);
            }
            i = i + 1;
        }
        proof {
            assert forall|k: int| 0 <= k < self.peers().len() implies #[trigger] self.peers()[k]
                != peer@ by {
                assert(self.known@[k]@ != peer@);
            }
        }
        None
    }

    /// Whether `peer` is currently considered present.
    pub fn is_known(&self, peer: &String) -> (r: bool)
        ensures
            r == self.peers().contains(peer@),
    {
        match self.find(peer) {
            Some(i) => {
                proof {
                    assert(self.peers()[i as int] == peer@);
                }
                true
            },
            None => false,
        }
    }

    /// Record a presence announcement from `peer` at `address`.  Emits a
    /// `Discovered` event exactly when the peer was not already present;
    /// repeated announcements from a present peer change nothing and emit
    /// nothing.
    pub fn record_announcement(&mut self, peer: &String, address: &String) -> (r: Option<
        DiscoveryEvent,
    >)
        requires
            old(self).wf(),
        ensures
            final(self).wf(),
            final(self).peers() == spec_announce(old(self).peers(), peer@),
            old(self).peers().contains(peer@) ==> r is None,
            !old(self).peers().contains(peer@) ==> (r matches Some(e) && (e matches
                DiscoveryEvent::Discovered { peer: q, address: a } && q@ == peer@ && a@
                == address@)),
    {
        match self.find(peer) {
            Some(i) => {
                proof {
                    assert(self.peers()[i as int] == peer@);
                }
                None
            },
            None => {
                let ghost before = self.known@;
                self.known.push(peer.clone());
                proof {
                    assert(self.peers() =~= before.map_values(|s: String| s@).push(peer@));
                    assert forall|a: int, b: int| 0 <= a < b < self.known@.len() implies (
                    #[trigger] self.known@[a]@) != (#[trigger] self.known@[b]@) by {
                        if b == self.known@.len() - 1 {
                            assert(old(self).peers()[a] == self.known@[a]@);
                        }
                    }
                }
                Some(
                    DiscoveryEvent::Discovered { peer: peer.clone(), address: address.clone() },
                )
            },
        }
    }

    /// Record that `peer` failed to renew within the timeout window.
    /// Emits an `Expired` event exactly when the peer was present; a
    /// timeout for an unknown peer changes nothing and emits nothing.
    pub fn record_expiry(&mut self, peer: &String) -> (r: Option<DiscoveryEvent>)
        requires
            old(self).wf(),
        ensures
            final(self).wf(),
            final(self).peers() == spec_expire(old(self).peers(), peer@),
            !old(self).peers().contains(peer@) ==> r is None,
            old(self).peers().contains(peer@) ==> (r matches Some(e) && (e matches
                DiscoveryEvent::Expired { peer: q } && q@ == peer@)),
    {
        match self.find(peer) {
            Some(i) => {
                let ghost before = self.known@;
                proof {
                    assert(self.peers()[i as int] == peer@);
                    lemma_first_index_of_distinct(self.peers(), peer@, i as int);
                }
                self.known.remove(i);
                proof {
                    assert(self.peers() =~= before.map_values(|s: String| s@).remove(i as int));
                    assert(old(self).peers().index_of_first(peer@) == Some(i as int));
                    old(self).peers().index_of_first_ensures(peer@);
                    assert(self.peers() =~= spec_expire(old(self).peers(), peer@));
                    assert forall|a: int, b: int| 0 <= a < b < self.known@.len() implies (
                    #[trigger] self.known@[a]@) != (#[trigger] self.known@[b]@) by {
                        let a0 = if a < i as int {
                            a
                        } else {
                            a + 1
                        };
                        let b0 = if b < i as int {
                            b
                        } else {
                            b + 1
                        };
                        assert(before[a0]@ != before[b0]@);
                    }
                }
                Some(DiscoveryEvent::Expired { peer: peer.clone() })
            },
            None => {
                proof {
                    old(self).peers().index_of_first_ensures(peer@);
                    assert(self.peers() =~= spec_expire(old(self).peers(), peer@));
                }
                None
            },
        }
    }
}

/// In a duplicate-free sequence, an element's first index is its only
/// index.
proof fn lemma_first_index_of_distinct(s: Seq<Seq<char>>, p: Seq<char>, i: int)
    requires
        0 <= i < s.len(),
        s[i] == p,
        forall|a: int, b: int| 0 <= a < b < s.len() ==> s[a] != s[b],
    ensures
        s.index_of_first(p) == Some(i),
{
    s.index_of_first_ensures(p);
    assert(s.contains(p));
    let j = s.index_of_first(p)->0;
    if j < i {
        assert(s[j] != s[i]);
    }
    if i < j {
        assert(s[i] != s[j]);
    }
}

/// Discovery idempotence law: announcements from an already-known peer
/// never change the announcement set, so they never produce a duplicate
/// `Discovered` event -- after any announcement from `p`, a second
/// announcement from `p` finds `p` present and leaves everything as it
/// was.
pub proof fn lemma_discovery_idempotent(known: Seq<Seq<char>>, p: Seq<char>)
    ensures
        spec_announce(known, p).contains(p),
        spec_announce(spec_announce(known, p), p) == spec_announce(known, p),
{
    if known.contains(p) {
    } else {
        assert(known.push(p)[known.len() as int] == p);
    }
}

} // verus!
