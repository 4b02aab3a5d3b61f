use vstd::prelude::*;

verus! {

/// One forwarding entry: `peer` receives `topic`'s messages.
struct ViewEntry {
    topic: String,
    peer: String,
}

/// No two strings in the sequence render the same text.
pub open spec fn distinct_views(ps: Seq<String>) -> bool {
    forall|a: int, b: int| 0 <= a < b < ps.len() ==> ps[a]@ != ps[b]@
}

/// Whether some string in the sequence renders `p`.
pub open spec fn has_view(ps: Seq<String>, p: Seq<char>) -> bool {
    exists|i: int| 0 <= i < ps.len() && #[trigger] ps[i]@ == p
}

/// The per-topic partial view: for each topic, the set of peer
/// identifiers this node forwards that topic's messages to.  Mutated only
/// by the event loop, in response to discovery events and explicit
/// subscribe intents.
pub struct PartialView {
    entries: Vec<ViewEntry>,
}

impl PartialView {
    /// Whether `peer` is in `topic`'s forwarding set.
    pub closed spec fn member(self, topic: Seq<char>, peer: Seq<char>) -> bool {
        exists|i: int|
            0 <= i < self.entries@.len() && (#[trigger] self.entries@[i].topic@) == topic
                && self.entries@[i].peer@ == peer
    }

    /// No forwarding entry is duplicated.
    pub closed spec fn wf(self) -> bool {
        forall|a: int, b: int|
            0 <= a < b < self.entries@.len() ==> !((#[trigger] self.entries@[a].topic@) == (
            #[trigger] self.entries@[b].topic@) && self.entries@[a].peer@
                == self.entries@[b].peer@)
    }

    /// An empty view: no peer is forwarded anything.
    pub fn new() -> (v: PartialView)
        ensures
            v.wf(),
            forall|t: Seq<char>, p: Seq<char>| !v.member(t, p),
    {
        PartialView { entries: Vec::new() }
    }

    /// The index of the entry for (`topic`, `peer`), if there is one.
    fn find(&self, topic: &String, peer: &String) -> (r: Option<usize>)
        ensures
            match r {
                Some(i) => i < self.entries@.len() && self.entries@[i as int].topic@ == topic@
                    && self.entries@[i as int].peer@ == peer@,
                None => forall|i: int|
                    0 <= i < self.entries@.len() ==> !((#[trigger] self.entries@[i].topic@)
                        == topic@ && self.entries@[i].peer@ == peer@),
            },
    {
        let mut i: usize = 0;
        while i < self.entries.len()
            invariant
                i <= self.entries@.len(),
                forall|k: int|
                    0 <= k < i ==> !((#[trigger] self.entries@[k].topic@) == topic@
                        && self.entries@[k].peer@ == peer@),
            decreases self.entries@.len() - i,
        {
            if self.entries[i].topic == *topic && self.entries[i].peer == *peer {
                return Some(i);
            }
            i = i + 1;
        }
        None
    }

    /// Whether `peer` is currently in `topic`'s forwarding set.
    pub fn contains(&self, topic: &String, peer: &String) -> (r: bool)
        ensures
            r == self.member(topic@, peer@),
    {
        match self.find(topic, peer) {
            Some(_) => true,
            None => false,
        }
    }

    /// Add `peer` to `topic`'s forwarding set.  Idempotent: adding an
    /// already-present peer changes nothing.
    pub fn add(&mut self, topic: &String, peer: &String)
        requires
            old(self).wf(),
        ensures
            final(self).wf(),
            forall|t: Seq<char>, p: Seq<char>|
                #[trigger] final(self).member(t, p) <==> (old(self).member(t, p) || (t == topic@
                    && p == peer@)),
    {
        match self.find(topic, peer) {
            Some(i) => {
                proof {
                    assert(self.entries@[i as int].topic@ == topic@ && self.entries@[
                    i as int].peer@ == peer@);
                    assert(self.member(topic@, peer@));
                }
            },
            None => {
                let ghost before = self.entries@;
                self.entries.push(ViewEntry { topic: topic.clone(), peer: peer.clone() });
                proof {
                    let n = before.len() as int;
                    assert(self.entries@[n].topic@ == topic@ && self.entries@[n].peer@ == peer@);
                    assert(self.member(topic@, peer@));
                    assert forall|t: Seq<char>, p: Seq<char>| #[trigger]
                        self.member(t, p) implies (old(self).member(t, p) || (t == topic@ && p
                        == peer@)) by {
                        let i = choose|i: int|
                            0 <= i < self.entries@.len() && (#[trigger] self.entries@[i].topic@)
                                == t && self.entries@[i].peer@ == p;
                        if i < n {
                            assert(old(self).entries@[i].topic@ == t && old(self).entries@[i].peer@
                                == p);
                        }
                    }
                    assert forall|t: Seq<char>, p: Seq<char>|
                        old(self).member(t, p) implies #[trigger] self.member(t, p) by {
                        let i = choose|i: int|
                            0 <= i < before.len() && (#[trigger] before[i].topic@) == t
                                && before[i].peer@ == p;
                        assert(self.entries@[i].topic@ == t && self.entries@[i].peer@ == p);
                    }
                }
            },
        }
    }

    /// Remove `peer` from `topic`'s forwarding set.  Removing an absent
    /// peer changes nothing.
    pub fn remove(&mut self, topic: &String, peer: &String)
        requires
            old(self).wf(),
        ensures
            final(self).wf(),
            forall|t: Seq<char>, p: Seq<char>|
                #[trigger] final(self).member(t, p) <==> (old(self).member(t, p) && !(t == topic@
                    && p == peer@)),
    {
        match self.find(topic, peer) {
            Some(i) => {
                let ghost before = self.entries@;
                self.entries.remove(i);
                proof {
                    assert forall|t: Seq<char>, p: Seq<char>| #[trigger]
                        self.member(t, p) implies (old(self).member(t, p) && !(t == topic@
                        && p == peer@)) by {
                        let j = choose|j: int|
                            0 <= j < self.entries@.len() && (#[trigger] self.entries@[j].topic@)
                                == t && self.entries@[j].peer@ == p;
                        let k = if j < i {
                            j
                        } else {
                            j + 1
                        };
                        assert(before[k].topic@ == t && before[k].peer@ == p);
                    }
                    assert forall|t: Seq<char>, p: Seq<char>|
                        old(self).member(t, p) && !(t == topic@ && p == peer@) implies #[trigger]
                        self.member(t, p) by {
                        let j = choose|j: int|
                            0 <= j < before.len() && (#[trigger] before[j].topic@) == t
                                && before[j].peer@ == p;
                        let k = if j < i as int {
                            j
                        } else {
                            j - 1
                        };
                        assert(self.entries@[k].topic@ == t && self.entries@[k].peer@ == p);
                    }
                }
            },
            None => {
            },
        }
    }

    /// The peers currently in `topic`'s forwarding set, each exactly once,
    /// in no promised order.
    pub fn peers_of(&self, topic: &String) -> (r: Vec<String>)
        requires
            self.wf(),
        ensures
            distinct_views(r@),
            forall|p: Seq<char>| has_view(r@, p) <==> self.member(topic@, p),
    {
        let mut r: Vec<String> = Vec::new();
        let mut i: usize = 0;
        while i < self.entries.len()
            invariant
                self.wf(),
                i <= self.entries@.len(),
                distinct_views(r@),
                forall|p: Seq<char>|
                    has_view(r@, p) <==> exists|k: int|
                        0 <= k < i && (#[trigger] self.entries@[k].topic@) == topic@
                            && self.entries@[k].peer@ == p,
            decreases self.entries@.len() - i,
        {
            if self.entries[i].topic == *topic {
                let ghost rbefore = r@;
                r.push(self.entries[i].peer.clone());
                proof {
                    let n = rbefore.len() as int;
                    assert(r@[n]@ == self.entries@[i as int].peer@);
                    assert forall|a: int, b: int| 0 <= a < b < r@.len() implies r@[a]@ != r@[b]@ by {
                        if b < n {
                            assert(rbefore[a]@ != rbefore[b]@);
                        } else {
                            assert(rbefore[a]@ == r@[a]@);
                            assert(has_view(rbefore, r@[a]@));
                            let k = choose|k: int|
                                0 <= k < i && (#[trigger] self.entries@[k].topic@) == topic@
                                    && self.entries@[k].peer@ == r@[a]@;
                            assert(!(self.entries@[k].topic@ == self.entries@[i as int].topic@
                                && self.entries@[k].peer@ == self.entries@[i as int].peer@));
                        }
                    }
                    assert forall|p: Seq<char>| has_view(r@, p) implies exists|k: int|
                        0 <= k < i + 1 && (#[trigger] self.entries@[k].topic@) == topic@
                            && self.entries@[k].peer@ == p by {
                        let j = choose|j: int| 0 <= j < r@.len() && (#[trigger] r@[j]@) == p;
                        if j < n {
                            assert(rbefore[j]@ == p);
                            assert(has_view(rbefore, p));
                        } else {
                            assert(self.entries@[i as int].topic@ == topic@
                                && self.entries@[i as int].peer@ == p);
                        }
                    }
                    assert forall|p: Seq<char>|
                        (exists|k: int|
                            0 <= k < i + 1 && (#[trigger] self.entries@[k].topic@) == topic@
                                && self.entries@[k].peer@ == p) implies has_view(r@, p) by {
                        let k = choose|k: int|
                            0 <= k < i + 1 && (#[trigger] self.entries@[k].topic@) == topic@
                                && self.entries@[k].peer@ == p;
                        if k < i {
                            assert(has_view(rbefore, p));
                            let j = choose|j: int|
                                0 <= j < rbefore.len() && (#[trigger] rbefore[j]@) == p;
                            assert(r@[j]@ == p);
                        } else {
                            assert(r@[n]@ == p);
                        }
                    }
                }
            } else {
                proof {
                    assert(self.entries@[i as int].topic@ != topic@);
                    assert forall|p: Seq<char>|
                        (exists|k: int|
                            0 <= k < i + 1 && (#[trigger] self.entries@[k].topic@) == topic@
                                && self.entries@[k].peer@ == p) implies has_view(r@, p) by {
                        let k = choose|k: int|
                            0 <= k < i + 1 && (#[trigger] self.entries@[k].topic@) == topic@
                                && self.entries@[k].peer@ == p;
                        assert(k < i);
                    }
                }
            }
            i = i + 1;
        }
        r
    }
}

} // verus!
